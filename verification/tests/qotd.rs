use qotd::args::{parse_args, ParsedArgs};
use qotd::etl;
use qotd::handler::render_response;
use qotd::server::{count_line, loaded_line, ServedCounter};
use qotd::source::{ConfigError, QuoteCmd, QuoteError, QuoteFile, QuoteSource};

fn sv(parts: &[&str]) -> Vec<String> {
    parts.iter().map(|s| s.to_string()).collect()
}

#[test]
fn static_list_from_mixed_file() {
    let q = QuoteFile::new("a\n\nb\n  c  \n").unwrap();
    assert_eq!(q.get_len(), Some(3));
    assert_eq!(q.entry(0).as_str(), "a");
    assert_eq!(q.entry(1).as_str(), "b");
    assert_eq!(q.entry(2).as_str(), "c");
}

#[test]
fn empty_file_fails_construction() {
    assert!(matches!(QuoteFile::new(""), Err(ConfigError::NoUsableLines)));
    assert!(matches!(
        QuoteFile::new("  \n\t\n   \n"),
        Err(ConfigError::NoUsableLines)
    ));
}

#[test]
fn unicode_whitespace_is_trimmed() {
    let q = QuoteFile::new("\u{00A0}hello\u{00A0}\nworld\r").unwrap();
    assert_eq!(q.get_len(), Some(2));
    assert_eq!(q.entry(0).as_str(), "hello");
    assert_eq!(q.entry(1).as_str(), "world");
}

#[test]
fn file_without_trailing_newline_keeps_last_line() {
    let q = QuoteFile::new("first\nsecond").unwrap();
    assert_eq!(q.get_len(), Some(2));
    assert_eq!(q.entry(1).as_str(), "second");
}

#[test]
fn quote_draws_only_loaded_entries() {
    let q = QuoteFile::new("a\nb\nc\n").unwrap();
    let mut rng = rand::thread_rng();
    let mut seen = [false; 3];
    for _ in 0..200 {
        let b = q.quote(&mut rng).unwrap();
        let s = String::from_utf8(b).unwrap();
        match s.as_str() {
            "a" => seen[0] = true,
            "b" => seen[1] = true,
            "c" => seen[2] = true,
            other => panic!("unexpected quote {:?}", other),
        }
    }
    assert!(seen[0] && seen[1] && seen[2]);
}

#[test]
fn single_entry_always_served() {
    let q = QuoteFile::new("only\n").unwrap();
    let mut rng = rand::thread_rng();
    for _ in 0..10 {
        assert_eq!(q.quote(&mut rng).unwrap(), b"only".to_vec());
    }
}

#[test]
fn non_ascii_quote_is_served_as_its_bytes() {
    let q = QuoteFile::new("h\u{00e9}llo\n").unwrap();
    let mut rng = rand::thread_rng();
    assert_eq!(q.quote(&mut rng).unwrap(), "h\u{00e9}llo".as_bytes().to_vec());
}

#[test]
fn known_size_of_each_source() {
    let f = QuoteFile::new("one\ntwo\n").unwrap();
    assert_eq!(QuoteSource::File(f).known_size(), Some(2));
    let c = QuoteCmd::new(sv(&["echo", "hello"]));
    assert_eq!(QuoteSource::Cmd(c).known_size(), None);
}

#[test]
fn command_output_is_returned_verbatim() {
    let c = QuoteCmd::new(sv(&["echo", "hello"]));
    let out = c.quote_from_output(Ok(b"hello\n".to_vec())).unwrap();
    assert_eq!(out, b"hello\n".to_vec());
}

#[test]
fn command_failure_becomes_quote_error() {
    let c = QuoteCmd::new(sv(&["no-such-binary"]));
    match c.quote_from_output(Err(String::from("spawn failed"))) {
        Err(e) => assert_eq!(e.message().as_str(), "spawn failed"),
        Ok(_) => panic!("expected a quote error"),
    }
}

#[test]
fn response_is_payload_then_crlf() {
    let r = render_response(Ok(b"hi".to_vec()));
    assert_eq!(r, b"hi\r\n".to_vec());
}

#[test]
fn failed_source_still_gets_a_payload() {
    let r = render_response(Err(QuoteError::ExternalCommand {
        message: String::from("boom"),
    }));
    assert_eq!(r, b"Error: boom\r\n".to_vec());
    assert!(r.starts_with(b"Error: "));
    assert!(r.ends_with(b"\r\n"));
}

#[test]
fn counter_counts_every_connection() {
    let mut c = ServedCounter::new();
    assert_eq!(c.count(), 0);
    c.record_connection();
    assert_eq!(c.count(), 1);
    c.record_connection();
    c.record_connection();
    assert_eq!(c.count(), 3);
}

#[test]
fn status_line_singular_and_plural() {
    assert_eq!(count_line(0).as_str(), "0 quotes served");
    assert_eq!(count_line(1).as_str(), "1 quote served ");
    assert_eq!(count_line(2).as_str(), "2 quotes served");
    assert_eq!(count_line(1234567890).as_str(), "1234567890 quotes served");
}

#[test]
fn loaded_line_for_each_source_size() {
    assert_eq!(loaded_line(Some(3)).as_str(), "3 quotes loaded");
    assert_eq!(loaded_line(Some(1)).as_str(), "1 quotes loaded");
    assert_eq!(
        loaded_line(None).as_str(),
        "infinitely many quotes loaded"
    );
}

#[test]
fn parse_selects_file_source() {
    match parse_args(&sv(&["qotd-rs", "file", "quotes.txt"])) {
        ParsedArgs::FileSource { path } => assert_eq!(path.as_str(), "quotes.txt"),
        _ => panic!("expected a file source"),
    }
}

#[test]
fn parse_selector_ignores_ascii_case() {
    match parse_args(&sv(&["qotd-rs", "FILE", "q.txt"])) {
        ParsedArgs::FileSource { path } => assert_eq!(path.as_str(), "q.txt"),
        _ => panic!("expected a file source"),
    }
    match parse_args(&sv(&["qotd-rs", "CmD", "echo"])) {
        ParsedArgs::CmdSource { cmd } => assert_eq!(cmd, sv(&["echo"])),
        _ => panic!("expected a command source"),
    }
}

#[test]
fn parse_selects_cmd_source() {
    match parse_args(&sv(&["qotd-rs", "cmd", "echo", "hello"])) {
        ParsedArgs::CmdSource { cmd } => assert_eq!(cmd, sv(&["echo", "hello"])),
        _ => panic!("expected a command source"),
    }
}

#[test]
fn parse_rejects_malformed_command_lines() {
    assert!(matches!(
        parse_args(&sv(&["qotd-rs"])),
        ParsedArgs::MissingSelector
    ));
    assert!(matches!(
        parse_args(&sv(&["qotd-rs", "file"])),
        ParsedArgs::FileUsage
    ));
    assert!(matches!(
        parse_args(&sv(&["qotd-rs", "file", "a", "b"])),
        ParsedArgs::FileUsage
    ));
    assert!(matches!(
        parse_args(&sv(&["qotd-rs", "cmd"])),
        ParsedArgs::CmdUsage
    ));
    match parse_args(&sv(&["qotd-rs", "serve"])) {
        ParsedArgs::UnknownSelector { selector } => assert_eq!(selector.as_str(), "serve"),
        _ => panic!("expected an unknown selector"),
    }
}

#[test]
fn etl_maps_only_the_error() {
    let ok: Result<u32, u8> = Ok(7);
    assert_eq!(etl(ok, |e: u8| e as u32 + 1), Ok(7));
    let err: Result<u32, u8> = Err(41);
    assert_eq!(etl(err, |e: u8| e as u32 + 1), Err(42));
}
