//! Parsing of the process command line into the choice of a quote source.

use vstd::prelude::*;

verus! {

/// ASCII lower-casing of one code point: the letters `A` through `Z` move to
/// their lower-case forms, everything else stays as it is.
pub open spec fn lower_u32(u: u32) -> u32 {
    if 65 <= u && u <= 90 {
        (u + 32) as u32
    } else {
        u
    }
}

/// Equality of two texts up to ASCII letter case: the same length, and
/// agreement position by position after lower-casing.
pub open spec fn eq_ignore_ascii_case(a: Seq<char>, b: Seq<char>) -> bool {
    a.len() == b.len() && forall|i: int|
        0 <= i < a.len() ==> lower_u32(#[trigger] a[i] as u32) == lower_u32(b[i] as u32)
}

/// Compares two texts for equality up to ASCII letter case.
pub fn str_eq_ignore_ascii_case(a: &str, b: &str) -> (r: bool)
    ensures
        r == eq_ignore_ascii_case(a@, b@),
{
    let na = a.unicode_len();
    let nb = b.unicode_len();
    if na != nb {
        return false;
    }
    let mut i: usize = 0;
    while i < na
        invariant
            i <= na,
            na == a@.len(),
            na == b@.len(),
            forall|k: int|
                0 <= k < i ==> lower_u32(#[trigger] a@[k] as u32) == lower_u32(b@[k] as u32),
        decreases na - i,
    {
        let ca = a.get_char(i) as u32;
        let cb = b.get_char(i) as u32;
        let la = if 65 <= ca && ca <= 90 {
            ca + 32
        } else {
            ca
        };
        let lb = if 65 <= cb && cb <= 90 {
            cb + 32
        } else {
            cb
        };
        if la != lb {
            proof {
                assert(lower_u32(a@[i as int] as u32) != lower_u32(b@[i as int] as u32));
            }
            return false;
        }
        i = i + 1;
    }
    true
}

/// What the command line asks for.
#[derive(Debug)]
pub enum ParsedArgs {
    /// `file <path>`: serve a static list loaded from the file at `path`.
    FileSource { path: String },
    /// `cmd <executable> [args...]`: serve quotes produced by running the
    /// command; the executable stands first.
    CmdSource { cmd: Vec<String> },
    /// No selector was given; the general usage text is called for.
    MissingSelector,
    /// The `file` selector without exactly one path after it.
    FileUsage,
    /// The `cmd` selector without an executable after it.
    CmdUsage,
    /// A selector that names no known quote source; carried for the
    /// diagnostic.
    UnknownSelector { selector: String },
}

/// Decides what the command line (the process name first, as handed to the
/// process) asks for. The selector is matched without regard to ASCII case.
pub fn parse_args(args: &Vec<String>) -> (r: ParsedArgs)
    ensures
        args@.len() < 2 ==> r == ParsedArgs::MissingSelector,
        args@.len() >= 2 && eq_ignore_ascii_case(args@[1]@, "file"@) ==> (if args@.len() == 3 {
            r matches ParsedArgs::FileSource { path } && path@ == args@[2]@
        } else {
            r == ParsedArgs::FileUsage
        }),
        args@.len() >= 2 && eq_ignore_ascii_case(args@[1]@, "cmd"@) ==> (if args@.len() >= 3 {
            r matches ParsedArgs::CmdSource { cmd } && cmd.deep_view() == args.deep_view().skip(2)
        } else {
            r == ParsedArgs::CmdUsage
        }),
        args@.len() >= 2 && !eq_ignore_ascii_case(args@[1]@, "file"@) && !eq_ignore_ascii_case(
            args@[1]@,
            "cmd"@,
        ) ==> (r matches ParsedArgs::UnknownSelector { selector } && selector@ == args@[1]@),
{
    if args.len() < 2 {
        return ParsedArgs::MissingSelector;
    }
    proof {
        reveal_strlit("file");
        reveal_strlit("cmd");
    }
    if str_eq_ignore_ascii_case(args[1].as_str(), "file") {
        if args.len() == 3 {
            ParsedArgs::FileSource { path: args[2].clone() }
        } else {
            ParsedArgs::FileUsage
        }
    } else if str_eq_ignore_ascii_case(args[1].as_str(), "cmd") {
        if args.len() >= 3 {
            let mut cmd: Vec<String> = Vec::new();
            let mut i: usize = 2;
            proof {
                assert(cmd.deep_view() =~= args.deep_view().subrange(2, 2));
            }
            while i < args.len()
                invariant
                    2 <= i <= args@.len(),
                    cmd.deep_view() == args.deep_view().subrange(2, i as int),
                decreases args@.len() - i,
            {
                let ghost prior = cmd.deep_view();
                cmd.push(args[i].clone());
                proof {
                    assert(cmd.deep_view() =~= prior.push(args@[i as int]@));
                    assert(prior.push(args@[i as int]@) =~= args.deep_view().subrange(
                        2,
                        i + 1,
                    ));
                }
                i = i + 1;
            }
            proof {
                assert(args.deep_view().subrange(2, args@.len() as int) =~= args.deep_view().skip(
                    2,
                ));
            }
            ParsedArgs::CmdSource { cmd }
        } else {
            ParsedArgs::CmdUsage
        }
    } else {
        ParsedArgs::UnknownSelector { selector: args[1].clone() }
    }
}

} // verus!
