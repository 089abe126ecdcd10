//! Quote sources: a static list loaded from a file and a generator that runs
//! an external command, behind one closed set of variants.

use vstd::prelude::*;
use vstd::utf8::encode_utf8;

use crate::text::{lemma_quote_entries_step, quote_entries, trim_line};

verus! {

/// Why no quote could be produced for a connection.
#[derive(Debug)]
pub enum QuoteError {
    /// The external quote command could not be run; carries a description of
    /// the failure.
    ExternalCommand { message: String },
}

impl QuoteError {
    /// The description of the failure, as it is shown to the client.
    pub open spec fn message_view(&self) -> Seq<char> {
        match *self {
            QuoteError::ExternalCommand { message } => message@,
        }
    }

    /// The description of the failure.
    pub fn message(&self) -> (r: &String)
        ensures
            r@ == self.message_view(),
    {
        match self {
            QuoteError::ExternalCommand { message } => message,
        }
    }
}

/// Why the server could not be configured at startup.
#[derive(Debug)]
pub enum ConfigError {
    /// The quote file held no non-blank line.
    NoUsableLines,
    /// The quote file could not be read; carries a description of the failure.
    UnreadableFile { message: String },
}

/// Declares rand's `ThreadRng` so that signatures can carry the process-wide
/// random generator; the type stays opaque to the verifier.
#[verifier::external_type_specification]
#[verifier::external_body]
pub struct ExThreadRng(rand::rngs::ThreadRng);

/// Relies on rand's `Rng::gen_range` over the range `0..n`: it panics only
/// when the range is empty and otherwise returns a member of the range.
#[verifier::external_body]
fn random_index(rng: &mut rand::rngs::ThreadRng, n: usize) -> (r: usize)
    requires
        n > 0,
    ensures
        r < n,
{
    rand::Rng::gen_range(rng, 0..n)
}

/// An ordered, immutable list of quotes, loaded once from the text of a file.
pub struct QuoteFile {
    quotes: Vec<String>,
}

impl View for QuoteFile {
    type V = Seq<Seq<char>>;

    closed spec fn view(&self) -> Seq<Seq<char>> {
        self.quotes.deep_view()
    }
}

impl QuoteFile {
    /// A loaded list is usable only when it holds at least one entry.
    pub open spec fn wf(&self) -> bool {
        self@.len() > 0
    }

    /// Loads the list from the text of a quote file: one entry per line,
    /// trimmed of surrounding white space, blank lines dropped. Fails exactly
    /// when no usable line is left.
    pub fn new(content: &str) -> (r: Result<QuoteFile, ConfigError>)
        ensures
            match r {
                Ok(q) => q@ == quote_entries(content@) && q.wf(),
                Err(e) => e == ConfigError::NoUsableLines && quote_entries(content@).len() == 0,
            },
    {
        let n = content.unicode_len();
        let mut quotes: Vec<String> = Vec::new();
        let mut start: usize = 0;
        proof {
            assert(quotes.deep_view() =~= Seq::<Seq<char>>::empty());
            assert(content@.skip(0) =~= content@);
            assert(Seq::<Seq<char>>::empty() + quote_entries(content@) =~= quote_entries(
                content@,
            ));
        }
        while start < n
            invariant
                start <= n,
                n == content@.len(),
                quote_entries(content@) == quotes.deep_view() + quote_entries(
                    content@.skip(start as int),
                ),
            decreases n - start,
        {
            let mut j = start;
            while j < n && content.get_char(j) != '\n'
                invariant
                    start <= j <= n,
                    n == content@.len(),
                    forall|i: int| start <= i < j ==> #[trigger] content@[i] != '\n',
                decreases n - j,
            {
                j = j + 1;
            }
            let line = content.substring_char(start, j);
            let trimmed = trim_line(line);
            proof {
                lemma_quote_entries_step(content@, start as int, j as int);
            }
            let ghost old_entries = quotes.deep_view();
            if trimmed.unicode_len() > 0 {
                quotes.push(trimmed.to_owned());
                proof {
                    assert(quotes.deep_view() =~= old_entries + seq![trimmed@]);
                }
            } else {
                proof {
                    assert(old_entries + Seq::<Seq<char>>::empty() =~= old_entries);
                }
            }
            proof {
                if j < n {
                    assert(quote_entries(content@) == quotes.deep_view() + quote_entries(
                        content@.skip(j + 1),
                    ));
                } else {
                    assert(content@.skip(n as int) =~= Seq::<char>::empty());
                    assert(quotes.deep_view() + quote_entries(content@.skip(n as int))
                        =~= quotes.deep_view());
                }
            }
            start = if j < n {
                j + 1
            } else {
                n
            };
        }
        proof {
            assert(content@.skip(n as int) =~= Seq::<char>::empty());
            assert(quotes.deep_view() + quote_entries(content@.skip(n as int))
                =~= quotes.deep_view());
        }
        if quotes.len() == 0 {
            Err(ConfigError::NoUsableLines)
        } else {
            Ok(QuoteFile { quotes })
        }
    }

    /// Draws one quote: a uniformly random entry of the list, as its bytes.
    /// A usable list never fails to produce a quote.
    pub fn quote(&self, rng: &mut rand::rngs::ThreadRng) -> (r: Result<Vec<u8>, QuoteError>)
        requires
            self.wf(),
        ensures
            r matches Ok(b) && exists|i: int|
                0 <= i < self@.len() && b@ == encode_utf8(#[trigger] self@[i]),
    {
        let i = random_index(rng, self.quotes.len());
        let bytes = self.quotes[i].as_str().as_bytes_vec();
        proof {
            assert(bytes@ == encode_utf8(self@[i as int]));
        }
        Ok(bytes)
    }

    /// The number of loaded entries, which is known for a static list.
    pub fn get_len(&self) -> (r: Option<usize>)
        ensures
            r matches Some(k) && k == self@.len(),
    {
        Some(self.quotes.len())
    }

    /// The entry at position `i`.
    pub fn entry(&self, i: usize) -> (r: &String)
        requires
            i < self@.len(),
        ensures
            r@ == self@[i as int],
    {
        &self.quotes[i]
    }
}

/// A quote source that runs an external command for every request.
pub struct QuoteCmd {
    cmd: Vec<String>,
}

impl View for QuoteCmd {
    type V = Seq<Seq<char>>;

    closed spec fn view(&self) -> Seq<Seq<char>> {
        self.cmd.deep_view()
    }
}

impl QuoteCmd {
    /// A generator is usable only when it names an executable.
    pub open spec fn wf(&self) -> bool {
        self@.len() > 0
    }

    /// Builds the generator from a command line: the executable first, then
    /// its arguments.
    pub fn new(cmd: Vec<String>) -> (r: QuoteCmd)
        requires
            cmd@.len() > 0,
        ensures
            r@ == cmd.deep_view(),
            r.wf(),
    {
        QuoteCmd { cmd }
    }

    /// The executable and its arguments, the executable first.
    pub fn command_line(&self) -> (r: &Vec<String>)
        ensures
            r.deep_view() == self@,
    {
        &self.cmd
    }

    /// Interprets the outcome of one run of the command: captured output is
    /// returned verbatim as the quote, whatever the exit status was; a failure
    /// to run the command at all becomes a quote error carrying its
    /// description.
    pub fn quote_from_output(&self, outcome: Result<Vec<u8>, String>) -> (r: Result<
        Vec<u8>,
        QuoteError,
    >)
        ensures
            match outcome {
                Ok(b) => r matches Ok(q) && q@ == b@,
                Err(m) => r == Result::<Vec<u8>, QuoteError>::Err(
                    QuoteError::ExternalCommand { message: m },
                ),
            },
    {
        match outcome {
            Ok(b) => Ok(b),
            Err(m) => Err(QuoteError::ExternalCommand { message: m }),
        }
    }

    /// A generator has no known number of quotes.
    pub fn get_len(&self) -> (r: Option<usize>)
        ensures
            r is None,
    {
        None
    }
}

/// The closed set of quote sources the server can be configured with.
pub enum QuoteSource {
    File(QuoteFile),
    Cmd(QuoteCmd),
}

impl QuoteSource {
    /// How many distinct quotes the source can serve: the entry count of a
    /// static list, unknown for a command generator.
    pub open spec fn spec_known_size(&self) -> Option<usize> {
        match *self {
            QuoteSource::File(f) => Some(f@.len() as usize),
            QuoteSource::Cmd(_) => None,
        }
    }

    /// The number of quotes the source can serve, when that is known.
    pub fn known_size(&self) -> (r: Option<usize>)
        ensures
            r == self.spec_known_size(),
    {
        match self {
            QuoteSource::File(f) => f.get_len(),
            QuoteSource::Cmd(c) => c.get_len(),
        }
    }
}

} // verus!
