//! Server-loop state and operator-facing status text: the served-connection
//! counter, its status line, and the startup line announcing the quote count.

use vstd::prelude::*;
use vstd::arithmetic::div_mod::lemma_div_is_strictly_smaller;
use vstd::utf8::{is_ascii_chars, is_ascii_chars_encode_utf8};

verus! {

/// Count of connections the server has processed since start. It moves only
/// forward, by exactly one per accepted connection, whether or not handling
/// that connection succeeded.
pub struct ServedCounter {
    count: u128,
}

impl View for ServedCounter {
    type V = nat;

    closed spec fn view(&self) -> nat {
        self.count as nat
    }
}

impl ServedCounter {
    /// Starts at zero, before any connection was accepted.
    pub fn new() -> (r: ServedCounter)
        ensures
            r@ == 0,
    {
        ServedCounter { count: 0 }
    }

    /// Records one more handled connection: the count grows by exactly one.
    pub fn record_connection(&mut self)
        requires
            old(self)@ < u128::MAX,
        ensures
            final(self)@ == old(self)@ + 1,
    {
        self.count = self.count + 1;
    }

    /// The current count.
    pub fn count(&self) -> (r: u128)
        ensures
            r as nat == self@,
    {
        self.count
    }
}

/// The decimal digits of `n`, most significant first, as their ASCII bytes.
pub open spec fn decimal_digits(n: nat) -> Seq<u8>
    decreases n,
    via decimal_digits_decreases
{
    if n < 10 {
        seq![(48 + n) as u8]
    } else {
        decimal_digits(n / 10) + seq![(48 + n % 10) as u8]
    }
}

#[via_fn]
proof fn decimal_digits_decreases(n: nat) {
    if n >= 10 {
        lemma_div_is_strictly_smaller(n as int, 10);
    }
}

/// Every byte of a decimal rendering is an ASCII digit.
proof fn lemma_decimal_digits_ascii(n: nat)
    ensures
        forall|i: int|
            0 <= i < decimal_digits(n).len() ==> 48 <= #[trigger] decimal_digits(n)[i] <= 57,
    decreases n,
{
    if n >= 10 {
        lemma_div_is_strictly_smaller(n as int, 10);
        lemma_decimal_digits_ascii(n / 10);
        assert forall|i: int|
            0 <= i < decimal_digits(n).len() implies 48 <= #[trigger] decimal_digits(n)[i]
            <= 57 by {
            if i < decimal_digits(n / 10).len() {
                assert(decimal_digits(n)[i] == decimal_digits(n / 10)[i]);
            } else {
                assert(decimal_digits(n)[i] == (48 + n % 10) as u8);
            }
        }
    }
}

/// Appends the decimal rendering of `n` to `out`.
fn push_decimal(n: u128, out: &mut Vec<u8>)
    ensures
        final(out)@ == old(out)@ + decimal_digits(n as nat),
    decreases n,
{
    if n >= 10 {
        proof {
            lemma_div_is_strictly_smaller(n as int, 10);
        }
        push_decimal(n / 10, out);
    }
    let d: u8 = (n % 10) as u8;
    out.push(48 + d);
    proof {
        assert(out@ =~= old(out)@ + decimal_digits(n as nat));
    }
}

/// Relies on `String::from_utf8`: bytes below 128 are valid UTF-8 and decode
/// to exactly those characters, so the call cannot fail on them.
#[verifier::external_body]
fn string_from_ascii(bytes: Vec<u8>) -> (r: String)
    requires
        forall|i: int| 0 <= i < bytes@.len() ==> #[trigger] bytes@[i] < 128,
    ensures
        r@ == bytes@.map_values(|b: u8| b as char),
{
    String::from_utf8(bytes).unwrap()
}

/// The status line for `c` served connections, singular for exactly one. The
/// singular form keeps a trailing blank so that either form overwrites the
/// other on redraw.
pub open spec fn count_line_view(c: u128) -> Seq<char> {
    decimal_digits(c as nat).map_values(|b: u8| b as char) + (if c == 1 {
        " quote served "@
    } else {
        " quotes served"@
    })
}

/// Renders the status line for `c` served connections.
pub fn count_line(c: u128) -> (r: String)
    ensures
        r@ == count_line_view(c),
{
    let mut bytes: Vec<u8> = Vec::new();
    push_decimal(c, &mut bytes);
    let suffix: &str = if c == 1 {
        " quote served "
    } else {
        " quotes served"
    };
    let mut sb = suffix.as_bytes_vec();
    let ghost digits = bytes@;
    bytes.append(&mut sb);
    proof {
        reveal_strlit(" quote served ");
        reveal_strlit(" quotes served");
        lemma_decimal_digits_ascii(c as nat);
        assert(is_ascii_chars(suffix@));
        is_ascii_chars_encode_utf8(suffix@);
        assert(forall|i: int| 0 <= i < bytes@.len() ==> #[trigger] bytes@[i] < 128);
        assert(bytes@.map_values(|b: u8| b as char) =~= count_line_view(c));
    }
    string_from_ascii(bytes)
}

/// The startup line announcing how many quotes were loaded: the count for a
/// static list, "infinitely many" for a command generator.
pub open spec fn loaded_line_view(size: Option<usize>) -> Seq<char> {
    match size {
        Some(k) => decimal_digits(k as nat).map_values(|b: u8| b as char) + " quotes loaded"@,
        None => "infinitely many quotes loaded"@,
    }
}

/// Renders the startup line for a source whose size is `size`.
pub fn loaded_line(size: Option<usize>) -> (r: String)
    ensures
        r@ == loaded_line_view(size),
{
    match size {
        Some(k) => {
            let mut bytes: Vec<u8> = Vec::new();
            push_decimal(k as u128, &mut bytes);
            let suffix: &str = " quotes loaded";
            let mut sb = suffix.as_bytes_vec();
            bytes.append(&mut sb);
            proof {
                reveal_strlit(" quotes loaded");
                lemma_decimal_digits_ascii(k as nat);
                assert(is_ascii_chars(suffix@));
                is_ascii_chars_encode_utf8(suffix@);
                assert(forall|i: int| 0 <= i < bytes@.len() ==> #[trigger] bytes@[i] < 128);
                assert(bytes@.map_values(|b: u8| b as char) =~= loaded_line_view(size));
            }
            string_from_ascii(bytes)
        },
        None => "infinitely many quotes loaded".to_owned(),
    }
}

} // verus!
