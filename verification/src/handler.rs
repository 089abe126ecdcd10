//! Rendering of the one response a connection receives: a payload followed by
//! the CR LF terminator.

use vstd::prelude::*;
use vstd::utf8::{encode_scalar, encode_utf8, is_ascii_chars, is_ascii_chars_encode_utf8};

use crate::source::QuoteError;

verus! {

/// The two-byte line terminator that ends every response.
pub open spec fn crlf() -> Seq<u8> {
    seq![13u8, 10u8]
}

/// The text that announces a quote-production failure to the client.
pub open spec fn error_prefix() -> Seq<char> {
    "Error: "@
}

/// The payload of one response: the quote's bytes when one was produced, or
/// the failure text when not. A quote-source failure is answered, not
/// propagated.
pub open spec fn response_payload(quote: Result<Vec<u8>, QuoteError>) -> Seq<u8> {
    match quote {
        Ok(b) => b@,
        Err(e) => encode_utf8(error_prefix() + e.message_view()),
    }
}

/// Encoding a concatenation encodes each part in place.
proof fn lemma_encode_utf8_add(a: Seq<char>, b: Seq<char>)
    ensures
        encode_utf8(a + b) == encode_utf8(a) + encode_utf8(b),
    decreases a.len(),
{
    if a.len() == 0 {
        assert(a + b =~= b);
        assert(encode_utf8(a) + encode_utf8(b) =~= encode_utf8(b));
    } else {
        assert((a + b).drop_first() =~= a.drop_first() + b);
        assert((a + b)[0] == a[0]);
        lemma_encode_utf8_add(a.drop_first(), b);
        assert((encode_scalar(a[0] as u32) + encode_utf8(a.drop_first())) + encode_utf8(b)
            =~= encode_scalar(a[0] as u32) + (encode_utf8(a.drop_first()) + encode_utf8(b)));
    }
}

/// Builds the bytes written for one connection: the payload, then CR LF.
/// When the quote source failed, the payload begins with the failure prefix.
pub fn render_response(quote: Result<Vec<u8>, QuoteError>) -> (r: Vec<u8>)
    ensures
        r@ == response_payload(quote) + crlf(),
        (quote matches Err(_)) ==> r@.subrange(0, 7) == encode_utf8(error_prefix()),
{
    let ghost gq = quote;
    let mut out: Vec<u8> = match quote {
        Ok(b) => b,
        Err(e) => {
            let mut v = "Error: ".as_bytes_vec();
            let mut mb = e.message().as_str().as_bytes_vec();
            v.append(&mut mb);
            proof {
                lemma_encode_utf8_add(error_prefix(), e.message_view());
            }
            v
        },
    };
    out.push(13);
    out.push(10);
    proof {
        assert(out@ =~= response_payload(gq) + crlf());
        if gq matches Err(_) {
            reveal_strlit("Error: ");
            assert(is_ascii_chars(error_prefix()));
            is_ascii_chars_encode_utf8(error_prefix());
            lemma_encode_utf8_add(error_prefix(), gq->Err_0.message_view());
            assert(out@.subrange(0, 7) =~= encode_utf8(error_prefix()));
        }
    }
    out
}

} // verus!
