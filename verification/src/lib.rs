//! Verified core of a minimal "Quote of the Day" line-protocol server.
//!
//! The library holds everything the server decides: parsing the command-line
//! selector into a quote source, loading and validating a static quote list,
//! choosing a quote for a connection, rendering the response bytes that are
//! written to the client, and the served-connection counter with its status
//! line. The surrounding binary only moves bytes between this library and the
//! operating system (file reads, process spawning, the TCP accept loop).

use vstd::prelude::*;

pub mod args;
pub mod handler;
pub mod server;
pub mod source;
pub mod text;

verus! {

/// Maps the error of a `Result`, leaving a success untouched.
pub fn etl<A, B, C, D: FnOnce(B) -> C>(v: Result<A, B>, f: D) -> (r: Result<A, C>)
    requires
        forall|b: B| v == Result::<A, B>::Err(b) ==> f.requires((b,)),
    ensures
        match v {
            Ok(a) => r == Result::<A, C>::Ok(a),
            Err(b) => r matches Err(c) && f.ensures((b,), c),
        },
{
    match v {
        Ok(a) => Ok(a),
        Err(b) => Err(f(b)),
    }
}

} // verus!
