//! Object transport over the peer network.
use vstd::prelude::*;
use vstd::string::*;
use crate::error::{CoreError, ErrorView, Result};
use crate::text::cat2;

verus! {

/// Transport for fetching and pushing objects. It is not connected to the peer
/// network yet, so it finds nothing.
#[derive(Debug, Clone, Copy)]
pub struct P2pObjectTransport {}

impl P2pObjectTransport {
    /// A transport that is not connected.
    pub fn new() -> (r: Self)
        ensures
            r == (P2pObjectTransport {  }),
    {
        P2pObjectTransport {  }
    }

    /// Fetch an object by hash: never found.
    pub fn fetch(&self, hash: &str) -> (r: Result<Vec<u8>>)
        ensures
            r is Err,
            r->Err_0@ == ErrorView::ObjectNotFound(
                "P2P transport not yet implemented — hash: "@ + hash@,
            ),
    {
        Err(
            CoreError::ObjectNotFound(
                cat2("P2P transport not yet implemented — hash: ", hash),
            ),
        )
    }
}

} // verus!
