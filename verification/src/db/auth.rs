//! What the views read of a session's credentials.

use vstd::prelude::*;

verus! {

/// The token that proves a request's origin: sixteen bytes.
#[derive(Clone, Copy, Debug, PartialEq, Eq)]
pub struct SessionHash(pub [u8; 16]);

impl View for SessionHash {
    type V = Seq<u8>;

    open spec fn view(&self) -> Seq<u8> {
        self.0@
    }
}

} // verus!
