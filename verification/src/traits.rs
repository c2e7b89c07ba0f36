//! Capability traits of the crate.

use vstd::prelude::*;

use crate::error::Error;

verus! {

/// Rendering a value as an owned, fixed-length byte sequence.
pub trait ToBytes {
    /// What the rendering yields, or which error it fails with.
    spec fn bytes_spec(&self) -> Result<Seq<u8>, Error>;

    /// Returns `self` as an owned byte sequence, or the error that the
    /// rendering fails with.
    fn as_bytes(&self) -> (r: Result<Vec<u8>, Error>)
        ensures
            r is Ok <==> self.bytes_spec() is Ok,
            r is Ok ==> r->Ok_0@ == self.bytes_spec()->Ok_0,
            r is Err ==> r->Err_0 == self.bytes_spec()->Err_0,
    ;
}

} // verus!
