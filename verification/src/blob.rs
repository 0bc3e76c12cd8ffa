//! The descriptor a binary payload collapses to: its MIME type, its byte
//! length, and the content-addressed digest under which the byte store
//! holds the payload itself.

use vstd::prelude::*;
use crate::types::Digest;

verus! {

/// The mathematical value of a [`BlobBody`].
pub struct BlobV {
    pub mime: Seq<char>,
    pub len: u64,
    pub object_digest: Seq<u8>,
}

impl BlobV {
    /// Well-formed: the store digest has the fixed hash width.
    pub open spec fn wf(self) -> bool {
        self.object_digest.len() == 32
    }
}

/// A descriptor for a binary payload kept in the external byte store.
pub struct BlobBody {
    pub mime: String,
    pub len: u64,
    pub object_digest: Digest,
}

impl View for BlobBody {
    type V = BlobV;

    open spec fn view(&self) -> BlobV {
        BlobV { mime: self.mime@, len: self.len, object_digest: self.object_digest@ }
    }
}

impl Clone for BlobBody {
    fn clone(&self) -> (r: Self)
        ensures
            r@ == self@,
    {
        BlobBody {
            mime: self.mime.clone(),
            len: self.len,
            object_digest: self.object_digest.clone(),
        }
    }
}

} // verus!
