//! A buffer for plain key material that is wiped when it goes out of
//! scope, on whatever path that happens.

use vstd::prelude::*;
use crate::crypto::wipe;

verus! {

/// Plain key material, held for the length of one operation.
pub struct Secret {
    bytes: Vec<u8>,
}

impl View for Secret {
    type V = Seq<u8>;

    closed spec fn view(&self) -> Seq<u8> {
        self.bytes@
    }
}

impl Secret {
    /// Takes the material into keeping.
    pub fn new(bytes: Vec<u8>) -> (r: Secret)
        ensures
            r@ == bytes@,
    {
        Secret { bytes }
    }

    /// The material, for as long as it is kept.
    pub fn as_slice(&self) -> (r: &[u8])
        ensures
            r@ == self@,
    {
        self.bytes.as_slice()
    }

    pub fn len(&self) -> (r: usize)
        ensures
            r == self@.len(),
    {
        self.bytes.len()
    }

    /// A copy of the material, for a holder that wipes it in its turn.
    pub fn to_vec(&self) -> (r: Vec<u8>)
        ensures
            r@ == self@,
    {
        self.bytes.clone()
    }

    /// Wipes the material at once: its bytes are overwritten, and none is
    /// kept.
    pub fn clear(&mut self)
        ensures
            final(self)@ == Seq::<u8>::empty(),
    {
        wipe(&mut self.bytes);
    }
}

impl Drop for Secret {
    fn drop(&mut self)
        opens_invariants none
        no_unwind
    {
        wipe(&mut self.bytes);
    }
}

} // verus!
