//! Bytes that must not stay in memory.

use vstd::prelude::*;

verus! {

/// Wipes bytes with `zeroize::Zeroize::zeroize` for `Vec<u8>`, which overwrites
/// every byte with zero and then leaves the vector empty.
#[verifier::external_body]
pub(crate) fn wipe(bytes: &mut Vec<u8>)
    ensures
        final(bytes)@ == Seq::<u8>::empty(),
{
    zeroize::Zeroize::zeroize(bytes);
}

} // verus!
