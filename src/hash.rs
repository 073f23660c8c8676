use vstd::prelude::*;
use tiny_keccak::Hasher;

verus! {

/// The 256-bit Keccak digest (the variant the ledger uses) of a byte sequence.
pub uninterp spec fn keccak_of(data: Seq<u8>) -> Seq<u8>;

/// Relies on tiny_keccak's `Keccak::v256` (`update`, then `finalize`): the
/// 32-byte digest of the input, a function of the input alone.
#[verifier::external_body]
pub(crate) fn keccak256(data: &[u8]) -> (r: [u8; 32])
    ensures
        r@ == keccak_of(data@),
{
    let mut output = [0u8; 32];
    let mut hasher = tiny_keccak::Keccak::v256();
    hasher.update(data);
    hasher.finalize(&mut output);
    output
}

} // verus!
