use vstd::prelude::*;
use crate::error::TransferError;
use crate::hash::{keccak256, keccak_of};
use crate::uint::be_value;

verus! {

/// The order of the secp256k1 group: valid private scalars lie in `1 .. order`.
pub open spec fn secp256k1_order() -> nat {
    let high: nat = 0xFFFF_FFFF_FFFF_FFFF_FFFF_FFFF_FFFF_FFFE;
    let low: nat = 0xBAAE_DCE6_AF48_A03B_BFD2_5E8C_D036_4141;
    high * 0x1_0000_0000_0000_0000 * 0x1_0000_0000_0000_0000 + low
}

/// A private key: 32 bytes that, read big-endian, are neither zero nor at or
/// above the group order.
pub open spec fn valid_secret_key(k: Seq<u8>) -> bool {
    &&& k.len() == 32
    &&& 0 < be_value(k)
    &&& be_value(k) < secp256k1_order()
}

/// The uncompressed public key (65 bytes: a prefix byte, then both
/// coordinates) that belongs to a valid private key.
pub uninterp spec fn public_key_of(k: Seq<u8>) -> Seq<u8>;

/// The address of an uncompressed public key: the last 20 bytes of the
/// Keccak digest of its 64 coordinate bytes (the prefix byte left out).
pub open spec fn address_of_public_key(p: Seq<u8>) -> Seq<u8> {
    keccak_of(p.subrange(1, 65)).subrange(12, 32)
}

/// The address that a valid private key controls.
pub open spec fn address_of_key(k: Seq<u8>) -> Seq<u8> {
    address_of_public_key(public_key_of(k))
}

/// Relies on secp256k1's `SecretKey::from_slice`: it accepts exactly 32 bytes
/// that pass `secp256k1_ec_seckey_verify` (not zero, below the group order).
#[verifier::external_body]
pub(crate) fn secret_key_is_valid(k: &[u8]) -> (r: bool)
    ensures
        r == valid_secret_key(k@),
{
    secp256k1::SecretKey::from_slice(k).is_ok()
}

/// Relies on secp256k1's `PublicKey::from_secret_key` followed by
/// `serialize_uncompressed`: the 65-byte public key of the private key.
#[verifier::external_body]
fn uncompressed_public_key(k: &[u8]) -> (r: [u8; 65])
    requires
        valid_secret_key(k@),
    ensures
        r@ == public_key_of(k@),
{
    let sk = secp256k1::SecretKey::from_slice(k).expect("a valid secret key");
    let secp = secp256k1::Secp256k1::signing_only();
    secp256k1::PublicKey::from_secret_key(&secp, &sk).serialize_uncompressed()
}

/// An uncompressed secp256k1 public key.
#[derive(Debug, Clone, Copy, PartialEq, Eq)]
pub struct PublicKey {
    pub bytes: [u8; 65],
}

/// A 20-byte account address.
#[derive(Debug, Clone, Copy, PartialEq, Eq)]
pub struct Address {
    pub bytes: [u8; 20],
}

impl Address {
    pub fn is_zero(&self) -> (r: bool)
        ensures
            r == (forall|i: int| 0 <= i < 20 ==> self.bytes@[i] == 0),
    {
        let mut i: usize = 0;
        while i < 20
            invariant
                i <= 20,
                forall|j: int| 0 <= j < i ==> self.bytes@[j] == 0,
            decreases 20 - i,
        {
            if self.bytes[i] != 0 {
                return false;
            }
            i += 1;
        }
        true
    }
}

/// Derives the public key of a private key given as raw bytes. Fails with
/// `InvalidKey` exactly when the bytes are not a valid private scalar.
pub fn derive_public_key(k: &[u8]) -> (r: Result<PublicKey, TransferError>)
    ensures
        r is Err <==> !valid_secret_key(k@),
        r is Err ==> r == Err::<PublicKey, TransferError>(TransferError::InvalidKey),
        r matches Ok(p) ==> p.bytes@ == public_key_of(k@),
{
    if !secret_key_is_valid(k) {
        return Err(TransferError::InvalidKey);
    }
    Ok(PublicKey { bytes: uncompressed_public_key(k) })
}

/// Derives the address of a public key.
pub fn derive_address(p: &PublicKey) -> (r: Address)
    ensures
        r.bytes@ == address_of_public_key(p.bytes@),
{
    let mut coords: Vec<u8> = Vec::new();
    let mut i: usize = 1;
    while i < 65
        invariant
            1 <= i <= 65,
            coords@ =~= p.bytes@.subrange(1, i as int),
        decreases 65 - i,
    {
        coords.push(p.bytes[i]);
        i += 1;
    }
    let h = keccak256(coords.as_slice());
    let mut out: [u8; 20] = [0u8; 20];
    let mut j: usize = 0;
    while j < 20
        invariant
            j <= 20,
            h@ == keccak_of(p.bytes@.subrange(1, 65)),
            forall|m: int| 0 <= m < j ==> out@[m] == h@[m + 12],
        decreases 20 - j,
    {
        out[j] = h[j + 12];
        j += 1;
    }
    assert(out@ =~= address_of_public_key(p.bytes@));
    Address { bytes: out }
}

/// The address derived from a private key depends on nothing but the key:
/// equal keys always lead, through the public key, to equal addresses.
pub proof fn lemma_address_deterministic(k1: Seq<u8>, k2: Seq<u8>)
    requires
        valid_secret_key(k1),
        k1 == k2,
    ensures
        address_of_public_key(public_key_of(k1)) == address_of_public_key(public_key_of(k2)),
        address_of_key(k1) == address_of_key(k2),
{
}

} // verus!
