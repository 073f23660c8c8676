use vstd::prelude::*;
use crate::error::TransferError;
use crate::hash::{keccak256, keccak_of};
use crate::keys::valid_secret_key;
use crate::tx::UnsignedTransaction;
use crate::uint::{be_value, Uint256};

verus! {

/// The recoverable ECDSA signature of a 32-byte digest under a valid private
/// key, as 65 bytes: `r` and `s` (32 bytes each, big-endian), then the
/// recovery id. Nonces follow RFC 6979, so the signature depends on the digest
/// and the key alone.
pub uninterp spec fn recoverable_signature_of(hash: Seq<u8>, k: Seq<u8>) -> Seq<u8>;

/// Relies on secp256k1's `Secp256k1::sign_ecdsa_recoverable` (deterministic
/// RFC 6979 nonces) and `RecoverableSignature::serialize_compact`, which gives
/// the 64 bytes `r ‖ s` and a recovery id between 0 and 3.
#[verifier::external_body]
fn sign_recoverable(hash: &[u8; 32], k: &[u8]) -> (r: ([u8; 64], u8))
    requires
        valid_secret_key(k@),
    ensures
        r.0@.push(r.1) == recoverable_signature_of(hash@, k@),
        r.1 < 4,
{
    let sk = secp256k1::SecretKey::from_slice(k).expect("a valid secret key");
    let msg = secp256k1::Message::from_slice(hash).expect("a 32-byte digest");
    let secp = secp256k1::Secp256k1::signing_only();
    let (id, rs) = secp.sign_ecdsa_recoverable(&msg, &sk).serialize_compact();
    (rs, id.to_i32() as u8)
}

/// A signed transaction, ready to be broadcast.
#[derive(Debug, Clone, PartialEq, Eq)]
pub struct SignedTransaction {
    /// The digest that was signed.
    pub message_hash: [u8; 32],
    /// `recovery_id + 2 * chain_id + 35`.
    pub v: u128,
    pub r: Uint256,
    pub s: Uint256,
    /// The signed encoding, as sent to the ledger.
    pub raw: Vec<u8>,
    /// The digest of `raw`, by which the ledger knows the transaction.
    pub transaction_hash: [u8; 32],
}

/// The replay-protected `v` of a signature with the given recovery id.
pub open spec fn signature_v(recovery_id: nat, chain_id: nat) -> nat {
    recovery_id + chain_id * 2 + 35
}

/// Whether `st` is `tx` signed with the 65-byte recoverable signature `sig`
/// over the digest `hash`.
pub open spec fn signed_with(st: SignedTransaction, tx: UnsignedTransaction, hash: Seq<u8>, sig: Seq<u8>) -> bool {
    let v = signature_v(sig[64] as nat, tx.chain_id as nat);
    &&& st.message_hash@ == hash
    &&& st.v == v
    &&& st.r.bytes@ == sig.subrange(0, 32)
    &&& st.s.bytes@ == sig.subrange(32, 64)
    &&& st.raw@ == tx.signed_encoding(v, be_value(sig.subrange(0, 32)), be_value(sig.subrange(32, 64)))
    &&& st.transaction_hash@ == keccak_of(st.raw@)
}

/// Puts a transaction and a recoverable signature of its signing digest
/// together into the signed transaction.
pub fn assemble_signed(
    tx: &UnsignedTransaction,
    hash: [u8; 32],
    rs: &[u8; 64],
    recovery_id: u8,
) -> (st: SignedTransaction)
    requires
        recovery_id < 4,
    ensures
        signed_with(st, *tx, hash@, rs@.push(recovery_id)),
{
    let mut r: [u8; 32] = [0u8; 32];
    let mut s: [u8; 32] = [0u8; 32];
    let mut i: usize = 0;
    while i < 32
        invariant
            i <= 32,
            forall|m: int| 0 <= m < i ==> r@[m] == rs@[m] && s@[m] == rs@[m + 32],
        decreases 32 - i,
    {
        r[i] = rs[i];
        s[i] = rs[i + 32];
        i += 1;
    }
    let ghost sig = rs@.push(recovery_id);
    assert(r@ =~= sig.subrange(0, 32));
    assert(s@ =~= sig.subrange(32, 64));
    let r = Uint256 { bytes: r };
    let s = Uint256 { bytes: s };
    let v: u128 = recovery_id as u128 + tx.chain_id as u128 * 2 + 35;
    let raw = tx.encode_signed(v, &r, &s);
    let transaction_hash = keccak256(raw.as_slice());
    SignedTransaction { message_hash: hash, v, r, s, raw, transaction_hash }
}

/// Signs a transaction with a private key given as raw bytes. Fails with
/// `SigningError` exactly when the bytes are not a valid private key;
/// otherwise the signature is the deterministic recoverable signature of the
/// transaction's signing digest.
pub fn sign(tx: &UnsignedTransaction, k: &[u8]) -> (r: Result<SignedTransaction, TransferError>)
    ensures
        r is Err <==> !valid_secret_key(k@),
        r is Err ==> r == Err::<SignedTransaction, TransferError>(TransferError::SigningError),
        r matches Ok(st) ==> signed_with(
            st,
            *tx,
            keccak_of(tx.signing_preimage()),
            recoverable_signature_of(keccak_of(tx.signing_preimage()), k@),
        ),
{
    if !crate::keys::secret_key_is_valid(k) {
        return Err(TransferError::SigningError);
    }
    let hash = tx.signing_hash();
    let (rs, recovery_id) = sign_recoverable(&hash, k);
    Ok(assemble_signed(tx, hash, &rs, recovery_id))
}

} // verus!
