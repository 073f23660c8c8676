use vstd::prelude::*;
use crate::error::TransferError;
use crate::hash::{keccak256, keccak_of};
use crate::keys::Address;
use crate::rlp::{push_string, push_u128, push_uint256, rlp_list, rlp_string, rlp_uint, wrap_list};
use crate::uint::Uint256;

verus! {

/// A legacy transaction before signing.
#[derive(Debug, Clone, PartialEq, Eq)]
pub struct UnsignedTransaction {
    pub nonce: u64,
    pub gas_price: Uint256,
    pub gas_limit: Uint256,
    /// The contract called (for a token transfer, the token contract).
    pub to: Address,
    /// Native currency sent along; zero for a token transfer.
    pub value: Uint256,
    pub data: Vec<u8>,
    pub chain_id: u64,
}

/// Whether an address is the all-zero address.
pub open spec fn is_zero_address(a: Address) -> bool {
    forall|i: int| 0 <= i < 20 ==> a.bytes@[i] == 0
}

impl UnsignedTransaction {
    /// What `build` guarantees: a non-zero target, a positive gas limit, and no
    /// native currency moved.
    pub open spec fn wf(&self) -> bool {
        &&& !is_zero_address(self.to)
        &&& self.gas_limit.value() > 0
        &&& self.value.value() == 0
    }

    /// The RLP-encoded fields that every form of the transaction starts with:
    /// nonce, gas price, gas limit, target, value, data.
    pub open spec fn common_fields(&self) -> Seq<u8> {
        rlp_uint(self.nonce as nat) + rlp_uint(self.gas_price.value()) + rlp_uint(
            self.gas_limit.value(),
        ) + rlp_string(self.to.bytes@) + rlp_uint(self.value.value()) + rlp_string(self.data@)
    }

    /// The bytes that are hashed and signed:
    /// `[nonce, gas_price, gas_limit, to, value, data, chain_id, 0, 0]`.
    pub open spec fn signing_preimage(&self) -> Seq<u8> {
        rlp_list(self.common_fields() + rlp_uint(self.chain_id as nat) + rlp_uint(0) + rlp_uint(0))
    }

    fn push_common_fields(&self, out: &mut Vec<u8>)
        ensures
            final(out)@ == old(out)@ + self.common_fields(),
    {
        push_u128(out, self.nonce as u128);
        push_uint256(out, &self.gas_price);
        push_uint256(out, &self.gas_limit);
        push_string(out, &self.to.bytes);
        push_uint256(out, &self.value);
        push_string(out, self.data.as_slice());
        assert(final(out)@ =~= old(out)@ + self.common_fields());
    }

    /// The encoding that the signature covers.
    pub fn encode_for_signing(&self) -> (r: Vec<u8>)
        ensures
            r@ == self.signing_preimage(),
    {
        let mut payload: Vec<u8> = Vec::new();
        self.push_common_fields(&mut payload);
        push_u128(&mut payload, self.chain_id as u128);
        push_u128(&mut payload, 0);
        push_u128(&mut payload, 0);
        assert(payload@ =~= self.common_fields() + rlp_uint(self.chain_id as nat) + rlp_uint(0)
            + rlp_uint(0));
        wrap_list(payload)
    }

    /// The digest that is signed.
    pub fn signing_hash(&self) -> (r: [u8; 32])
        ensures
            r@ == keccak_of(self.signing_preimage()),
    {
        let pre = self.encode_for_signing();
        keccak256(pre.as_slice())
    }

    /// The signed encoding: `[nonce, gas_price, gas_limit, to, value, data, v, r, s]`.
    pub open spec fn signed_encoding(&self, v: nat, r: nat, s: nat) -> Seq<u8> {
        rlp_list(self.common_fields() + rlp_uint(v) + rlp_uint(r) + rlp_uint(s))
    }

    /// Builds the signed encoding from the signature's parts.
    pub fn encode_signed(&self, v: u128, r: &Uint256, s: &Uint256) -> (out: Vec<u8>)
        ensures
            out@ == self.signed_encoding(v as nat, r.value(), s.value()),
    {
        let mut payload: Vec<u8> = Vec::new();
        self.push_common_fields(&mut payload);
        push_u128(&mut payload, v);
        push_uint256(&mut payload, r);
        push_uint256(&mut payload, s);
        assert(payload@ =~= self.common_fields() + rlp_uint(v as nat) + rlp_uint(r.value())
            + rlp_uint(s.value()));
        wrap_list(payload)
    }
}

/// Assembles a token-transfer transaction. Fails with `InvalidField` exactly
/// when the target contract is the zero address or the gas limit is zero.
/// The value sent is always zero.
pub fn build(
    nonce: u64,
    to: Address,
    gas_price: Uint256,
    gas_limit: Uint256,
    data: Vec<u8>,
    chain_id: u64,
) -> (r: Result<UnsignedTransaction, TransferError>)
    ensures
        r is Err <==> is_zero_address(to) || gas_limit.value() == 0,
        r is Err ==> r == Err::<UnsignedTransaction, TransferError>(TransferError::InvalidField),
        r matches Ok(tx) ==> tx.wf() && tx.nonce == nonce && tx.to == to && tx.gas_price
            == gas_price && tx.gas_limit == gas_limit && tx.data@ == data@ && tx.chain_id
            == chain_id,
{
    if to.is_zero() || gas_limit.is_zero() {
        return Err(TransferError::InvalidField);
    }
    Ok(UnsignedTransaction { nonce, gas_price, gas_limit, to, value: Uint256::zero(), data, chain_id })
}

} // verus!
