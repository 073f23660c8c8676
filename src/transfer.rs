use vstd::prelude::*;
use crate::calldata::{encode_transfer, transfer_call_data};
use crate::error::TransferError;
use crate::hash::keccak_of;
use crate::keys::{valid_secret_key, Address};
use crate::signer::{recoverable_signature_of, sign, signed_with, SignedTransaction};
use crate::tx::{build, is_zero_address, UnsignedTransaction};
use crate::uint::{be_value, u256_limit, Uint256};

verus! {

/// Takes one token transfer from its inputs to a signed transaction: checks
/// the key, encodes the call, builds the transaction to the token contract and
/// signs it. The first failing stage decides the error: `InvalidKey`, then
/// `AmountOverflow`, then `InvalidField`.
pub fn prepare_transfer(
    key: &[u8],
    token: Address,
    recipient: &Address,
    amount: &[u8],
    nonce: u64,
    gas_price: Uint256,
    gas_limit: Uint256,
    chain_id: u64,
) -> (r: Result<(UnsignedTransaction, SignedTransaction), TransferError>)
    ensures
        !valid_secret_key(key@) ==> r == Err::<(UnsignedTransaction, SignedTransaction), TransferError>(
            TransferError::InvalidKey,
        ),
        valid_secret_key(key@) && be_value(amount@) >= u256_limit() ==> r == Err::<
            (UnsignedTransaction, SignedTransaction),
            TransferError,
        >(TransferError::AmountOverflow),
        valid_secret_key(key@) && be_value(amount@) < u256_limit() && (is_zero_address(token)
            || gas_limit.value() == 0) ==> r == Err::<
            (UnsignedTransaction, SignedTransaction),
            TransferError,
        >(TransferError::InvalidField),
        r is Ok <==> valid_secret_key(key@) && be_value(amount@) < u256_limit() && !is_zero_address(
            token,
        ) && gas_limit.value() > 0,
        r matches Ok(p) ==> {
            let tx = p.0;
            let hash = keccak_of(tx.signing_preimage());
            &&& tx.wf()
            &&& tx.nonce == nonce && tx.to == token && tx.gas_price == gas_price
            &&& tx.gas_limit == gas_limit && tx.chain_id == chain_id
            &&& tx.data@ == transfer_call_data(recipient.bytes@, be_value(amount@))
            &&& signed_with(p.1, tx, hash, recoverable_signature_of(hash, key@))
        },
{
    if !crate::keys::secret_key_is_valid(key) {
        return Err(TransferError::InvalidKey);
    }
    let data = match encode_transfer(recipient, amount) {
        Ok(d) => d,
        Err(e) => return Err(e),
    };
    let tx = match build(nonce, token, gas_price, gas_limit, data, chain_id) {
        Ok(t) => t,
        Err(e) => return Err(e),
    };
    match sign(&tx, key) {
        Ok(st) => Ok((tx, st)),
        Err(e) => Err(e),
    }
}

} // verus!
