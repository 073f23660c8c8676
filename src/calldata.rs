use vstd::prelude::*;
use crate::error::TransferError;
use crate::keys::Address;
use crate::uint::{
    be_fixed, be_value, lemma_be_fixed_of_value, lemma_be_value_of_fixed,
    u256_limit, zeros, Uint256,
};

verus! {

/// The selector of `transfer(address,uint256)`: the first four bytes of the
/// Keccak digest of that signature.
pub open spec fn transfer_selector() -> Seq<u8> {
    seq![0xa9u8, 0x05u8, 0x9cu8, 0xbbu8]
}

/// The call data of a token transfer: selector, the recipient left-padded to
/// 32 bytes, and the amount as a 32-byte big-endian integer.
pub open spec fn transfer_call_data(recipient: Seq<u8>, amount: nat) -> Seq<u8> {
    transfer_selector() + zeros(12) + recipient + be_fixed(amount, 32)
}

/// Whether `d` has the shape of transfer call data: 68 bytes, the transfer
/// selector, and twelve zero bytes of padding before the recipient.
pub open spec fn is_transfer_call(d: Seq<u8>) -> bool {
    &&& d.len() == 68
    &&& d.subrange(0, 4) == transfer_selector()
    &&& d.subrange(4, 16) == zeros(12)
}

/// The recipient slot of transfer call data, without its padding.
pub open spec fn call_recipient(d: Seq<u8>) -> Seq<u8> {
    d.subrange(16, 36)
}

/// The amount slot of transfer call data, read as a number.
pub open spec fn call_amount(d: Seq<u8>) -> nat {
    be_value(d.subrange(36, 68))
}

/// Encodes a call of `transfer(recipient, amount)`, the amount given as a
/// big-endian unsigned integer of any width. Fails with `AmountOverflow`
/// exactly when the amount does not fit in 256 bits; the recipient is not
/// examined.
pub fn encode_transfer(recipient: &Address, amount: &[u8]) -> (r: Result<Vec<u8>, TransferError>)
    ensures
        r is Err <==> be_value(amount@) >= u256_limit(),
        r is Err ==> r == Err::<Vec<u8>, TransferError>(TransferError::AmountOverflow),
        r matches Ok(d) ==> d@ == transfer_call_data(recipient.bytes@, be_value(amount@)),
        r matches Ok(d) ==> d@.len() == 68,
{
    let value = match Uint256::from_be_slice(amount) {
        Ok(v) => v,
        Err(e) => return Err(e),
    };
    let mut d: Vec<u8> = Vec::new();
    d.push(0xa9u8);
    d.push(0x05u8);
    d.push(0x9cu8);
    d.push(0xbbu8);
    let mut i: usize = 0;
    while i < 12
        invariant
            i <= 12,
            d@ =~= transfer_selector() + zeros(i as nat),
        decreases 12 - i,
    {
        d.push(0u8);
        i += 1;
    }
    let mut j: usize = 0;
    while j < 20
        invariant
            j <= 20,
            d@ =~= transfer_selector() + zeros(12) + recipient.bytes@.subrange(0, j as int),
        decreases 20 - j,
    {
        d.push(recipient.bytes[j]);
        j += 1;
    }
    let mut k: usize = 0;
    while k < 32
        invariant
            k <= 32,
            d@ =~= transfer_selector() + zeros(12) + recipient.bytes@ + value.bytes@.subrange(0, k as int),
        decreases 32 - k,
    {
        d.push(value.bytes[k]);
        k += 1;
    }
    proof {
        lemma_be_fixed_of_value(value.bytes@);
        assert(value.bytes@.subrange(0, 32) =~= value.bytes@);
    }
    Ok(d)
}

/// Reads transfer call data back: `Some` exactly when `d` has the shape of
/// transfer call data, with the recipient and the amount it carries.
pub fn decode_transfer(d: &[u8]) -> (r: Option<(Address, Uint256)>)
    ensures
        r is Some <==> is_transfer_call(d@),
        r matches Some(p) ==> p.0.bytes@ == call_recipient(d@) && p.1.value() == call_amount(d@)
            && p.1.bytes@ == d@.subrange(36, 68),
{
    if d.len() != 68 {
        return None;
    }
    if d[0] != 0xa9u8 || d[1] != 0x05u8 || d[2] != 0x9cu8 || d[3] != 0xbbu8 {
        proof {
            assert(d@.subrange(0, 4)[0] == d@[0] && d@.subrange(0, 4)[1] == d@[1]);
            assert(d@.subrange(0, 4)[2] == d@[2] && d@.subrange(0, 4)[3] == d@[3]);
        }
        return None;
    }
    assert(d@.subrange(0, 4) =~= transfer_selector());
    let mut i: usize = 4;
    while i < 16
        invariant
            4 <= i <= 16,
            d@.len() == 68,
            forall|j: int| 4 <= j < i ==> d@[j] == 0,
        decreases 16 - i,
    {
        if d[i] != 0 {
            assert(d@.subrange(4, 16)[i - 4] != zeros(12)[i - 4]);
            return None;
        }
        i += 1;
    }
    assert(d@.subrange(4, 16) =~= zeros(12));
    let mut recipient: [u8; 20] = [0u8; 20];
    let mut j: usize = 0;
    while j < 20
        invariant
            j <= 20,
            d@.len() == 68,
            forall|m: int| 0 <= m < j ==> recipient@[m] == d@[m + 16],
        decreases 20 - j,
    {
        recipient[j] = d[j + 16];
        j += 1;
    }
    let mut amount: [u8; 32] = [0u8; 32];
    let mut k: usize = 0;
    while k < 32
        invariant
            k <= 32,
            d@.len() == 68,
            forall|m: int| 0 <= m < k ==> amount@[m] == d@[m + 36],
        decreases 32 - k,
    {
        amount[k] = d[k + 36];
        k += 1;
    }
    assert(recipient@ =~= call_recipient(d@));
    assert(amount@ =~= d@.subrange(36, 68));
    Some((Address { bytes: recipient }, Uint256 { bytes: amount }))
}

/// Transfer call data is always 68 bytes long, whatever the amount: small
/// amounts are padded with zeros, never shortened.
pub proof fn lemma_transfer_call_length(recipient: Seq<u8>, amount: nat)
    requires
        recipient.len() == 20,
    ensures
        transfer_call_data(recipient, amount).len() == 68,
{
    lemma_be_fixed_len(amount, 32);
}

proof fn lemma_be_fixed_len(v: nat, n: nat)
    ensures
        be_fixed(v, n).len() == n,
    decreases n,
{
    if n > 0 {
        lemma_be_fixed_len(v / 256, (n - 1) as nat);
    }
}

/// Decoding the call data of a transfer gives back the selector, the
/// recipient and the amount that were encoded.
pub proof fn lemma_transfer_round_trip(recipient: Seq<u8>, amount: nat)
    requires
        recipient.len() == 20,
        amount < u256_limit(),
    ensures
        is_transfer_call(transfer_call_data(recipient, amount)),
        transfer_call_data(recipient, amount).subrange(0, 4) == transfer_selector(),
        call_recipient(transfer_call_data(recipient, amount)) == recipient,
        call_amount(transfer_call_data(recipient, amount)) == amount,
{
    let d = transfer_call_data(recipient, amount);
    lemma_be_value_of_fixed(amount, 32);
    assert(d.subrange(0, 4) =~= transfer_selector());
    assert(d.subrange(4, 16) =~= zeros(12));
    assert(d.subrange(16, 36) =~= recipient);
    assert(d.subrange(36, 68) =~= be_fixed(amount, 32));
}

} // verus!
