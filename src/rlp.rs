use vstd::prelude::*;
use crate::uint::{be_minimal, be_minimal_u128, pow256, Uint256};

verus! {

/// The RLP prefix of an item of `len` payload bytes: one byte `offset + len`
/// for short payloads; for longer ones `offset + 55 + k`, then the length in
/// `k` big-endian bytes. `offset` is `0x80` for byte strings, `0xc0` for lists.
pub open spec fn rlp_header(offset: nat, len: nat) -> Seq<u8> {
    if len <= 55 {
        seq![(offset + len) as u8]
    } else {
        seq![(offset + 55 + be_minimal(len).len()) as u8] + be_minimal(len)
    }
}

/// The RLP encoding of a byte string: a single byte below `0x80` stands for
/// itself; anything else is prefixed with its length.
pub open spec fn rlp_string(s: Seq<u8>) -> Seq<u8> {
    if s.len() == 1 && s[0] < 0x80 {
        s
    } else {
        rlp_header(0x80, s.len()) + s
    }
}

/// The RLP encoding of an unsigned integer: the string of its shortest
/// big-endian form (zero is the empty string).
pub open spec fn rlp_uint(v: nat) -> Seq<u8> {
    rlp_string(be_minimal(v))
}

/// The RLP encoding of a list whose items, already encoded, concatenate to `payload`.
pub open spec fn rlp_list(payload: Seq<u8>) -> Seq<u8> {
    rlp_header(0xc0, payload.len()) + payload
}

proof fn lemma_be_minimal_len(v: nat, n: nat)
    requires
        v < pow256(n),
    ensures
        be_minimal(v).len() <= n,
    decreases v,
{
    if v > 0 {
        assert(n > 0);
        let p = pow256((n - 1) as nat);
        assert(v / 256 < p) by (nonlinear_arith)
            requires
                v < 256 * p,
        ;
        lemma_be_minimal_len(v / 256, (n - 1) as nat);
    }
}

/// Appends the RLP prefix of an item of `len` payload bytes.
fn push_header(out: &mut Vec<u8>, offset: u8, len: usize)
    requires
        offset == 0x80 || offset == 0xc0,
    ensures
        final(out)@ == old(out)@ + rlp_header(offset as nat, len as nat),
{
    if len <= 55 {
        out.push(offset + len as u8);
        assert(final(out)@ =~= old(out)@ + rlp_header(offset as nat, len as nat));
    } else {
        let mut digits = be_minimal_u128(len as u128);
        proof {
            reveal_with_fuel(pow256, 9);
            lemma_be_minimal_len(len as nat, 8);
        }
        out.push(offset + 55 + digits.len() as u8);
        out.append(&mut digits);
        assert(final(out)@ =~= old(out)@ + rlp_header(offset as nat, len as nat));
    }
}

/// Appends the RLP encoding of a byte string.
pub fn push_string(out: &mut Vec<u8>, s: &[u8])
    ensures
        final(out)@ == old(out)@ + rlp_string(s@),
{
    if s.len() == 1 && s[0] < 0x80 {
        out.push(s[0]);
        assert(final(out)@ =~= old(out)@ + rlp_string(s@));
    } else {
        push_header(out, 0x80, s.len());
        let ghost mid = out@;
        let mut i: usize = 0;
        while i < s.len()
            invariant
                i <= s@.len(),
                out@ =~= mid + s@.subrange(0, i as int),
            decreases s@.len() - i,
        {
            out.push(s[i]);
            i += 1;
        }
        assert(s@.subrange(0, s@.len() as int) =~= s@);
        assert(final(out)@ =~= old(out)@ + rlp_string(s@));
    }
}

/// Appends the RLP encoding of a 256-bit unsigned integer.
pub fn push_uint256(out: &mut Vec<u8>, v: &Uint256)
    ensures
        final(out)@ == old(out)@ + rlp_uint(v.value()),
{
    let m = v.to_minimal_bytes();
    push_string(out, m.as_slice());
}

/// Appends the RLP encoding of a `u128`.
pub fn push_u128(out: &mut Vec<u8>, v: u128)
    ensures
        final(out)@ == old(out)@ + rlp_uint(v as nat),
{
    let m = be_minimal_u128(v);
    push_string(out, m.as_slice());
}

/// Wraps the concatenated encodings of a list's items into the list's encoding.
pub fn wrap_list(payload: Vec<u8>) -> (r: Vec<u8>)
    ensures
        r@ == rlp_list(payload@),
{
    let mut out: Vec<u8> = Vec::new();
    push_header(&mut out, 0xc0, payload.len());
    let mut p = payload;
    out.append(&mut p);
    assert(out@ =~= rlp_list(payload@));
    out
}

} // verus!
