use vstd::prelude::*;
use crate::error::TransferError;

verus! {

/// `256^n`.
pub open spec fn pow256(n: nat) -> nat
    decreases n,
{
    if n == 0 {
        1
    } else {
        256 * pow256((n - 1) as nat)
    }
}

/// The number `2^256`, one past the largest 256-bit value.
pub open spec fn u256_limit() -> nat {
    pow256(32)
}

/// The unsigned integer that a byte sequence denotes, most significant byte first.
pub open spec fn be_value(s: Seq<u8>) -> nat
    decreases s.len(),
{
    if s.len() == 0 {
        0
    } else {
        be_value(s.drop_last()) * 256 + (s.last() as nat)
    }
}

/// The `n`-byte big-endian form of `v` (only the low `n` bytes of `v` are kept).
pub open spec fn be_fixed(v: nat, n: nat) -> Seq<u8>
    decreases n,
{
    if n == 0 {
        Seq::empty()
    } else {
        be_fixed(v / 256, (n - 1) as nat).push((v % 256) as u8)
    }
}

/// The shortest big-endian form of `v`: no leading zero byte, and empty for zero.
pub open spec fn be_minimal(v: nat) -> Seq<u8>
    decreases v,
{
    if v == 0 {
        Seq::empty()
    } else {
        be_minimal(v / 256).push((v % 256) as u8)
    }
}

/// `n` zero bytes.
pub open spec fn zeros(n: nat) -> Seq<u8> {
    Seq::new(n, |i: int| 0u8)
}

pub proof fn lemma_pow256_positive(n: nat)
    ensures
        pow256(n) > 0,
    decreases n,
{
    if n > 0 {
        lemma_pow256_positive((n - 1) as nat);
    }
}

pub proof fn lemma_pow256_monotonic(a: nat, b: nat)
    requires
        a <= b,
    ensures
        pow256(a) <= pow256(b),
    decreases b,
{
    if a < b {
        lemma_pow256_monotonic(a, (b - 1) as nat);
        lemma_pow256_positive((b - 1) as nat);
    }
}

/// A sequence of `n` bytes denotes a value below `256^n`.
pub proof fn lemma_be_value_bound(s: Seq<u8>)
    ensures
        be_value(s) < pow256(s.len()),
    decreases s.len(),
{
    if s.len() > 0 {
        lemma_be_value_bound(s.drop_last());
        let p = pow256((s.len() - 1) as nat);
        let w = be_value(s.drop_last());
        assert(w * 256 + (s.last() as nat) < p * 256) by (nonlinear_arith)
            requires
                w < p,
                s.last() < 256,
        ;
    }
}

/// A sequence whose first byte is not zero denotes at least `256^(n-1)`.
pub proof fn lemma_be_value_leading(s: Seq<u8>)
    requires
        s.len() > 0,
        s[0] != 0,
    ensures
        be_value(s) >= pow256((s.len() - 1) as nat),
    decreases s.len(),
{
    if s.len() > 1 {
        let t = s.drop_last();
        assert(t[0] == s[0]);
        lemma_be_value_leading(t);
        let p = pow256((t.len() - 1) as nat);
        let w = be_value(t);
        assert(w * 256 + (s.last() as nat) >= p * 256) by (nonlinear_arith)
            requires
                w >= p,
        ;
    }
}

/// Leading zero bytes do not change the value.
pub proof fn lemma_be_value_zeros_prefix(k: nat, s: Seq<u8>)
    ensures
        be_value(zeros(k) + s) == be_value(s),
    decreases s.len(), k,
{
    if s.len() == 0 {
        assert(zeros(k) + s =~= zeros(k));
        if k > 0 {
            assert(zeros(k).drop_last() =~= zeros((k - 1) as nat));
            lemma_be_value_zeros_prefix((k - 1) as nat, s);
            assert(zeros((k - 1) as nat) + s =~= zeros((k - 1) as nat));
        }
    } else {
        assert((zeros(k) + s).drop_last() =~= zeros(k) + s.drop_last());
        lemma_be_value_zeros_prefix(k, s.drop_last());
    }
}

/// The fixed-width form of what `s` denotes, at `s`'s own width, is `s`.
pub proof fn lemma_be_fixed_of_value(s: Seq<u8>)
    ensures
        be_fixed(be_value(s), s.len()) == s,
    decreases s.len(),
{
    if s.len() > 0 {
        let t = s.drop_last();
        lemma_be_fixed_of_value(t);
        let v = be_value(s);
        assert(v / 256 == be_value(t) && v % 256 == (s.last() as nat)) by (nonlinear_arith)
            requires
                v == be_value(t) * 256 + (s.last() as nat),
                s.last() < 256,
        ;
        assert(be_fixed(v, s.len()) =~= s);
    }
}

/// The fixed-width form of a value that fits denotes that value again.
pub proof fn lemma_be_value_of_fixed(v: nat, n: nat)
    requires
        v < pow256(n),
    ensures
        be_fixed(v, n).len() == n,
        be_value(be_fixed(v, n)) == v,
    decreases n,
{
    if n > 0 {
        let p = pow256((n - 1) as nat);
        assert(v / 256 < p && (v / 256) * 256 + v % 256 == v) by (nonlinear_arith)
            requires
                v < 256 * p,
        ;
        lemma_be_value_of_fixed(v / 256, (n - 1) as nat);
        let f = be_fixed(v, n);
        assert(f.drop_last() =~= be_fixed(v / 256, (n - 1) as nat));
    }
}

/// Without leading zero bytes, a sequence is the shortest form of what it denotes.
pub proof fn lemma_be_minimal_of_value(s: Seq<u8>)
    requires
        s.len() == 0 || s[0] != 0,
    ensures
        be_minimal(be_value(s)) == s,
    decreases s.len(),
{
    if s.len() > 0 {
        let t = s.drop_last();
        if t.len() > 0 {
            assert(t[0] == s[0]);
        }
        lemma_be_minimal_of_value(t);
        let v = be_value(s);
        let w = be_value(t);
        assert(v / 256 == w && v % 256 == (s.last() as nat)) by (nonlinear_arith)
            requires
                v == w * 256 + (s.last() as nat),
                s.last() < 256,
        ;
        if t.len() == 0 {
            assert(s.last() == s[0]);
        } else {
            assert(w != 0);
        }
        assert(v != 0);
        assert(be_minimal(v) =~= s);
    }
}

/// A value is zero exactly when all its bytes are zero.
pub proof fn lemma_be_value_zero(s: Seq<u8>)
    ensures
        be_value(s) == 0 <==> (forall|j: int| 0 <= j < s.len() ==> s[j] == 0),
    decreases s.len(),
{
    if s.len() > 0 {
        let t = s.drop_last();
        lemma_be_value_zero(t);
        if be_value(s) == 0 {
            assert forall|j: int| 0 <= j < s.len() implies s[j] == 0 by {
                if j < t.len() {
                    assert(t[j] == s[j]);
                }
            }
        }
        if forall|j: int| 0 <= j < s.len() ==> s[j] == 0 {
            assert forall|j: int| 0 <= j < t.len() implies t[j] == 0 by {
                assert(t[j] == s[j]);
            }
            assert(s.last() == s[s.len() - 1]);
        }
    }
}

/// `256^16` is `2^128`, so every `u128` fits in 16 bytes.
pub proof fn lemma_u128_fits()
    ensures
        pow256(16) == 0x1_0000_0000_0000_0000_0000_0000_0000_0000,
        pow256(32) > 0x1_0000_0000_0000_0000_0000_0000_0000_0000,
{
    reveal_with_fuel(pow256, 17);
    lemma_pow256_monotonic(17, 32);
}

/// The `n`-byte big-endian form of a `u128`.
fn be_fixed_u128(v: u128, n: usize) -> (r: Vec<u8>)
    ensures
        r@ == be_fixed(v as nat, n as nat),
    decreases n,
{
    if n == 0 {
        Vec::new()
    } else {
        let mut r = be_fixed_u128(v / 256, n - 1);
        r.push((v % 256) as u8);
        r
    }
}

/// The shortest big-endian form of a `u128`.
pub fn be_minimal_u128(v: u128) -> (r: Vec<u8>)
    ensures
        r@ == be_minimal(v as nat),
    decreases v,
{
    if v == 0 {
        Vec::new()
    } else {
        let mut r = be_minimal_u128(v / 256);
        r.push((v % 256) as u8);
        r
    }
}

/// The bytes of `src` from `start` on, right-aligned in a 32-byte buffer.
fn right_aligned(src: &[u8], start: usize) -> (r: [u8; 32])
    requires
        start <= src@.len(),
        src@.len() - start <= 32,
    ensures
        r@ == zeros((32 - (src@.len() - start)) as nat) + src@.subrange(start as int, src@.len() as int),
{
    let n: usize = src.len();
    let pad: usize = 32 - (n - start);
    let mut out: [u8; 32] = [0u8; 32];
    let mut i: usize = pad;
    while i < 32
        invariant
            pad <= i <= 32,
            pad == 32 - (src@.len() - start),
            start <= src@.len(),
            src@.len() - start <= 32,
            n == src@.len(),
            out@.len() == 32,
            forall|j: int| 0 <= j < pad ==> out@[j] == 0,
            forall|j: int| pad <= j < i ==> out@[j] == src@[j - pad + start],
        decreases 32 - i,
    {
        let off: usize = i - pad;
        let k: usize = start + off;
        out[i] = src[k];
        i += 1;
    }
    assert(out@ =~= zeros(pad as nat) + src@.subrange(start as int, src@.len() as int));
    out
}

/// The position of the first byte of `s` that is not zero (`s.len()` if none is).
fn first_nonzero(s: &[u8]) -> (r: usize)
    ensures
        r <= s@.len(),
        forall|j: int| 0 <= j < r ==> s@[j] == 0,
        r < s@.len() ==> s@[r as int] != 0,
{
    let mut i: usize = 0;
    while i < s.len() && s[i] == 0
        invariant
            i <= s@.len(),
            forall|j: int| 0 <= j < i ==> s@[j] == 0,
        decreases s@.len() - i,
    {
        i += 1;
    }
    i
}

/// An unsigned 256-bit integer, held as 32 bytes, most significant first.
#[derive(Debug, Clone, Copy, PartialEq, Eq)]
pub struct Uint256 {
    pub bytes: [u8; 32],
}

impl Uint256 {
    /// The number this value stands for.
    pub open spec fn value(&self) -> nat {
        be_value(self.bytes@)
    }

    pub fn zero() -> (r: Uint256)
        ensures
            r.value() == 0,
    {
        let r = Uint256 { bytes: [0u8; 32] };
        proof {
            lemma_be_value_zero(r.bytes@);
        }
        r
    }

    pub fn from_u128(v: u128) -> (r: Uint256)
        ensures
            r.value() == v as nat,
    {
        let f = be_fixed_u128(v, 32);
        proof {
            lemma_u128_fits();
            lemma_be_value_of_fixed(v as nat, 32);
        }
        let r = Uint256 { bytes: right_aligned(f.as_slice(), 0) };
        assert(r.bytes@ =~= f@);
        r
    }

    /// Reads a big-endian unsigned integer of any width. Fails with
    /// `AmountOverflow` exactly when the number is `2^256` or more.
    pub fn from_be_slice(b: &[u8]) -> (r: Result<Uint256, TransferError>)
        ensures
            r is Err <==> be_value(b@) >= u256_limit(),
            r is Err ==> r == Err::<Uint256, TransferError>(TransferError::AmountOverflow),
            r matches Ok(u) ==> u.value() == be_value(b@),
    {
        let i = first_nonzero(b);
        let ghost t = b@.subrange(i as int, b@.len() as int);
        proof {
            assert(b@ =~= zeros(i as nat) + t);
            lemma_be_value_zeros_prefix(i as nat, t);
        }
        if b.len() - i > 32 {
            proof {
                assert(t[0] == b@[i as int]);
                lemma_be_value_leading(t);
                lemma_pow256_monotonic(32, (t.len() - 1) as nat);
            }
            return Err(TransferError::AmountOverflow);
        }
        let out = right_aligned(b, i);
        proof {
            lemma_be_value_zeros_prefix((32 - t.len()) as nat, t);
            lemma_be_value_bound(out@);
        }
        Ok(Uint256 { bytes: out })
    }

    pub fn is_zero(&self) -> (r: bool)
        ensures
            r == (self.value() == 0),
    {
        let i = first_nonzero(&self.bytes);
        proof {
            lemma_be_value_zero(self.bytes@);
        }
        i == 32
    }

    /// The shortest big-endian form of the value: no leading zero byte.
    pub fn to_minimal_bytes(&self) -> (r: Vec<u8>)
        ensures
            r@ == be_minimal(self.value()),
    {
        let i = first_nonzero(&self.bytes);
        let ghost t = self.bytes@.subrange(i as int, 32);
        let mut r: Vec<u8> = Vec::new();
        let mut k: usize = i;
        while k < 32
            invariant
                i <= k <= 32,
                self.bytes@.len() == 32,
                r@ =~= self.bytes@.subrange(i as int, k as int),
            decreases 32 - k,
        {
            r.push(self.bytes[k]);
            k += 1;
        }
        proof {
            assert(self.bytes@ =~= zeros(i as nat) + t);
            lemma_be_value_zeros_prefix(i as nat, t);
            if t.len() > 0 {
                assert(t[0] == self.bytes@[i as int]);
            }
            lemma_be_minimal_of_value(t);
        }
        r
    }
}

} // verus!
