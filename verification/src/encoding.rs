//! Byte-exact column encodings: 128-bit values as 16 big-endian bytes.

use vstd::prelude::*;

verus! {

/// The number that a big-endian byte string denotes.
pub open spec fn be_value(s: Seq<u8>) -> nat
    decreases s.len(),
{
    if s.len() == 0 {
        0
    } else {
        be_value(s.drop_last()) * 256 + s.last() as nat
    }
}

/// The `n`-byte big-endian form of `v` (of `v` modulo `256^n` where `v` is larger).
pub open spec fn be_bytes(v: nat, n: nat) -> Seq<u8>
    decreases n,
{
    if n == 0 {
        Seq::empty()
    } else {
        be_bytes(v / 256, (n - 1) as nat).push((v % 256) as u8)
    }
}

/// Whether `v` can be written in `n` bytes.
pub open spec fn fits_in(v: nat, n: nat) -> bool
    decreases n,
{
    if n == 0 {
        v == 0
    } else {
        fits_in(v / 256, (n - 1) as nat)
    }
}

/// Bytewise order of two strings of one length: the first byte that differs decides.
pub open spec fn bytes_less(a: Seq<u8>, b: Seq<u8>) -> bool {
    exists|i: int| 0 <= i < a.len() && i < b.len() && a.take(i) == b.take(i) && a[i] < b[i]
}

/// The `n`-byte form has `n` bytes.
pub proof fn lemma_be_bytes_len(v: nat, n: nat)
    ensures
        be_bytes(v, n).len() == n,
    decreases n,
{
    if n > 0 {
        lemma_be_bytes_len(v / 256, (n - 1) as nat);
    }
}

/// Decoding what was encoded gives the number back.
pub proof fn lemma_value_of_bytes(v: nat, n: nat)
    requires
        fits_in(v, n),
    ensures
        be_value(be_bytes(v, n)) == v,
    decreases n,
{
    if n > 0 {
        lemma_value_of_bytes(v / 256, (n - 1) as nat);
        let s = be_bytes(v, n);
        assert(s.drop_last() == be_bytes(v / 256, (n - 1) as nat));
    }
}

/// Encoding what was decoded gives the bytes back.
pub proof fn lemma_bytes_of_value(s: Seq<u8>)
    ensures
        be_bytes(be_value(s), s.len()) == s,
        fits_in(be_value(s), s.len()),
    decreases s.len(),
{
    if s.len() > 0 {
        lemma_bytes_of_value(s.drop_last());
        let v = be_value(s);
        assert(v / 256 == be_value(s.drop_last()));
        assert(v % 256 == s.last() as nat);
        assert(be_bytes(v, s.len()) =~= s);
    }
}

/// Every 128-bit number can be written in 16 bytes.
pub proof fn lemma_u128_fits(v: u128)
    ensures
        fits_in(v as nat, 16),
{
    reveal_with_fuel(fits_in, 17);
}

/// `256^n`.
pub open spec fn pow256(n: nat) -> nat
    decreases n,
{
    if n == 0 {
        1
    } else {
        256 * pow256((n - 1) as nat)
    }
}

/// `256^16` is `2^128`.
pub proof fn lemma_pow256_16()
    ensures
        pow256(16) == 0x1_0000_0000_0000_0000_0000_0000_0000_0000,
{
    reveal_with_fuel(pow256, 17);
}

/// Two byte strings of one length are in bytewise order exactly if the
/// numbers they denote are in numeric order.
pub proof fn lemma_order_preserved(a: Seq<u8>, b: Seq<u8>)
    requires
        a.len() == b.len(),
    ensures
        bytes_less(a, b) <==> be_value(a) < be_value(b),
        a == b <==> be_value(a) == be_value(b),
    decreases a.len(),
{
    if a.len() == 0 {
        assert(a =~= b);
    } else {
        let a0 = a.drop_last();
        let b0 = b.drop_last();
        let n = a.len() as int;
        lemma_order_preserved(a0, b0);
        lemma_bytes_of_value(a);
        lemma_bytes_of_value(b);
        if bytes_less(a, b) {
            let i = choose|i: int|
                0 <= i < a.len() && i < b.len() && a.take(i) == b.take(i) && a[i] < b[i];
            if i < n - 1 {
                assert(a0.take(i) =~= a.take(i));
                assert(b0.take(i) =~= b.take(i));
                assert(a0[i] == a[i] && b0[i] == b[i]);
                assert(bytes_less(a0, b0));
            } else {
                assert(a0 =~= a.take(i));
                assert(b0 =~= b.take(i));
            }
        }
        if be_value(a) < be_value(b) {
            if be_value(a0) < be_value(b0) {
                let i = choose|i: int|
                    0 <= i < a0.len() && i < b0.len() && a0.take(i) == b0.take(i) && a0[i] < b0[i];
                assert(a.take(i) =~= a0.take(i));
                assert(b.take(i) =~= b0.take(i));
                assert(a[i] == a0[i] && b[i] == b0[i]);
            } else {
                assert(be_value(a0) == be_value(b0));
                assert(a0 == b0);
                assert(a.take(n - 1) =~= a0);
                assert(b.take(n - 1) =~= b0);
                assert(a[n - 1] < b[n - 1]);
            }
        }
    }
}

/// A 128-bit value encoded and decoded again is the value.
pub proof fn lemma_value_round_trip(v: u128)
    ensures
        be_bytes(v as nat, 16).len() == 16,
        be_value(be_bytes(v as nat, 16)) == v,
{
    lemma_be_bytes_len(v as nat, 16);
    lemma_u128_fits(v);
    lemma_value_of_bytes(v as nat, 16);
}

/// The encoded forms of two 128-bit values are in bytewise order exactly if
/// the values are in numeric order, and equal exactly if the values are.
pub proof fn lemma_values_ordered(x: u128, y: u128)
    ensures
        bytes_less(be_bytes(x as nat, 16), be_bytes(y as nat, 16)) <==> x < y,
        be_bytes(x as nat, 16) == be_bytes(y as nat, 16) <==> x == y,
{
    lemma_value_round_trip(x);
    lemma_value_round_trip(y);
    lemma_order_preserved(be_bytes(x as nat, 16), be_bytes(y as nat, 16));
}

/// Writes a 128-bit value as 16 big-endian bytes.
pub fn encode_value(v: u128) -> (out: Vec<u8>)
    ensures
        out@ == be_bytes(v as nat, 16),
        out@.len() == 16,
        be_value(out@) == v,
{
    let mut out: Vec<u8> = Vec::new();
    let mut k: usize = 0;
    let mut unit: u128 = 0x1_0000_0000_0000_0000_0000_0000_0000_00;
    proof {
        reveal_with_fuel(pow256, 17);
        assert(out@ =~= be_bytes((v as nat) / pow256(16), 0));
    }
    while k < 16
        invariant
            k <= 16,
            out@.len() == k,
            k < 16 ==> unit as nat == pow256((15 - k) as nat),
            out@ == be_bytes((v as nat) / pow256((16 - k) as nat), k as nat),
        decreases 16 - k,
    {
        proof {
            lemma_pow256_positive((15 - k) as nat);
        }
        let byte: u8 = ((v / unit) % 256) as u8;
        proof {
            let hi = (v as nat) / pow256((16 - k) as nat);
            let cur = (v as nat) / pow256((15 - k) as nat);
            lemma_div_step(v as nat, (15 - k) as nat);
            assert(cur / 256 == hi);
            assert(byte as nat == cur % 256);
            assert(be_bytes(cur, (k + 1) as nat) == be_bytes(cur / 256, k as nat).push(
                (cur % 256) as u8,
            ));
        }
        out.push(byte);
        k = k + 1;
        if k < 16 {
            proof {
                lemma_pow256_positive((15 - k) as nat);
                assert(pow256((16 - k) as nat) == 256 * pow256((15 - k) as nat));
            }
            unit = unit / 256;
        }
    }
    proof {
        assert(pow256(0) == 1);
        assert((v as nat) / 1 == v as nat);
        lemma_u128_fits(v);
        lemma_value_of_bytes(v as nat, 16);
    }
    out
}

/// Dividing by `256^k` and then by 256 divides by `256^(k+1)`.
proof fn lemma_div_step(v: nat, k: nat)
    ensures
        (v / pow256(k)) / 256 == v / pow256(k + 1),
{
    lemma_pow256_positive(k);
    let p = pow256(k);
    assert(pow256(k + 1) == 256 * p);
    vstd::arithmetic::div_mod::lemma_div_denominator(v as int, p as int, 256);
    assert(p * 256 == 256 * p) by (nonlinear_arith);
}

proof fn lemma_pow256_positive(k: nat)
    ensures
        pow256(k) > 0,
    decreases k,
{
    if k > 0 {
        lemma_pow256_positive((k - 1) as nat);
    }
}

/// Reads 16 big-endian bytes as a 128-bit value; any other length is refused.
pub fn decode_value(bytes: &[u8]) -> (out: Option<u128>)
    ensures
        bytes@.len() != 16 ==> out is None,
        bytes@.len() == 16 ==> out == Some(be_value(bytes@) as u128) && be_value(bytes@) <= u128::MAX,
{
    if bytes.len() != 16 {
        return None;
    }
    let mut acc: u128 = 0;
    let mut k: usize = 0;
    while k < 16
        invariant
            k <= 16,
            bytes@.len() == 16,
            acc as nat == be_value(bytes@.take(k as int)),
            (acc as nat) < pow256(k as nat),
        decreases 16 - k,
    {
        proof {
            reveal_with_fuel(pow256, 17);
            assert(bytes@.take(k + 1).drop_last() =~= bytes@.take(k as int));
            assert(bytes@.take(k + 1).last() == bytes@[k as int]);
        }
        acc = acc * 256 + bytes[k] as u128;
        k = k + 1;
    }
    proof {
        assert(bytes@.take(16) =~= bytes@);
        lemma_pow256_16();
    }
    Some(acc)
}

} // verus!
