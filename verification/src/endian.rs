//! Fixed-width integer codec: interprets a buffer of 1 to 8 bytes as a
//! signed or unsigned integer under a chosen byte order, and produces such a
//! buffer from a value. Encoding and decoding are total: out-of-range values
//! are truncated to the low bytes, and narrow signed values are
//! sign-extended on decode.

use vstd::prelude::*;

verus! {

use vstd::arithmetic::power2::{pow2, lemma_pow2_adds, lemma_pow2_pos, lemma_pow2_strictly_increases, lemma2_to64, lemma2_to64_rest};
use vstd::arithmetic::div_mod::{lemma_small_mod, lemma_mod_breakdown, lemma_mod_mod, lemma_mod_multiples_vanish, lemma_div_denominator, lemma_div_basics, lemma_mod_bound};
use vstd::bits::lemma_u64_shl_is_mul;
use vstd::slice::slice_index_get;

/// Which end of a multi-byte buffer holds the most significant byte.
#[derive(Clone, Copy, PartialEq, Eq, Structural, Debug)]
pub enum ByteOrder {
    /// The first byte is the most significant.
    Big,
    /// The first byte is the least significant.
    Little,
}

/// The unsigned value of a buffer whose first byte is least significant.
pub open spec fn le_val(s: Seq<u8>) -> nat
    decreases s.len(),
{
    if s.len() == 0 {
        0
    } else {
        (s[0] as nat) + 256 * le_val(s.skip(1))
    }
}

/// The unsigned value of a buffer whose first byte is most significant.
pub open spec fn be_val(s: Seq<u8>) -> nat
    decreases s.len(),
{
    if s.len() == 0 {
        0
    } else {
        256 * be_val(s.drop_last()) + (s.last() as nat)
    }
}

/// The unsigned value of a buffer under the given byte order.
pub open spec fn uval(order: ByteOrder, s: Seq<u8>) -> nat {
    match order {
        ByteOrder::Big => be_val(s),
        ByteOrder::Little => le_val(s),
    }
}

/// The signed value of a buffer: its unsigned value, with the sign bit of
/// the most significant byte extended upward.
pub open spec fn sval(order: ByteOrder, s: Seq<u8>) -> int {
    let u = uval(order, s) as int;
    if s.len() == 0 {
        0
    } else if u < pow2((8 * s.len() - 1) as nat) {
        u
    } else {
        u - pow2(8 * s.len())
    }
}

/// The little-endian encoding of the low `n` bytes of `v`: byte `i` holds
/// bits `8i` up to `8i + 8`.
pub open spec fn le_enc(v: nat, n: nat) -> Seq<u8> {
    Seq::new(n, |i: int| ((v / pow2((8 * i) as nat)) % 256) as u8)
}

/// The `n`-byte encoding of the low `8n` bits of `v` under the given order.
pub open spec fn uenc(order: ByteOrder, v: nat, n: nat) -> Seq<u8> {
    match order {
        ByteOrder::Big => le_enc(v, n).reverse(),
        ByteOrder::Little => le_enc(v, n),
    }
}

/// The `n`-byte two's-complement encoding of `v` under the given order.
pub open spec fn senc(order: ByteOrder, v: int, n: nat) -> Seq<u8> {
    uenc(order, (v % (pow2(8 * n) as int)) as nat, n)
}

/// `pow2` is monotone.
proof fn lemma_pow2_le(e1: nat, e2: nat)
    requires
        e1 <= e2,
    ensures
        pow2(e1) <= pow2(e2),
{
    if e1 < e2 {
        lemma_pow2_strictly_increases(e1, e2);
    }
}

/// A buffer of `n` bytes holds a value below `2^(8n)`, read little-endian.
pub proof fn lemma_le_val_bound(s: Seq<u8>)
    ensures
        le_val(s) < pow2(8 * s.len()),
    decreases s.len(),
{
    lemma2_to64();
    if s.len() > 0 {
        lemma_le_val_bound(s.skip(1));
        lemma_pow2_adds(8, 8 * (s.len() - 1) as nat);
    }
}

/// A buffer of `n` bytes holds a value below `2^(8n)`, read big-endian.
pub proof fn lemma_be_val_bound(s: Seq<u8>)
    ensures
        be_val(s) < pow2(8 * s.len()),
    decreases s.len(),
{
    lemma2_to64();
    if s.len() > 0 {
        lemma_be_val_bound(s.drop_last());
        lemma_pow2_adds(8, 8 * (s.len() - 1) as nat);
    }
}

/// A buffer of `n` bytes holds a value below `2^(8n)` under either order.
pub proof fn lemma_uval_bound(order: ByteOrder, s: Seq<u8>)
    ensures
        uval(order, s) < pow2(8 * s.len()),
{
    match order {
        ByteOrder::Big => lemma_be_val_bound(s),
        ByteOrder::Little => lemma_le_val_bound(s),
    }
}

/// Reversing a buffer swaps its big- and little-endian readings.
pub proof fn lemma_be_val_reverse(s: Seq<u8>)
    ensures
        be_val(s.reverse()) == le_val(s),
    decreases s.len(),
{
    if s.len() == 0 {
        assert(s.reverse() =~= Seq::<u8>::empty());
    } else {
        lemma_be_val_reverse(s.skip(1));
        assert(s.reverse().drop_last() =~= s.skip(1).reverse());
        assert(s.reverse().last() == s[0]);
    }
}

/// The little-endian reading of the little-endian encoding of `v` is the low
/// `8n` bits of `v`.
pub proof fn lemma_le_val_le_enc(v: nat, n: nat)
    ensures
        le_val(le_enc(v, n)) == v % pow2(8 * n),
    decreases n,
{
    lemma2_to64();
    if n == 0 {
        assert(v % 1 == 0) by {
            lemma_small_mod(0, 1);
            lemma_mod_multiples_vanish(v as int, 0, 1);
        }
    } else {
        let s = le_enc(v, n);
        lemma_le_val_le_enc(v / 256, (n - 1) as nat);
        assert(s.skip(1) =~= le_enc(v / 256, (n - 1) as nat)) by {
            assert forall|i: int| 0 <= i < n - 1 implies s.skip(1)[i] == le_enc(
                v / 256,
                (n - 1) as nat,
            )[i] by {
                lemma_pow2_pos((8 * i) as nat);
                lemma_pow2_adds(8, (8 * i) as nat);
                lemma_div_denominator(v as int, 256, pow2((8 * i) as nat) as int);
            }
        }
        let p = pow2((8 * (n - 1)) as nat) as int;
        lemma_pow2_pos((8 * (n - 1)) as nat);
        lemma_mod_breakdown(v as int, 256, p);
        lemma_pow2_adds(8, (8 * (n - 1)) as nat);
        lemma_div_basics(v as int);
        assert(s[0] as nat == v % 256);
        assert(le_val(s) == (s[0] as nat) + 256 * le_val(s.skip(1)));
        assert(256 * p == pow2(8 * n));
        assert((v as int) % (256 * p) == 256 * (((v as int) / 256) % p) + (v as int) % 256);
    }
}

/// Decoding inverts encoding: the `n`-byte encoding of `v` decodes to
/// `v mod 2^(8n)`, for every width and either byte order.
pub proof fn lemma_uint_round_trip(order: ByteOrder, v: nat, n: nat)
    ensures
        uval(order, uenc(order, v, n)) == v % pow2(8 * n),
{
    lemma_le_val_le_enc(v, n);
    if order is Big {
        lemma_be_val_reverse(le_enc(v, n));
    }
}

/// Decoding inverts encoding exactly on values that fit in `n` bytes.
pub proof fn lemma_uint_round_trip_exact(order: ByteOrder, v: nat, n: nat)
    requires
        v < pow2(8 * n),
    ensures
        uval(order, uenc(order, v, n)) == v,
{
    lemma_uint_round_trip(order, v, n);
    lemma_small_mod(v, pow2(8 * n));
}

/// Signed decoding inverts signed encoding for every value: the result is
/// the low `8n` bits of `v`, sign-extended from the top transferred byte.
pub proof fn lemma_int_round_trip_truncated(order: ByteOrder, v: int, n: nat)
    requires
        1 <= n,
    ensures
        ({
            let m = pow2(8 * n) as int;
            let u = v % m;
            sval(order, senc(order, v, n)) == if u < pow2((8 * n - 1) as nat) {
                u
            } else {
                u - m
            }
        }),
{
    let m = pow2(8 * n) as int;
    lemma_pow2_pos(8 * n);
    lemma_mod_bound(v, m);
    let u = v % m;
    lemma_uint_round_trip_exact(order, u as nat, n);
    assert(senc(order, v, n).len() == n);
}

/// Signed decoding inverts signed encoding exactly on values that fit in `n`
/// bytes as two's complement, for every width and either byte order.
pub proof fn lemma_int_round_trip(order: ByteOrder, v: int, n: nat)
    requires
        1 <= n,
        -pow2((8 * n - 1) as nat) <= v < pow2((8 * n - 1) as nat),
    ensures
        sval(order, senc(order, v, n)) == v,
{
    lemma2_to64();
    lemma_pow2_pos(8 * n);
    lemma_pow2_pos((8 * n - 1) as nat);
    lemma_pow2_adds(1, (8 * n - 1) as nat);
    let m = pow2(8 * n) as int;
    let u = v % m;
    if v >= 0 {
        lemma_small_mod(v as nat, pow2(8 * n));
    } else {
        lemma_mod_multiples_vanish(1, v, m);
        lemma_small_mod((v + m) as nat, pow2(8 * n));
    }
    lemma_uint_round_trip_exact(order, u as nat, n);
    assert(senc(order, v, n).len() == n);
}

/// Reads an unsigned integer from a buffer of 1 to 8 bytes under the given
/// byte order. Total: never fails.
pub fn decode_uint(buf: &[u8], order: ByteOrder) -> (r: u64)
    requires
        1 <= buf@.len() <= 8,
    ensures
        r as nat == uval(order, buf@),
{
    proof {
        lemma2_to64();
        lemma2_to64_rest();
    }
    let n: usize = buf.len();
    match order {
        ByteOrder::Big => {
            let mut r: u64 = 0;
            let mut i: usize = 0;
            while i < n
                invariant
                    n == buf@.len(),
                    1 <= n <= 8,
                    0 <= i <= n,
                    r as nat == be_val(buf@.take(i as int)),
                decreases n - i,
            {
                proof {
                    lemma_be_val_bound(buf@.take(i as int));
                    lemma_pow2_le((8 * i) as nat, 56);
                    lemma2_to64_rest();
                    assert(buf@.take(i + 1).drop_last() =~= buf@.take(i as int));
                    assert(buf@.take(i + 1).last() == buf@[i as int]);
                }
                r = r * 256 + (*slice_index_get(buf, i) as u64);
                i = i + 1;
            }
            proof {
                assert(buf@.take(n as int) =~= buf@);
            }
            r
        },
        ByteOrder::Little => {
            let mut r: u64 = 0;
            let mut i: usize = n;
            while i > 0
                invariant
                    n == buf@.len(),
                    1 <= n <= 8,
                    0 <= i <= n,
                    r as nat == le_val(buf@.skip(i as int)),
                decreases i,
            {
                i = i - 1;
                proof {
                    lemma_le_val_bound(buf@.skip(i + 1));
                    lemma_pow2_le((8 * (n - i - 1)) as nat, 56);
                    lemma2_to64_rest();
                    assert(buf@.skip(i as int)[0] == buf@[i as int]);
                    assert(buf@.skip(i as int).skip(1) =~= buf@.skip(i + 1));
                }
                r = r * 256 + (*slice_index_get(buf, i) as u64);
            }
            proof {
                assert(buf@.skip(0) =~= buf@);
            }
            r
        },
    }
}

/// Reads a signed integer from a buffer of 1 to 8 bytes under the given byte
/// order, sign-extending from the most significant transferred byte. Total:
/// never fails.
pub fn decode_int(buf: &[u8], order: ByteOrder) -> (r: i64)
    requires
        1 <= buf@.len() <= 8,
    ensures
        r as int == sval(order, buf@),
{
    let u: u64 = decode_uint(buf, order);
    let n: usize = buf.len();
    proof {
        lemma_uval_bound(order, buf@);
        lemma2_to64();
        lemma2_to64_rest();
    }
    if n == 8 {
        if u < 0x8000_0000_0000_0000u64 {
            u as i64
        } else {
            ((u - 0x8000_0000_0000_0000u64) as i64) + i64::MIN
        }
    } else {
        let bits: u64 = 8 * (n as u64);
        let half: u64 = 1u64 << (bits - 1);
        let full: u64 = 1u64 << bits;
        proof {
            lemma_pow2_le((bits - 1) as nat, 55);
            lemma_pow2_le(bits as nat, 56);
            lemma_u64_shl_is_mul(1, (bits - 1) as u64);
            lemma_u64_shl_is_mul(1, bits);
        }
        if u < half {
            u as i64
        } else {
            (u as i64) - (full as i64)
        }
    }
}

/// Writes the low `nbytes` bytes of an unsigned integer under the given byte
/// order. Values outside the representable range are truncated, not
/// rejected. Total: never fails.
pub fn encode_uint(v: u64, nbytes: usize, order: ByteOrder) -> (buf: Vec<u8>)
    requires
        1 <= nbytes <= 8,
    ensures
        buf@ == uenc(order, v as nat, nbytes as nat),
        buf@.len() == nbytes,
{
    let mut out: Vec<u8> = Vec::new();
    let mut x: u64 = v;
    let mut i: usize = 0;
    proof {
        lemma2_to64();
        lemma_div_basics(v as int);
        assert(out@ =~= le_enc(v as nat, 0));
    }
    while i < nbytes
        invariant
            0 <= i <= nbytes <= 8,
            out@ == le_enc(v as nat, i as nat),
            out@.len() == i,
            x as nat == (v as nat) / pow2((8 * i) as nat),
        decreases nbytes - i,
    {
        proof {
            lemma2_to64();
            lemma_pow2_pos((8 * i) as nat);
            lemma_pow2_adds((8 * i) as nat, 8);
            lemma_div_denominator(v as int, pow2((8 * i) as nat) as int, 256);
        }
        out.push((x % 256) as u8);
        x = x / 256;
        i = i + 1;
        proof {
            assert(out@ =~= le_enc(v as nat, i as nat));
        }
    }
    match order {
        ByteOrder::Little => out,
        ByteOrder::Big => {
            let mut rev: Vec<u8> = Vec::new();
            let mut j: usize = nbytes;
            while j > 0
                invariant
                    out@.len() == nbytes,
                    0 <= j <= nbytes,
                    rev@.len() == nbytes - j,
                    forall|k: int| 0 <= k < rev@.len() ==> rev@[k] == out@[nbytes - 1 - k],
                decreases j,
            {
                j = j - 1;
                let b: u8 = out[j];
                rev.push(b);
            }
            proof {
                assert(rev@ =~= out@.reverse());
            }
            rev
        },
    }
}

/// Writes the low `nbytes` bytes of a signed integer's two's complement
/// under the given byte order. Values outside the representable range are
/// truncated, not rejected. Total: never fails.
pub fn encode_int(v: i64, nbytes: usize, order: ByteOrder) -> (buf: Vec<u8>)
    requires
        1 <= nbytes <= 8,
    ensures
        buf@ == senc(order, v as int, nbytes as nat),
        buf@.len() == nbytes,
{
    proof {
        lemma2_to64();
        lemma2_to64_rest();
    }
    let u: u64 = if v >= 0 {
        v as u64
    } else {
        u64::MAX - ((-(v + 1)) as u64)
    };
    proof {
        if v >= 0 {
            lemma_small_mod(v as nat, pow2(64));
        } else {
            lemma_mod_multiples_vanish(1, v as int, pow2(64) as int);
            lemma_small_mod((v + pow2(64)) as nat, pow2(64));
        }
        assert(u as int == (v as int) % (pow2(64) as int));
    }
    let low: u64 = if nbytes == 8 {
        u
    } else {
        let bits: u64 = 8 * (nbytes as u64);
        let full: u64 = 1u64 << bits;
        proof {
            lemma_pow2_le(bits as nat, 56);
            lemma_u64_shl_is_mul(1, bits);
        }
        u % full
    };
    proof {
        if nbytes < 8 {
            lemma_pow2_pos((8 * nbytes) as nat);
            lemma_pow2_pos((64 - 8 * nbytes) as nat);
            lemma_pow2_adds((8 * nbytes) as nat, (64 - 8 * nbytes) as nat);
            lemma_mod_mod(v as int, pow2((8 * nbytes) as nat) as int, pow2((64 - 8 * nbytes) as nat) as int);
        }
        assert(low as int == (v as int) % (pow2(8 * nbytes as nat) as int));
    }
    encode_uint(low, nbytes, order)
}

} // verus!
