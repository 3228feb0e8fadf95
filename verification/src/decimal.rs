//! Decimal mantissa encoding.
//!
//! A SQL decimal arrives as a signed 128-bit mantissa already scaled to the
//! column's scale. Parquet stores it as a two's-complement big-endian byte
//! string, right-aligned in a fixed slot of `decimal_byte_length(precision)`
//! bytes. This module computes that length, encodes mantissas, and proves
//! that decoding gives the mantissa back.

use vstd::prelude::*;

use vstd::arithmetic::div_mod::{
    lemma_div_denominator, lemma_div_is_ordered, lemma_div_multiples_vanish,
    lemma_fundamental_div_mod, lemma_fundamental_div_mod_converse, lemma_hoist_over_denominator,
    lemma_mod_bound, lemma_mod_breakdown, lemma_mod_multiples_vanish, lemma_small_mod,
};
use vstd::arithmetic::mul::lemma_mul_inequality;
use vstd::arithmetic::power::{
    lemma_pow0, lemma_pow1, lemma_pow_adds, lemma_pow_increases, lemma_pow_positive, pow,
};

verus! {

/// The byte width of the fixed-length slot for a decimal of the given
/// precision: `ceil((precision * log2(10) + 1) / 8)`, one sign bit included.
/// `log2(10)` is taken at fifteen decimal digits, far closer than the
/// distance from any `precision * log2(10) + 1` to a multiple of eight.
pub open spec fn spec_decimal_byte_length(precision: int) -> int {
    (precision * 3321928094887362 + 8999999999999999) / 8000000000000000
}

/// The unsigned big-endian value of a byte string.
pub open spec fn be_unsigned(s: Seq<u8>) -> int
    decreases s.len(),
{
    if s.len() == 0 {
        0
    } else {
        be_unsigned(s.drop_last()) * 256 + s.last()
    }
}

/// The two's-complement big-endian value of a byte string: the unsigned
/// value, shifted down by `256^len` when the sign bit of the first byte is
/// set.
pub open spec fn be_signed(s: Seq<u8>) -> int {
    if s.len() > 0 && s[0] >= 128 {
        be_unsigned(s) - pow(256, s.len())
    } else {
        be_unsigned(s)
    }
}

/// The 128-bit two's-complement representative of a mantissa: `m` itself
/// when non-negative, else `m + 256^16`.
pub open spec fn mantissa_rep(m: int) -> int {
    if m >= 0 {
        m
    } else {
        m + pow(256, 16)
    }
}

/// The encoded byte string of mantissa `m` in a slot of `len` bytes: the
/// base-256 digits of its two's-complement representative, most significant
/// first.
pub open spec fn spec_encode_decimal(m: int, len: nat) -> Seq<u8> {
    Seq::new(len, |i: int| (mantissa_rep(m) / pow(256, (len - 1 - i) as nat) % 256) as u8)
}

/// Ground values of the powers these proofs lean on.
#[verifier::spinoff_prover]
proof fn lemma_pow_table()
    ensures
        pow(256, 1) == 0x100,
        pow(256, 2) == 0x10000,
        pow(256, 3) == 0x1000000,
        pow(256, 4) == 0x100000000,
        pow(256, 5) == 0x10000000000,
        pow(256, 6) == 0x1000000000000,
        pow(256, 7) == 0x100000000000000,
        pow(256, 8) == 0x10000000000000000,
        pow(256, 9) == 0x1000000000000000000,
        pow(256, 10) == 0x100000000000000000000,
        pow(256, 11) == 0x10000000000000000000000,
        pow(256, 12) == 0x1000000000000000000000000,
        pow(256, 13) == 0x100000000000000000000000000,
        pow(256, 14) == 0x10000000000000000000000000000,
        pow(256, 15) == 0x1000000000000000000000000000000,
        pow(256, 16) == 0x100000000000000000000000000000000,
        pow(10, 2) == 100,
        pow(10, 4) == 10000,
        pow(10, 6) == 1000000,
        pow(10, 9) == 1000000000,
        pow(10, 11) == 100000000000,
        pow(10, 14) == 100000000000000,
        pow(10, 16) == 10000000000000000,
        pow(10, 18) == 1000000000000000000,
        pow(10, 21) == 1000000000000000000000,
        pow(10, 23) == 100000000000000000000000,
        pow(10, 26) == 100000000000000000000000000,
        pow(10, 28) == 10000000000000000000000000000,
        pow(10, 31) == 10000000000000000000000000000000,
        pow(10, 33) == 1000000000000000000000000000000000,
        pow(10, 35) == 100000000000000000000000000000000000,
        pow(10, 38) == 100000000000000000000000000000000000000,
{
    reveal(pow);
    lemma_pow0(256);
    lemma_pow0(10);
    assert(pow(256, 1) == 256 * pow(256, 0));
    assert(pow(256, 2) == 256 * pow(256, 1));
    assert(pow(256, 3) == 256 * pow(256, 2));
    assert(pow(256, 4) == 256 * pow(256, 3));
    assert(pow(256, 5) == 256 * pow(256, 4));
    assert(pow(256, 6) == 256 * pow(256, 5));
    assert(pow(256, 7) == 256 * pow(256, 6));
    assert(pow(256, 8) == 256 * pow(256, 7));
    assert(pow(256, 9) == 256 * pow(256, 8));
    assert(pow(256, 10) == 256 * pow(256, 9));
    assert(pow(256, 11) == 256 * pow(256, 10));
    assert(pow(256, 12) == 256 * pow(256, 11));
    assert(pow(256, 13) == 256 * pow(256, 12));
    assert(pow(256, 14) == 256 * pow(256, 13));
    assert(pow(256, 15) == 256 * pow(256, 14));
    assert(pow(256, 16) == 256 * pow(256, 15));
    assert(pow(10, 1) == 10 * pow(10, 0));
    assert(pow(10, 2) == 10 * pow(10, 1));
    assert(pow(10, 3) == 10 * pow(10, 2));
    assert(pow(10, 4) == 10 * pow(10, 3));
    assert(pow(10, 5) == 10 * pow(10, 4));
    assert(pow(10, 6) == 10 * pow(10, 5));
    assert(pow(10, 7) == 10 * pow(10, 6));
    assert(pow(10, 8) == 10 * pow(10, 7));
    assert(pow(10, 9) == 10 * pow(10, 8));
    assert(pow(10, 10) == 10 * pow(10, 9));
    assert(pow(10, 11) == 10 * pow(10, 10));
    assert(pow(10, 12) == 10 * pow(10, 11));
    assert(pow(10, 13) == 10 * pow(10, 12));
    assert(pow(10, 14) == 10 * pow(10, 13));
    assert(pow(10, 15) == 10 * pow(10, 14));
    assert(pow(10, 16) == 10 * pow(10, 15));
    assert(pow(10, 17) == 10 * pow(10, 16));
    assert(pow(10, 18) == 10 * pow(10, 17));
    assert(pow(10, 19) == 10 * pow(10, 18));
    assert(pow(10, 20) == 10 * pow(10, 19));
    assert(pow(10, 21) == 10 * pow(10, 20));
    assert(pow(10, 22) == 10 * pow(10, 21));
    assert(pow(10, 23) == 10 * pow(10, 22));
    assert(pow(10, 24) == 10 * pow(10, 23));
    assert(pow(10, 25) == 10 * pow(10, 24));
    assert(pow(10, 26) == 10 * pow(10, 25));
    assert(pow(10, 27) == 10 * pow(10, 26));
    assert(pow(10, 28) == 10 * pow(10, 27));
    assert(pow(10, 29) == 10 * pow(10, 28));
    assert(pow(10, 30) == 10 * pow(10, 29));
    assert(pow(10, 31) == 10 * pow(10, 30));
    assert(pow(10, 32) == 10 * pow(10, 31));
    assert(pow(10, 33) == 10 * pow(10, 32));
    assert(pow(10, 34) == 10 * pow(10, 33));
    assert(pow(10, 35) == 10 * pow(10, 34));
    assert(pow(10, 36) == 10 * pow(10, 35));
    assert(pow(10, 37) == 10 * pow(10, 36));
    assert(pow(10, 38) == 10 * pow(10, 37));
}

/// Computes [`spec_decimal_byte_length`]. The slot is between 1 and 16
/// bytes for every SQL precision.
pub fn decimal_byte_length(precision: u32) -> (r: usize)
    requires
        precision <= 38,
    ensures
        r == spec_decimal_byte_length(precision as int),
        1 <= r <= 16,
{
    let n: u64 = (precision as u64) * 3321928094887362 + 8999999999999999;
    let r: u64 = n / 8000000000000000;
    r as usize
}

/// Computes `10^e` exactly.
pub fn pow10_i128(e: u32) -> (r: i128)
    requires
        e <= 38,
    ensures
        r == pow(10, e as nat),
{
    proof {
        lemma_pow_table();
    }
    let mut acc: i128 = 1;
    let mut i: u32 = 0;
    proof {
        lemma_pow0(10);
    }
    while i < e
        invariant
            i <= e <= 38,
            acc == pow(10, i as nat),
        decreases e - i,
    {
        proof {
            lemma_pow_table();
            lemma_pow_positive(10, i as nat);
            lemma_pow_increases(10, (i + 1) as nat, 38);
            lemma_pow_adds(10, i as nat, 1nat);
            lemma_pow1(10);
            assert(pow(10, (i + 1) as nat) == acc * 10);
        }
        acc = acc * 10;
        i = i + 1;
    }
    acc
}

/// Every byte string's unsigned value lies below `256^len`.
pub proof fn lemma_be_unsigned_bounds(s: Seq<u8>)
    ensures
        0 <= be_unsigned(s) < pow(256, s.len()),
    decreases s.len(),
{
    if s.len() == 0 {
        lemma_pow0(256);
    } else {
        let dl = s.drop_last();
        let p1 = pow(256, (s.len() - 1) as nat);
        lemma_be_unsigned_bounds(dl);
        lemma_pow_adds(256, (s.len() - 1) as nat, 1nat);
        lemma_pow1(256);
        assert(pow(256, s.len()) == p1 * 256);
        assert(be_unsigned(s) == be_unsigned(dl) * 256 + s.last());
        lemma_mul_inequality(be_unsigned(dl) + 1, p1, 256);
        assert((be_unsigned(dl) + 1) * 256 <= p1 * 256);
    }
}

/// The unsigned value is bracketed by its most significant byte.
pub proof fn lemma_be_unsigned_top_byte(s: Seq<u8>)
    requires
        s.len() >= 1,
    ensures
        s[0] * pow(256, (s.len() - 1) as nat) <= be_unsigned(s) < (s[0] + 1) * pow(
            256,
            (s.len() - 1) as nat,
        ),
    decreases s.len(),
{
    if s.len() == 1 {
        lemma_pow0(256);
        assert(be_unsigned(s) == be_unsigned(s.drop_last()) * 256 + s.last());
        assert(be_unsigned(s.drop_last()) == 0);
        assert(s.last() == s[0]);
    } else {
        let t = s.drop_last();
        lemma_be_unsigned_top_byte(t);
        assert(t[0] == s[0]);
        lemma_pow_adds(256, (s.len() - 2) as nat, 1nat);
        lemma_pow1(256);
        let p = pow(256, (s.len() - 2) as nat);
        lemma_pow_positive(256, (s.len() - 2) as nat);
        assert(pow(256, (s.len() - 1) as nat) == p * 256);
        assert(be_unsigned(s) == be_unsigned(t) * 256 + s.last());
        // lower bound: be(s) >= (s[0] * p) * 256
        lemma_mul_inequality(s[0] * p, be_unsigned(t), 256);
        assert(s[0] * (p * 256) == (s[0] * p) * 256) by {
            vstd::arithmetic::mul::lemma_mul_is_associative(s[0] as int, p, 256);
        }
        // upper bound: be(t) <= (s[0] + 1) * p - 1
        lemma_mul_inequality(be_unsigned(t), (s[0] + 1) * p - 1, 256);
        assert((s[0] + 1) * (p * 256) == ((s[0] + 1) * p) * 256) by {
            vstd::arithmetic::mul::lemma_mul_is_associative(s[0] + 1, p, 256);
        }
    }
}

/// A byte string whose entries are the base-256 digits of `u`, most
/// significant first, has unsigned value `u % 256^len`.
#[verifier::spinoff_prover]
proof fn lemma_be_unsigned_of_digits(u: int, s: Seq<u8>)
    requires
        u >= 0,
        forall|i: int|
            0 <= i < s.len() ==> s[i] == (u / pow(256, (s.len() - 1 - i) as nat) % 256) as u8,
    ensures
        be_unsigned(s) == u % pow(256, s.len()),
    decreases s.len(),
{
    lemma_pow_positive(256, s.len());
    if s.len() == 0 {
        lemma_pow0(256);
        lemma_small_mod(0, 1);
        lemma_mod_multiples_vanish(u, 0, 1);
    } else {
        let len = s.len();
        let t = s.drop_last();
        let u1 = u / 256;
        assert(u1 >= 0) by {
            lemma_div_is_ordered(0, u, 256);
        }
        assert forall|i: int| 0 <= i < t.len() implies t[i] == (u1 / pow(
            256,
            (t.len() - 1 - i) as nat,
        ) % 256) as u8 by {
            let e = (len - 1 - i) as nat;
            lemma_pow_positive(256, (e - 1) as nat);
            lemma_div_denominator(u, 256, pow(256, (e - 1) as nat));
            lemma_pow_adds(256, 1nat, (e - 1) as nat);
            lemma_pow1(256);
            assert(u1 / pow(256, (e - 1) as nat) == u / pow(256, e));
            assert(s[i] == (u / pow(256, e) % 256) as u8);
        }
        lemma_be_unsigned_of_digits(u1, t);
        assert(s.last() == (u / pow(256, 0nat) % 256) as u8);
        lemma_pow0(256);
        lemma_div_multiples_vanish(u, 1);
        lemma_pow_positive(256, (len - 1) as nat);
        lemma_mod_breakdown(u, 256, pow(256, (len - 1) as nat));
        lemma_pow_adds(256, 1nat, (len - 1) as nat);
        lemma_pow1(256);
        assert(be_unsigned(s) == be_unsigned(t) * 256 + s.last());
    }
}

/// For every SQL precision the fixed slot is wide enough: twice `10^p`
/// fits under `256^len`, which reserves the sign bit, and the slot stays
/// within the sixteen bytes of the mantissa.
#[verifier::spinoff_prover]
pub proof fn lemma_byte_length_fits(precision: int)
    requires
        0 <= precision <= 38,
    ensures
        1 <= spec_decimal_byte_length(precision) <= 16,
        2 * pow(10, precision as nat) <= pow(256, spec_decimal_byte_length(precision) as nat),
{
    lemma_pow_table();
    let p = precision;
    if p <= 2 {
        assert(spec_decimal_byte_length(p) == 1);
        lemma_pow_increases(10, p as nat, 2);
    } else if p <= 4 {
        assert(spec_decimal_byte_length(p) == 2);
        lemma_pow_increases(10, p as nat, 4);
    } else if p <= 6 {
        assert(spec_decimal_byte_length(p) == 3);
        lemma_pow_increases(10, p as nat, 6);
    } else if p <= 9 {
        assert(spec_decimal_byte_length(p) == 4);
        lemma_pow_increases(10, p as nat, 9);
    } else if p <= 11 {
        assert(spec_decimal_byte_length(p) == 5);
        lemma_pow_increases(10, p as nat, 11);
    } else if p <= 14 {
        assert(spec_decimal_byte_length(p) == 6);
        lemma_pow_increases(10, p as nat, 14);
    } else if p <= 16 {
        assert(spec_decimal_byte_length(p) == 7);
        lemma_pow_increases(10, p as nat, 16);
    } else if p <= 18 {
        assert(spec_decimal_byte_length(p) == 8);
        lemma_pow_increases(10, p as nat, 18);
    } else if p <= 21 {
        assert(spec_decimal_byte_length(p) == 9);
        lemma_pow_increases(10, p as nat, 21);
    } else if p <= 23 {
        assert(spec_decimal_byte_length(p) == 10);
        lemma_pow_increases(10, p as nat, 23);
    } else if p <= 26 {
        assert(spec_decimal_byte_length(p) == 11);
        lemma_pow_increases(10, p as nat, 26);
    } else if p <= 28 {
        assert(spec_decimal_byte_length(p) == 12);
        lemma_pow_increases(10, p as nat, 28);
    } else if p <= 31 {
        assert(spec_decimal_byte_length(p) == 13);
        lemma_pow_increases(10, p as nat, 31);
    } else if p <= 33 {
        assert(spec_decimal_byte_length(p) == 14);
        lemma_pow_increases(10, p as nat, 33);
    } else if p <= 35 {
        assert(spec_decimal_byte_length(p) == 15);
        lemma_pow_increases(10, p as nat, 35);
    } else {
        assert(spec_decimal_byte_length(p) == 16);
        lemma_pow_increases(10, p as nat, 38);
    }
}

/// Decoding inverts encoding: for every mantissa within the declared
/// precision, the two's-complement value of the encoded slot is the
/// mantissa itself.
#[verifier::spinoff_prover]
pub proof fn lemma_decimal_round_trip(m: int, precision: int)
    requires
        0 <= precision <= 38,
        -pow(10, precision as nat) <= m <= pow(10, precision as nat) - 1,
    ensures
        be_signed(spec_encode_decimal(m, spec_decimal_byte_length(precision) as nat)) == m,
{
    lemma_byte_length_fits(precision);
    let len = spec_decimal_byte_length(precision) as nat;
    let s = spec_encode_decimal(m, len);
    let u = mantissa_rep(m);
    let pw = pow(256, len);
    let pw1 = pow(256, (len - 1) as nat);
    lemma_pow_positive(256, len);
    lemma_pow_positive(256, (len - 1) as nat);
    lemma_pow_adds(256, (len - 1) as nat, 1nat);
    lemma_pow1(256);
    assert(pw == pw1 * 256);
    lemma_pow_positive(10, precision as nat);
    assert(u >= 0) by {
        lemma_pow_table();
    }
    lemma_be_unsigned_of_digits(u, s);
    assert(be_unsigned(s) == u % pw);
    if m >= 0 {
        // u == m lies below half the slot, so the sign bit is clear
        lemma_small_mod(m as nat, pw as nat);
        assert(be_unsigned(s) == m);
        assert(s[0] == (u / pw1 % 256) as u8);
        assert(u / pw1 < 128) by {
            if u / pw1 >= 128 {
                lemma_fundamental_div_mod(u, pw1);
                lemma_mod_bound(u, pw1);
                lemma_mul_inequality(128, u / pw1, pw1);
                assert(128 * pw1 <= (u / pw1) * pw1);
                assert(2 * m < pw);
                assert(false);
            }
        }
        assert(u / pw1 >= 0) by {
            lemma_div_is_ordered(0, u, pw1);
        }
        lemma_small_mod((u / pw1) as nat, 256);
        assert(s[0] < 128);
    } else {
        // u == m + 256^16; modulo the slot this is m + 256^len, whose
        // sign bit is set
        let k = pow(256, (16 - len) as nat);
        lemma_pow_positive(256, (16 - len) as nat);
        lemma_pow_adds(256, len, (16 - len) as nat);
        assert(pw * k == pow(256, 16));
        assert(u == m + pw * k);
        assert(0 <= m + pw < pw);
        assert(u == (k - 1) * pw + (m + pw)) by {
            broadcast use vstd::arithmetic::mul::group_mul_properties;

        }
        lemma_fundamental_div_mod_converse(u, pw, k - 1, m + pw);
        assert(be_unsigned(s) == m + pw);
        let q = (m + pw) / pw1;
        assert(128 * pw1 <= m + pw);
        assert(q >= 128) by {
            lemma_div_is_ordered(128 * pw1, m + pw, pw1);
            lemma_div_multiples_vanish(128, pw1);
        }
        assert(q < 256) by {
            if q >= 256 {
                lemma_fundamental_div_mod(m + pw, pw1);
                lemma_mul_inequality(256, q, pw1);
                assert(256 * pw1 <= q * pw1);
                assert(false);
            }
        }
        assert(u / pw1 == (k - 1) * 256 + q) by {
            assert(u == (m + pw) + ((k - 1) * 256) * pw1) by {
                broadcast use vstd::arithmetic::mul::group_mul_properties;

            }
            lemma_hoist_over_denominator(m + pw, (k - 1) * 256, pw1 as nat);
        }
        assert(s[0] == (u / pw1 % 256) as u8);
        assert(((k - 1) * 256 + q) % 256 == q) by {
            lemma_mod_multiples_vanish(k - 1, q, 256);
            lemma_small_mod(q as nat, 256);
        }
        assert(s[0] >= 128);
        assert(be_signed(s) == m + pw - pw);
    }
}

/// Encodes a decimal mantissa into its fixed-length two's-complement
/// big-endian slot. Returns `None` exactly when the mantissa exceeds the
/// declared precision: the accepted range is `-10^precision` through
/// `10^precision - 1`.
pub fn encode_decimal(scaled_value: i128, precision: u32, length_in_bytes: usize) -> (r: Option<
    Vec<u8>,
>)
    requires
        precision <= 38,
        length_in_bytes == spec_decimal_byte_length(precision as int),
    ensures
        match r {
            Some(bytes) => {
                &&& -pow(10, precision as nat) <= scaled_value <= pow(10, precision as nat) - 1
                &&& bytes@ == spec_encode_decimal(scaled_value as int, length_in_bytes as nat)
                &&& bytes@.len() == length_in_bytes
                &&& be_signed(bytes@) == scaled_value
            },
            None => !(-pow(10, precision as nat) <= scaled_value <= pow(10, precision as nat)
                - 1),
        },
{
    let limit: i128 = pow10_i128(precision);
    proof {
        lemma_pow_positive(10, precision as nat);
        lemma_pow_increases(10, precision as nat, 38);
        lemma_pow_table();
    }
    if scaled_value > limit - 1 || scaled_value < -limit {
        return None;
    }
    let m = scaled_value;
    let ghost rep = mantissa_rep(m as int);
    let u: u128 = if m >= 0 {
        m as u128
    } else {
        let neg: u128 = (-m) as u128;
        (u128::MAX - neg) + 1
    };
    proof {
        lemma_pow_table();
        assert(u == rep);
    }
    let mut le: Vec<u8> = Vec::new();
    let mut i: usize = 0;
    let mut acc: u128 = u;
    proof {
        lemma_pow0(256);
        lemma_div_multiples_vanish(rep, 1);
    }
    while i < length_in_bytes
        invariant
            i <= length_in_bytes,
            le@.len() == i,
            rep == u,
            rep >= 0,
            acc == rep / pow(256, i as nat),
            forall|k: int| 0 <= k < i ==> le@[k] == (rep / pow(256, k as nat) % 256) as u8,
        decreases length_in_bytes - i,
    {
        proof {
            lemma_pow_positive(256, i as nat);
            lemma_div_denominator(rep, pow(256, i as nat), 256);
            lemma_pow_adds(256, i as nat, 1nat);
            lemma_pow1(256);
        }
        le.push((acc % 256) as u8);
        acc = acc / 256;
        i = i + 1;
    }
    let mut bytes: Vec<u8> = Vec::new();
    let mut j: usize = length_in_bytes;
    while j > 0
        invariant
            j <= length_in_bytes,
            le@.len() == length_in_bytes,
            rep == u,
            forall|k: int| 0 <= k < le@.len() ==> le@[k] == (rep / pow(256, k as nat) % 256) as u8,
            bytes@.len() == length_in_bytes - j,
            forall|k: int|
                0 <= k < bytes@.len() ==> bytes@[k] == (rep / pow(
                    256,
                    (length_in_bytes - 1 - k) as nat,
                ) % 256) as u8,
        decreases j,
    {
        j = j - 1;
        let b = le[j];
        bytes.push(b);
    }
    proof {
        assert(bytes@ =~= spec_encode_decimal(m as int, length_in_bytes as nat));
        lemma_decimal_round_trip(m as int, precision as int);
    }
    Some(bytes)
}

/// Decodes a two's-complement big-endian slot back into its mantissa.
pub fn decode_decimal(bytes: &Vec<u8>) -> (r: i128)
    requires
        1 <= bytes@.len() <= 16,
    ensures
        r == be_signed(bytes@),
{
    proof {
        lemma_pow_table();
        lemma_pow0(256);
    }
    let n: usize = bytes.len();
    let mut acc: u128 = 0;
    let mut i: usize = 0;
    while i < n
        invariant
            i <= n == bytes@.len() <= 16,
            acc == be_unsigned(bytes@.take(i as int)),
            acc < pow(256, i as nat),
        decreases n - i,
    {
        proof {
            let t = bytes@.take(i + 1);
            assert(t.drop_last() =~= bytes@.take(i as int));
            assert(t.last() == bytes@[i as int]);
            assert(be_unsigned(t) == acc * 256 + bytes@[i as int]);
            lemma_pow_adds(256, i as nat, 1nat);
            lemma_pow1(256);
            lemma_pow_increases(256, (i + 1) as nat, 16);
            lemma_mul_inequality(acc + 1, pow(256, i as nat), 256);
            lemma_pow_table();
        }
        acc = acc * 256 + (bytes[i] as u128);
        i = i + 1;
    }
    proof {
        assert(bytes@.take(n as int) =~= bytes@);
        lemma_be_unsigned_top_byte(bytes@);
        lemma_pow_positive(256, (n - 1) as nat);
        lemma_pow_adds(256, (n - 1) as nat, 1nat);
        lemma_pow1(256);
        lemma_pow_increases(256, n as nat, 16);
        lemma_pow_increases(256, (n - 1) as nat, 15);
        lemma_pow_table();
    }
    if bytes[0] >= 128 {
        // the value is acc - 256^n; 256^16 itself overflows the machine
        // word, so go through the distance to the top instead
        let ghost pw = pow(256, n as nat);
        proof {
            lemma_mul_inequality(128, bytes@[0] as int, pow(256, (n - 1) as nat));
            assert(128 * pow(256, (n - 1) as nat) <= be_unsigned(bytes@));
        }
        let d: u128 = if n == 16 {
            (u128::MAX - acc) + 1
        } else {
            let pw_small: u128 = pow256_u128(n);
            pw_small - acc
        };
        proof {
            assert(d == pw - acc);
            assert(d >= 1);
            assert(pw == 256 * pow(256, (n - 1) as nat));
            assert(d <= 128 * pow(256, (n - 1) as nat));
            lemma_mul_inequality(pow(256, (n - 1) as nat), pow(256, 15), 128);
            assert(d <= 0x80000000000000000000000000000000);
        }
        let r: i128 = -((d - 1) as i128) - 1;
        r
    } else {
        proof {
            lemma_mul_inequality(bytes@[0] + 1, 128, pow(256, (n - 1) as nat));
            assert(be_unsigned(bytes@) < 128 * pow(256, (n - 1) as nat));
            lemma_mul_inequality(pow(256, (n - 1) as nat), pow(256, 15), 128);
            assert(acc < 0x80000000000000000000000000000000);
        }
        acc as i128
    }
}

/// Computes `256^e` for an exponent below sixteen.
fn pow256_u128(e: usize) -> (r: u128)
    requires
        e <= 15,
    ensures
        r == pow(256, e as nat),
{
    proof {
        lemma_pow_table();
        lemma_pow0(256);
    }
    let mut acc: u128 = 1;
    let mut i: usize = 0;
    while i < e
        invariant
            i <= e <= 15,
            acc == pow(256, i as nat),
        decreases e - i,
    {
        proof {
            lemma_pow_increases(256, (i + 1) as nat, 15);
            lemma_pow_adds(256, i as nat, 1nat);
            lemma_pow1(256);
            lemma_pow_table();
        }
        acc = acc * 256;
        i = i + 1;
    }
    acc
}

} // verus!
