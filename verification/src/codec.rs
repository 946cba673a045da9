//! Encoding of scalar configuration values.
//!
//! A scalar configuration value is a string holding either a decimal or
//! a `0x`-prefixed hexadecimal unsigned integer.  It is encoded as
//! little-endian bytes: 4 bytes when the value fits in 32 bits, 8 bytes
//! otherwise.  The value must fit in 64 bits; anything else is a
//! malformed scalar.

use vstd::prelude::*;
use vstd::string::StrSliceExecFns;
use vstd::arithmetic::div_mod::lemma_fundamental_div_mod;
use vstd::arithmetic::div_mod::lemma_mod_division_less_than_divisor;
use vstd::arithmetic::mul::lemma_mul_inequality;
use vstd::arithmetic::mul::lemma_mul_is_commutative;

use crate::ImageError;

verus! {

/// `c` is an ASCII decimal digit.
pub open spec fn is_dec_digit(c: char) -> bool {
    48 <= c as u32 && c as u32 <= 57
}

/// Numeric value of a decimal digit.
pub open spec fn dec_digit_value(c: char) -> nat {
    (c as u32 - 48) as nat
}

/// `c` is an ASCII hexadecimal digit, upper or lower case.
pub open spec fn is_hex_digit(c: char) -> bool {
    (48 <= c as u32 && c as u32 <= 57)
        || (97 <= c as u32 && c as u32 <= 102)
        || (65 <= c as u32 && c as u32 <= 70)
}

/// Numeric value of a hexadecimal digit.
pub open spec fn hex_digit_value(c: char) -> nat {
    if 48 <= c as u32 && c as u32 <= 57 {
        (c as u32 - 48) as nat
    } else if 97 <= c as u32 && c as u32 <= 102 {
        (c as u32 - 87) as nat
    } else {
        (c as u32 - 55) as nat
    }
}

/// `s` is a non-empty run of decimal digits.
pub open spec fn is_dec_string(s: Seq<char>) -> bool {
    s.len() > 0 && forall|i: int| 0 <= i < s.len() ==> is_dec_digit(#[trigger] s[i])
}

/// `s` is a non-empty run of hexadecimal digits.
pub open spec fn is_hex_string(s: Seq<char>) -> bool {
    s.len() > 0 && forall|i: int| 0 <= i < s.len() ==> is_hex_digit(#[trigger] s[i])
}

/// Value of a run of decimal digits, most significant first.
pub open spec fn dec_string_value(s: Seq<char>) -> nat
    decreases s.len(),
{
    if s.len() == 0 {
        0
    } else {
        dec_string_value(s.drop_last()) * 10 + dec_digit_value(s.last())
    }
}

/// Value of a run of hexadecimal digits, most significant first.
pub open spec fn hex_string_value(s: Seq<char>) -> nat
    decreases s.len(),
{
    if s.len() == 0 {
        0
    } else {
        hex_string_value(s.drop_last()) * 16 + hex_digit_value(s.last())
    }
}

/// `s` starts with the two characters `0x`.
pub open spec fn has_hex_prefix(s: Seq<char>) -> bool {
    s.len() >= 2 && s[0] == '0' && s[1] == 'x'
}

/// Numeric value of a scalar string: the hexadecimal value of what
/// follows a `0x` prefix, or the decimal value of the whole string.
pub open spec fn scalar_value(s: Seq<char>) -> nat {
    if has_hex_prefix(s) {
        hex_string_value(s.skip(2))
    } else {
        dec_string_value(s)
    }
}

/// `s` is a well-formed scalar: all digits in the chosen base, and a
/// value that fits in 64 bits.
pub open spec fn is_valid_scalar(s: Seq<char>) -> bool {
    if has_hex_prefix(s) {
        is_hex_string(s.skip(2)) && hex_string_value(s.skip(2)) <= u64::MAX
    } else {
        is_dec_string(s) && dec_string_value(s) <= u64::MAX
    }
}

/// The 4 little-endian bytes of a 32-bit value.
pub open spec fn u32_le_bytes(v: u32) -> Seq<u8> {
    seq![
        (v & 0xff) as u8,
        ((v >> 8) & 0xff) as u8,
        ((v >> 16) & 0xff) as u8,
        ((v >> 24) & 0xff) as u8,
    ]
}

/// The 8 little-endian bytes of a 64-bit value.
pub open spec fn u64_le_bytes(v: u64) -> Seq<u8> {
    seq![
        (v & 0xff) as u8,
        ((v >> 8) & 0xff) as u8,
        ((v >> 16) & 0xff) as u8,
        ((v >> 24) & 0xff) as u8,
        ((v >> 32) & 0xff) as u8,
        ((v >> 40) & 0xff) as u8,
        ((v >> 48) & 0xff) as u8,
        ((v >> 56) & 0xff) as u8,
    ]
}

/// The bytes a valid scalar string encodes to: the little-endian bytes
/// of its value, 4 of them when the value fits in 32 bits, 8 otherwise.
pub open spec fn scalar_bytes(s: Seq<char>) -> Seq<u8> {
    if scalar_value(s) <= u32::MAX {
        u32_le_bytes(scalar_value(s) as u32)
    } else {
        u64_le_bytes(scalar_value(s) as u64)
    }
}

/// Value represented by a little-endian byte sequence.
pub open spec fn le_bytes_value(s: Seq<u8>) -> nat
    decreases s.len(),
{
    if s.len() == 0 {
        0
    } else {
        s[0] as nat + 256 * le_bytes_value(s.skip(1))
    }
}

/// The 4-byte little-endian encoding reassembles to the encoded value.
pub proof fn lemma_u32_le_bytes_value(v: u32)
    ensures
        u32_le_bytes(v).len() == 4,
        le_bytes_value(u32_le_bytes(v)) == v,
{
    let b = u32_le_bytes(v);
    reveal_with_fuel(le_bytes_value, 5);
    assert(b.skip(1) =~= seq![b[1], b[2], b[3]]);
    assert(seq![b[1], b[2], b[3]].skip(1) =~= seq![b[2], b[3]]);
    assert(seq![b[2], b[3]].skip(1) =~= seq![b[3]]);
    assert(seq![b[3]].skip(1) =~= Seq::<u8>::empty());
    assert(le_bytes_value(b) == b[0] + 256 * (b[1] + 256 * (b[2] + 256 * (b[3] + 256 * 0))));
    assert(((v & 0xff) as u8) as u32 == v & 0xff) by (bit_vector);
    assert((((v >> 8) & 0xff) as u8) as u32 == (v >> 8) & 0xff) by (bit_vector);
    assert((((v >> 16) & 0xff) as u8) as u32 == (v >> 16) & 0xff) by (bit_vector);
    assert((((v >> 24) & 0xff) as u8) as u32 == (v >> 24) & 0xff) by (bit_vector);
    assert(v == (v & 0xff) + 0x100 * ((v >> 8) & 0xff) + 0x10000 * ((v >> 16) & 0xff) + 0x1000000
        * ((v >> 24) & 0xff)) by (bit_vector);
}

/// The 8-byte little-endian encoding reassembles to the encoded value.
pub proof fn lemma_u64_le_bytes_value(v: u64)
    ensures
        u64_le_bytes(v).len() == 8,
        le_bytes_value(u64_le_bytes(v)) == v,
{
    let b = u64_le_bytes(v);
    reveal_with_fuel(le_bytes_value, 9);
    assert(b.skip(1) =~= seq![b[1], b[2], b[3], b[4], b[5], b[6], b[7]]);
    assert(seq![b[1], b[2], b[3], b[4], b[5], b[6], b[7]].skip(1) =~= seq![b[2], b[3], b[4], b[5], b[6], b[7]]);
    assert(seq![b[2], b[3], b[4], b[5], b[6], b[7]].skip(1) =~= seq![b[3], b[4], b[5], b[6], b[7]]);
    assert(seq![b[3], b[4], b[5], b[6], b[7]].skip(1) =~= seq![b[4], b[5], b[6], b[7]]);
    assert(seq![b[4], b[5], b[6], b[7]].skip(1) =~= seq![b[5], b[6], b[7]]);
    assert(seq![b[5], b[6], b[7]].skip(1) =~= seq![b[6], b[7]]);
    assert(seq![b[6], b[7]].skip(1) =~= seq![b[7]]);
    assert(seq![b[7]].skip(1) =~= Seq::<u8>::empty());
    assert(le_bytes_value(b) == b[0] + 256 * (b[1] + 256 * (b[2] + 256 * (b[3] + 256 * (b[4] + 256
        * (b[5] + 256 * (b[6] + 256 * (b[7] + 256 * 0))))))));
    assert(((v & 0xff) as u8) as u64 == v & 0xff) by (bit_vector);
    assert((((v >> 8) & 0xff) as u8) as u64 == (v >> 8) & 0xff) by (bit_vector);
    assert((((v >> 16) & 0xff) as u8) as u64 == (v >> 16) & 0xff) by (bit_vector);
    assert((((v >> 24) & 0xff) as u8) as u64 == (v >> 24) & 0xff) by (bit_vector);
    assert((((v >> 32) & 0xff) as u8) as u64 == (v >> 32) & 0xff) by (bit_vector);
    assert((((v >> 40) & 0xff) as u8) as u64 == (v >> 40) & 0xff) by (bit_vector);
    assert((((v >> 48) & 0xff) as u8) as u64 == (v >> 48) & 0xff) by (bit_vector);
    assert((((v >> 56) & 0xff) as u8) as u64 == (v >> 56) & 0xff) by (bit_vector);
    assert(v == (v & 0xff) + 0x100 * ((v >> 8) & 0xff) + 0x10000 * ((v >> 16) & 0xff) + 0x1000000
        * ((v >> 24) & 0xff) + 0x100000000 * ((v >> 32) & 0xff) + 0x10000000000 * ((v >> 40) & 0xff)
        + 0x1000000000000 * ((v >> 48) & 0xff) + 0x100000000000000 * ((v >> 56) & 0xff))
        by (bit_vector);
}

/// A valid scalar encodes to exactly 4 little-endian bytes when its
/// value fits in 32 bits, and to exactly 8 little-endian bytes
/// otherwise; in both cases the bytes reassemble to the value.
pub proof fn lemma_scalar_bytes_le(s: Seq<char>)
    requires
        is_valid_scalar(s),
    ensures
        scalar_value(s) <= u32::MAX ==> scalar_bytes(s).len() == 4,
        scalar_value(s) > u32::MAX ==> scalar_bytes(s).len() == 8,
        le_bytes_value(scalar_bytes(s)) == scalar_value(s),
{
    if scalar_value(s) <= u32::MAX {
        lemma_u32_le_bytes_value(scalar_value(s) as u32);
    } else {
        lemma_u64_le_bytes_value(scalar_value(s) as u64);
    }
}

/// The value of a prefix of a decimal digit run never exceeds the value
/// of the whole run.
proof fn lemma_dec_string_prefix(s: Seq<char>, i: int)
    requires
        0 <= i <= s.len(),
    ensures
        dec_string_value(s.take(i)) <= dec_string_value(s),
    decreases s.len(),
{
    if i < s.len() {
        lemma_dec_string_prefix(s.drop_last(), i);
        assert(s.drop_last().take(i) =~= s.take(i));
    } else {
        assert(s.take(i) =~= s);
    }
}

/// The value of a prefix of a hexadecimal digit run never exceeds the
/// value of the whole run.
proof fn lemma_hex_string_prefix(s: Seq<char>, i: int)
    requires
        0 <= i <= s.len(),
    ensures
        hex_string_value(s.take(i)) <= hex_string_value(s),
    decreases s.len(),
{
    if i < s.len() {
        lemma_hex_string_prefix(s.drop_last(), i);
        assert(s.drop_last().take(i) =~= s.take(i));
    } else {
        assert(s.take(i) =~= s);
    }
}

/// `acc * base + d` stays within `u64` exactly when
/// `acc <= (u64::MAX - d) / base`.
proof fn lemma_accumulate_bound(acc: u64, base: u64, d: u64)
    requires
        1 <= base,
        d < base,
    ensures
        acc as int <= (u64::MAX - d) as int / base as int ==> acc * base + d <= u64::MAX,
        acc as int > (u64::MAX - d) as int / base as int ==> acc * base + d > u64::MAX,
{
    let q = (u64::MAX - d) as int / base as int;
    lemma_fundamental_div_mod((u64::MAX - d) as int, base as int);
    lemma_mod_division_less_than_divisor((u64::MAX - d) as int, base as int);
    if acc <= q {
        lemma_mul_inequality(acc as int, q, base as int);
        lemma_mul_is_commutative(q, base as int);
    } else {
        lemma_mul_inequality(q + 1, acc as int, base as int);
        lemma_mul_is_commutative(q, base as int);
        assert((q + 1) * base == q * base + base) by (nonlinear_arith);
    }
}

/// Parses the decimal digit run `s[start..]`.
///
/// Returns its value when every character from `start` on is a decimal
/// digit, there is at least one, and the value fits in 64 bits; fails
/// with `MalformedScalar` otherwise.
fn parse_dec_digits(s: &str, start: usize) -> (r: Result<u64, ImageError>)
    requires
        start <= s@.len(),
    ensures
        r is Ok <==> (is_dec_string(s@.skip(start as int)) && dec_string_value(
            s@.skip(start as int),
        ) <= u64::MAX),
        r matches Ok(v) ==> v == dec_string_value(s@.skip(start as int)),
        r matches Err(e) ==> e == ImageError::MalformedScalar,
{
    let ghost t = s@.skip(start as int);
    let n = s.unicode_len();
    if n <= start {
        assert(t.len() == 0);
        return Err(ImageError::MalformedScalar);
    }
    let mut acc: u64 = 0;
    let mut i: usize = start;
    while i < n
        invariant
            start <= i <= n,
            n == s@.len(),
            start < n,
            t == s@.skip(start as int),
            forall|k: int| start <= k < i ==> is_dec_digit(#[trigger] s@[k]),
            acc == dec_string_value(s@.subrange(start as int, i as int)),
        decreases n - i,
    {
        let c = s.get_char(i);
        let cv: u32 = c as u32;
        if !(48 <= cv && cv <= 57) {
            assert(t[i - start] == s@[i as int]);
            return Err(ImageError::MalformedScalar);
        }
        let d: u64 = (cv - 48) as u64;
        proof {
            lemma_accumulate_bound(acc, 10, d);
            assert(s@.subrange(start as int, i + 1).drop_last() =~= s@.subrange(
                start as int,
                i as int,
            ));
            assert(s@.subrange(start as int, i + 1).last() == s@[i as int]);
        }
        if acc > (u64::MAX - d) / 10 {
            proof {
                assert(dec_string_value(s@.subrange(start as int, i + 1)) > u64::MAX);
                assert(t.take(i + 1 - start) =~= s@.subrange(start as int, i + 1));
                if is_dec_string(t) {
                    lemma_dec_string_prefix(t, i + 1 - start);
                }
            }
            return Err(ImageError::MalformedScalar);
        }
        acc = acc * 10 + d;
        i = i + 1;
    }
    proof {
        assert(s@.subrange(start as int, n as int) =~= t);
    }
    Ok(acc)
}

/// Parses the hexadecimal digit run `s[start..]`.
///
/// Returns its value when every character from `start` on is a
/// hexadecimal digit, there is at least one, and the value fits in 64
/// bits; fails with `MalformedScalar` otherwise.
fn parse_hex_digits(s: &str, start: usize) -> (r: Result<u64, ImageError>)
    requires
        start <= s@.len(),
    ensures
        r is Ok <==> (is_hex_string(s@.skip(start as int)) && hex_string_value(
            s@.skip(start as int),
        ) <= u64::MAX),
        r matches Ok(v) ==> v == hex_string_value(s@.skip(start as int)),
        r matches Err(e) ==> e == ImageError::MalformedScalar,
{
    let ghost t = s@.skip(start as int);
    let n = s.unicode_len();
    if n <= start {
        assert(t.len() == 0);
        return Err(ImageError::MalformedScalar);
    }
    let mut acc: u64 = 0;
    let mut i: usize = start;
    while i < n
        invariant
            start <= i <= n,
            n == s@.len(),
            start < n,
            t == s@.skip(start as int),
            forall|k: int| start <= k < i ==> is_hex_digit(#[trigger] s@[k]),
            acc == hex_string_value(s@.subrange(start as int, i as int)),
        decreases n - i,
    {
        let c = s.get_char(i);
        let cv: u32 = c as u32;
        let d: u64 = if 48 <= cv && cv <= 57 {
            (cv - 48) as u64
        } else if 97 <= cv && cv <= 102 {
            (cv - 87) as u64
        } else if 65 <= cv && cv <= 70 {
            (cv - 55) as u64
        } else {
            assert(t[i - start] == s@[i as int]);
            return Err(ImageError::MalformedScalar);
        };
        proof {
            lemma_accumulate_bound(acc, 16, d);
            assert(s@.subrange(start as int, i + 1).drop_last() =~= s@.subrange(
                start as int,
                i as int,
            ));
            assert(s@.subrange(start as int, i + 1).last() == s@[i as int]);
        }
        if acc > (u64::MAX - d) / 16 {
            proof {
                assert(hex_string_value(s@.subrange(start as int, i + 1)) > u64::MAX);
                assert(t.take(i + 1 - start) =~= s@.subrange(start as int, i + 1));
                if is_hex_string(t) {
                    lemma_hex_string_prefix(t, i + 1 - start);
                }
            }
            return Err(ImageError::MalformedScalar);
        }
        acc = acc * 16 + d;
        i = i + 1;
    }
    proof {
        assert(s@.subrange(start as int, n as int) =~= t);
    }
    Ok(acc)
}

/// Builds the 4 little-endian bytes of `v`.
pub fn encode_u32_le(v: u32) -> (r: Vec<u8>)
    ensures
        r@ == u32_le_bytes(v),
{
    let mut r: Vec<u8> = Vec::new();
    r.push((v & 0xff) as u8);
    r.push(((v >> 8) & 0xff) as u8);
    r.push(((v >> 16) & 0xff) as u8);
    r.push(((v >> 24) & 0xff) as u8);
    proof {
        assert(r@ =~= u32_le_bytes(v));
    }
    r
}

/// Builds the 8 little-endian bytes of `v`.
pub fn encode_u64_le(v: u64) -> (r: Vec<u8>)
    ensures
        r@ == u64_le_bytes(v),
{
    let mut r: Vec<u8> = Vec::new();
    r.push((v & 0xff) as u8);
    r.push(((v >> 8) & 0xff) as u8);
    r.push(((v >> 16) & 0xff) as u8);
    r.push(((v >> 24) & 0xff) as u8);
    r.push(((v >> 32) & 0xff) as u8);
    r.push(((v >> 40) & 0xff) as u8);
    r.push(((v >> 48) & 0xff) as u8);
    r.push(((v >> 56) & 0xff) as u8);
    proof {
        assert(r@ =~= u64_le_bytes(v));
    }
    r
}

/// Converts a decimal or `0x`-prefixed hexadecimal unsigned integer
/// string into a little-endian byte vector: 4 bytes when the value fits
/// in 32 bits, 8 bytes otherwise.
///
/// Fails with `MalformedScalar` when the string is neither form or its
/// value does not fit in 64 bits.
pub fn str_to_vec_u8(s: &str) -> (r: Result<Vec<u8>, ImageError>)
    ensures
        r is Ok <==> is_valid_scalar(s@),
        r matches Ok(b) ==> b@ == scalar_bytes(s@),
        r matches Err(e) ==> e == ImageError::MalformedScalar,
{
    let n = s.unicode_len();
    let hex = n >= 2 && s.get_char(0) == '0' && s.get_char(1) == 'x';
    assert(hex == has_hex_prefix(s@));
    proof {
        assert(s@.skip(0) =~= s@);
    }
    let value: u64 = if hex {
        match parse_hex_digits(s, 2) {
            Ok(v) => v,
            Err(e) => {
                return Err(e);
            },
        }
    } else {
        match parse_dec_digits(s, 0) {
            Ok(v) => v,
            Err(e) => {
                return Err(e);
            },
        }
    };
    proof {
        assert(s@.skip(0) =~= s@);
    }
    if value <= 0xffff_ffff {
        Ok(encode_u32_le(value as u32))
    } else {
        Ok(encode_u64_le(value))
    }
}

} // verus!
