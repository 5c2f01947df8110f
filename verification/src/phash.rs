//! Perceptual hashes: the 64-bit difference hash of a 9x8 grey-scale grid,
//! the Hamming distance of two hashes written in hexadecimal, and the four
//! 16-bit segments that the database indexes for near-duplicate lookup.

use vstd::prelude::*;
use crate::numbers::{
    all_digits, digit_value, digits_value, hex_fixed, lemma_hex16_roundtrip, lemma_hex_fixed_value,
    parse_hex_u64,
    parse_hex_u64_chars, parse_i64, parse_i64_chars, pow16, push_hex_fixed,
};
use crate::text::{chars_of, slice_to_vec, string_from_chars};

verus! {

/// Number of one bits of `n`.
pub open spec fn popcount(n: nat) -> nat
    decreases n,
{
    if n == 0 {
        0
    } else {
        n % 2 + popcount(n / 2)
    }
}

/// Number of one bits of a 64-bit value (`u64::count_ones`).
pub fn count_ones(x: u64) -> (c: u32)
    ensures
        c == popcount(x as nat),
        c <= 64,
{
    let mut y = x;
    let mut c: u32 = 0;
    proof {
        assert(pow2_spec(64) == 0x1_0000_0000_0000_0000) by {
            reveal_with_fuel(pow2_spec, 65);
        }
        lemma_popcount_bound(x as nat, 64);
    }
    while y != 0
        invariant
            c + popcount(y as nat) == popcount(x as nat),
            popcount(x as nat) <= 64,
        decreases y,
    {
        assert(y & 1 == y % 2) by (bit_vector);
        assert(y >> 1 == y / 2) by (bit_vector);
        c = c + (y & 1) as u32;
        y = y >> 1;
    }
    c
}

/// `2^k`.
pub open spec fn pow2_spec(k: nat) -> nat
    decreases k,
{
    if k == 0 {
        1
    } else {
        2 * pow2_spec((k - 1) as nat)
    }
}

/// A value below `2^k` has at most `k` one bits.
pub proof fn lemma_popcount_bound(n: nat, k: nat)
    requires
        n < pow2_spec(k),
    ensures
        popcount(n) <= k,
    decreases k,
{
    if n > 0 {
        lemma_popcount_bound(n / 2, (k - 1) as nat);
    }
}

/// What `hamming_hex` computes: the number of differing bits of two 64-bit
/// values written in hexadecimal, or 64 when either does not parse.
pub open spec fn spec_hamming_hex(left: Seq<char>, right: Seq<char>) -> int {
    match (parse_hex_u64(left), parse_hex_u64(right)) {
        (Some(a), Some(b)) => popcount(((a as u64) ^ (b as u64)) as nat) as int,
        _ => 64,
    }
}

/// Hamming distance of two perceptual hashes written in hexadecimal; 64 when
/// either is not a valid 64-bit hexadecimal number.
pub fn hamming_hex(left: &str, right: &str) -> (d: i64)
    ensures
        d == spec_hamming_hex(left@, right@),
        0 <= d <= 64,
{
    let l = chars_of(left);
    let r = chars_of(right);
    match (parse_hex_u64_chars(&l), parse_hex_u64_chars(&r)) {
        (Some(a), Some(b)) => count_ones(a ^ b) as i64,
        _ => 64,
    }
}

/// The four signed values that `i64::from_str_radix(.., 16)` reads from the
/// four 4-character slices of a 16-character ASCII hash.
pub open spec fn spec_perceptual_segments(hash: Seq<char>) -> Option<Seq<int>> {
    if hash.len() == 16 && vstd::utf8::is_ascii_chars(hash) {
        match (
            parse_i64(hash.subrange(0, 4), 16),
            parse_i64(hash.subrange(4, 8), 16),
            parse_i64(hash.subrange(8, 12), 16),
            parse_i64(hash.subrange(12, 16), 16),
        ) {
            (Some(a), Some(b), Some(c), Some(d)) => Some(seq![a, b, c, d]),
            _ => None,
        }
    } else {
        None
    }
}

/// Splits a 16-digit hexadecimal perceptual hash into four 16-bit segments.
/// A hash that is not 16 ASCII characters, or whose slices do not parse,
/// yields `None`. (A 16-byte text with non-ASCII characters has no valid
/// hexadecimal slices, so the result is `None` for it as well.)
pub fn perceptual_segments(hash: &str) -> (out: Option<[i64; 4]>)
    ensures
        match out {
            Some(a) => spec_perceptual_segments(hash@) == Some(
                seq![a[0] as int, a[1] as int, a[2] as int, a[3] as int],
            ),
            None => spec_perceptual_segments(hash@) is None,
        },
{
    let v = chars_of(hash);
    if v.len() != 16 || !hash.is_ascii() {
        return None;
    }
    let s0 = slice_to_vec(&v, 0, 4);
    let s1 = slice_to_vec(&v, 4, 8);
    let s2 = slice_to_vec(&v, 8, 12);
    let s3 = slice_to_vec(&v, 12, 16);
    let a = match parse_i64_chars(&s0, 16) {
        Some(x) => x,
        None => return None,
    };
    let b = match parse_i64_chars(&s1, 16) {
        Some(x) => x,
        None => return None,
    };
    let c = match parse_i64_chars(&s2, 16) {
        Some(x) => x,
        None => return None,
    };
    let d = match parse_i64_chars(&s3, 16) {
        Some(x) => x,
        None => return None,
    };
    Some([a, b, c, d])
}

/// Bit `i` (0 = most significant of the 64) of the difference hash of a 9x8
/// grid stored row by row: whether pixel `(x, y)` is brighter than `(x + 1, y)`.
pub open spec fn dhash_bit(luma: Seq<u8>, i: int) -> nat {
    let y = i / 8;
    let x = i % 8;
    if luma[y * 9 + x] > luma[y * 9 + x + 1] {
        1
    } else {
        0
    }
}

/// The value of the first `k` bits of the difference hash.
pub open spec fn dhash_prefix(luma: Seq<u8>, k: nat) -> nat
    decreases k,
{
    if k == 0 {
        0
    } else {
        2 * dhash_prefix(luma, (k - 1) as nat) + dhash_bit(luma, k - 1)
    }
}

/// The 64-bit difference hash of a 9x8 grid.
pub open spec fn dhash_value(luma: Seq<u8>) -> nat {
    dhash_prefix(luma, 64)
}

proof fn lemma_dhash_prefix_bound(luma: Seq<u8>, k: nat)
    ensures
        dhash_prefix(luma, k) < pow2_spec(k),
    decreases k,
{
    if k > 0 {
        lemma_dhash_prefix_bound(luma, (k - 1) as nat);
    }
}

/// The difference hash of a 9x8 grey-scale grid (row by row, 72 values).
pub fn difference_hash_value(luma: &[u8]) -> (h: u64)
    requires
        luma@.len() == 72,
    ensures
        h == dhash_value(luma@),
{
    let mut h: u64 = 0;
    let mut i: usize = 0;
    while i < 64
        invariant
            i <= 64,
            luma@.len() == 72,
            h == dhash_prefix(luma@, i as nat),
        decreases 64 - i,
    {
        let y = i / 8;
        let x = i % 8;
        assert(y * 9 + x + 1 < 72) by (nonlinear_arith)
            requires
                y == i / 8,
                x == i % 8,
                i < 64,
        ;
        let bit: u64 = if luma[y * 9 + x] > luma[y * 9 + x + 1] {
            1
        } else {
            0
        };
        proof {
            lemma_dhash_prefix_fits(luma@, i as nat);
        }
        h = h * 2 + bit;
        i = i + 1;
    }
    h
}

proof fn lemma_dhash_prefix_fits(luma: Seq<u8>, k: nat)
    requires
        k < 64,
    ensures
        dhash_prefix(luma, k) < 0x8000_0000_0000_0000,
{
    lemma_dhash_prefix_bound(luma, k);
    lemma_pow2_monotone(k, 63);
    assert(pow2_spec(63) == 0x8000_0000_0000_0000) by {
        reveal_with_fuel(pow2_spec, 64);
    }
}

proof fn lemma_pow2_monotone(a: nat, b: nat)
    requires
        a <= b,
    ensures
        pow2_spec(a) <= pow2_spec(b),
    decreases b,
{
    if a < b {
        lemma_pow2_monotone(a, (b - 1) as nat);
    }
}

/// The difference hash written as 16 lower-case hexadecimal digits
/// (`format!("{hash:016x}")`).
pub open spec fn spec_difference_hash_hex(luma: Seq<u8>) -> Seq<char> {
    hex_fixed(dhash_value(luma), 16)
}

/// Difference hash of a 9x8 grey-scale grid, as 16 hexadecimal digits.
pub fn difference_hash_hex(luma: &[u8]) -> (s: String)
    requires
        luma@.len() == 72,
    ensures
        s@ == spec_difference_hash_hex(luma@),
{
    let h = difference_hash_value(luma);
    let mut out: Vec<char> = Vec::new();
    push_hex_fixed(&mut out, h, 16);
    assert(out@ == hex_fixed(h as nat, 16));
    string_from_chars(&out)
}

/// The Hamming distance of two written difference hashes is the number of
/// bits in which the hashes differ.
pub proof fn law_hamming_of_difference_hashes(a: Seq<u8>, b: Seq<u8>)
    requires
        a.len() == 72,
        b.len() == 72,
    ensures
        spec_hamming_hex(spec_difference_hash_hex(a), spec_difference_hash_hex(b)) == popcount(
            ((dhash_value(a) as u64) ^ (dhash_value(b) as u64)) as nat,
        ),
{
    lemma_dhash_prefix_bound(a, 64);
    lemma_dhash_prefix_bound(b, 64);
    assert(pow2_spec(64) == 0x1_0000_0000_0000_0000) by {
        reveal_with_fuel(pow2_spec, 65);
    }
    lemma_hex16_roundtrip(dhash_value(a) as u64);
    lemma_hex16_roundtrip(dhash_value(b) as u64);
}

/// The Hamming distance is symmetric, and a valid hash is at distance 0 from itself.
pub proof fn law_hamming_symmetric(left: Seq<char>, right: Seq<char>)
    ensures
        spec_hamming_hex(left, right) == spec_hamming_hex(right, left),
        parse_hex_u64(left) is Some ==> spec_hamming_hex(left, left) == 0,
{
    match (parse_hex_u64(left), parse_hex_u64(right)) {
        (Some(a), Some(b)) => {
            let x = a as u64;
            let y = b as u64;
            assert(x ^ y == y ^ x) by (bit_vector);
        },
        _ => {},
    }
    if let Some(a) = parse_hex_u64(left) {
        let x = a as u64;
        assert(x ^ x == 0) by (bit_vector);
    }
}

/// The value of a digit string `s + t` is the value of `s` shifted past the
/// digits of `t`, plus the value of `t`.
proof fn lemma_digits_value_concat(s: Seq<char>, t: Seq<char>)
    ensures
        digits_value(s + t, 16) == digits_value(s, 16) * pow16(t.len()) + digits_value(t, 16),
    decreases t.len(),
{
    if t.len() == 0 {
        assert(s + t == s);
        assert(digits_value(t, 16) == 0);
        assert(pow16(t.len()) == 1);
        assert(digits_value(s, 16) * 1 == digits_value(s, 16));
    } else {
        let t1 = t.drop_last();
        lemma_digits_value_concat(s, t1);
        assert((s + t).drop_last() == s + t1);
        assert((s + t).last() == t.last());
        let a = digits_value(s, 16);
        let p = pow16(t1.len());
        let b = digits_value(t1, 16);
        let d = digit_value(t.last(), 16).unwrap_or(0);
        assert(pow16(t.len()) == 16 * p);
        assert(digits_value(t, 16) == b * 16 + d);
        assert(digits_value(s + t, 16) == digits_value(s + t1, 16) * 16 + d);
        assert((a * p + b) * 16 == a * (16 * p) + b * 16) by (nonlinear_arith);
        assert(digits_value(s + t, 16) == a * pow16(t.len()) + digits_value(t, 16));
    }
}

/// A string of hexadecimal digits is worth less than `16^len`.
proof fn lemma_digits_value_bound(t: Seq<char>)
    requires
        all_digits(t, 16),
    ensures
        digits_value(t, 16) < pow16(t.len()),
    decreases t.len(),
{
    if t.len() > 0 {
        let t1 = t.drop_last();
        assert forall|i: int| 0 <= i < t1.len() implies (#[trigger] digit_value(t1[i], 16)) is Some by {
            assert(t1[i] == t[i]);
        }
        lemma_digits_value_bound(t1);
        assert(digit_value(t[t.len() - 1], 16) is Some);
        let b = digits_value(t1, 16);
        let p = pow16(t1.len());
        assert(b * 16 + 15 < p * 16) by (nonlinear_arith)
            requires
                b < p,
        ;
    }
}

/// Splitting off the low `k` bits splits the one bits.
proof fn lemma_popcount_split(q: nat, r: nat, k: nat)
    requires
        r < pow2_spec(k),
    ensures
        popcount(q * pow2_spec(k) + r) == popcount(q) + popcount(r),
    decreases k,
{
    if k > 0 {
        let p = pow2_spec((k - 1) as nat);
        let n = q * pow2_spec(k) + r;
        assert(q * pow2_spec(k) == 2 * (q * p)) by (nonlinear_arith)
            requires
                pow2_spec(k) == 2 * p,
        ;
        assert(n / 2 == q * p + r / 2);
        assert(n % 2 == r % 2);
        lemma_popcount_split(q, r / 2, (k - 1) as nat);
        if n == 0 {
            assert(q * pow2_spec(k) == 0);
            assert(r == 0);
            if q > 0 {
                assert(q * pow2_spec(k) > 0) by (nonlinear_arith)
                    requires
                        q > 0,
                        pow2_spec(k) > 0,
                ;
            }
        }
    } else {
        assert(r == 0);
    }
}

/// A positive value has a one bit.
proof fn lemma_popcount_positive(n: nat)
    requires
        n > 0,
    ensures
        popcount(n) >= 1,
    decreases n,
{
    if n % 2 == 0 {
        lemma_popcount_positive(n / 2);
    }
}

/// The digits of segment `i` of a 16-character hash as `i64::from_str_radix`
/// reads them: the four characters, without a leading `+`.
pub open spec fn segment_digits(h: Seq<char>, i: int) -> Seq<char> {
    let s = h.subrange(4 * i, 4 * i + 4);
    if s.len() > 0 && s[0] == '+' {
        s.drop_first()
    } else {
        s
    }
}

/// The value of segment `i` of a hash.
pub open spec fn segment_value(h: Seq<char>, i: int) -> nat {
    digits_value(segment_digits(h, i), 16)
}

proof fn lemma_digit_is_ascii(c: char)
    requires
        digit_value(c, 16) is Some,
    ensures
        '\0' <= c <= '\u{7f}',
        c != '+' && c != '-',
{
}

proof fn lemma_segment_parses(h: Seq<char>, i: int)
    requires
        0 <= i < 4,
        h.len() == 16,
        all_digits(segment_digits(h, i), 16),
        segment_digits(h, i).len() > 0,
        h[4 * i] != '-',
    ensures
        parse_i64(h.subrange(4 * i, 4 * i + 4), 16) == Some(segment_value(h, i) as int),
        segment_value(h, i) < 65536,
{
    let d = segment_digits(h, i);
    lemma_digits_value_bound(d);
    assert(d.len() <= 4);
    assert(pow16(3) == 4096 && pow16(4) == 65536) by {
        reveal_with_fuel(pow16, 5);
    }
    if d.len() == 3 {
        assert(pow16(d.len()) == 4096);
    } else {
        assert(pow16(d.len()) == 65536);
    }
}

/// A 16-character hash that parses as a 64-bit number is made of its four
/// segments, each below `2^16`, and they are what `perceptual_segments` reads.
proof fn lemma_parsed_hash_segments(h: Seq<char>)
    requires
        h.len() == 16,
        parse_hex_u64(h) is Some,
    ensures
        spec_perceptual_segments(h) == Some(
            seq![
                segment_value(h, 0) as int,
                segment_value(h, 1) as int,
                segment_value(h, 2) as int,
                segment_value(h, 3) as int,
            ],
        ),
        parse_hex_u64(h)->0 == ((segment_value(h, 0) * 65536 + segment_value(h, 1)) * 65536
            + segment_value(h, 2)) * 65536 + segment_value(h, 3),
        segment_value(h, 0) < 65536,
        segment_value(h, 1) < 65536,
        segment_value(h, 2) < 65536,
        segment_value(h, 3) < 65536,
{
    let plus = h[0] == '+';
    let body = if plus {
        h.drop_first()
    } else {
        h
    };
    assert(all_digits(body, 16));
    assert forall|k: int| 1 <= k < 16 implies (#[trigger] digit_value(h[k], 16)) is Some by {
        if plus {
            assert(body[k - 1] == h[k]);
        } else {
            assert(body[k] == h[k]);
        }
    }
    if !plus {
        assert(body[0] == h[0]);
        assert(digit_value(h[0], 16) is Some);
    }
    assert forall|k: int| 0 <= k < 16 implies '\0' <= #[trigger] h[k] <= '\u{7f}' by {
        if k > 0 || !plus {
            lemma_digit_is_ascii(h[k]);
        }
    }
    let p0 = segment_digits(h, 0);
    let s1 = segment_digits(h, 1);
    let s2 = segment_digits(h, 2);
    let s3 = segment_digits(h, 3);
    lemma_digit_is_ascii(h[4]);
    lemma_digit_is_ascii(h[8]);
    lemma_digit_is_ascii(h[12]);
    assert(s1 == h.subrange(4, 8));
    assert(s2 == h.subrange(8, 12));
    assert(s3 == h.subrange(12, 16));
    assert(body == ((p0 + s1) + s2) + s3);
    assert forall|k: int| 0 <= k < p0.len() implies (#[trigger] digit_value(p0[k], 16)) is Some by {
        if plus {
            assert(p0[k] == h[k + 1]);
        } else {
            assert(p0[k] == h[k]);
        }
    }
    assert forall|k: int| 0 <= k < 4 implies (#[trigger] digit_value(s1[k], 16)) is Some by {
        assert(s1[k] == h[k + 4]);
    }
    assert forall|k: int| 0 <= k < 4 implies (#[trigger] digit_value(s2[k], 16)) is Some by {
        assert(s2[k] == h[k + 8]);
    }
    assert forall|k: int| 0 <= k < 4 implies (#[trigger] digit_value(s3[k], 16)) is Some by {
        assert(s3[k] == h[k + 12]);
    }
    if !plus {
        lemma_digit_is_ascii(h[0]);
    }
    lemma_segment_parses(h, 0);
    lemma_segment_parses(h, 1);
    lemma_segment_parses(h, 2);
    lemma_segment_parses(h, 3);
    assert(pow16(4) == 65536) by {
        reveal_with_fuel(pow16, 5);
    }
    lemma_digits_value_concat(p0, s1);
    lemma_digits_value_concat(p0 + s1, s2);
    lemma_digits_value_concat((p0 + s1) + s2, s3);
    assert(vstd::utf8::is_ascii_chars(h));
}

/// The 16-digit hexadecimal form of a 64-bit hash, as the perceptual hash is
/// written, splits into the hash's four 16-bit fields, most significant first.
pub proof fn law_segments_of_hex_hash(h: u64)
    ensures
        spec_perceptual_segments(hex_fixed(h as nat, 16)) == Some(
            seq![
                ((h >> 48u64) & 0xffffu64) as int,
                ((h >> 32u64) & 0xffffu64) as int,
                ((h >> 16u64) & 0xffffu64) as int,
                (h & 0xffffu64) as int,
            ],
        ),
{
    let s = hex_fixed(h as nat, 16);
    lemma_hex_fixed_value(h as nat, 16);
    lemma_hex16_roundtrip(h);
    lemma_parsed_hash_segments(s);
    let a0 = segment_value(s, 0) as u64;
    let a1 = segment_value(s, 1) as u64;
    let a2 = segment_value(s, 2) as u64;
    let a3 = segment_value(s, 3) as u64;
    assert(h == ((a0 * 65536 + a1) * 65536 + a2) * 65536 + a3);
    assert(((h >> 48u64) & 0xffffu64) == a0 && ((h >> 32u64) & 0xffffu64) == a1 && ((h >> 16u64)
        & 0xffffu64) == a2 && (h & 0xffffu64) == a3) by (bit_vector)
        requires
            h == ((a0 * 65536 + a1) * 65536 + a2) * 65536 + a3,
            a0 < 65536,
            a1 < 65536,
            a2 < 65536,
            a3 < 65536,
    ;
}

/// Two hashes within Hamming distance 3 agree on at least one of their four
/// 16-bit segments: looking up pictures with an equal segment finds every
/// near duplicate.
pub proof fn law_near_duplicates_share_a_segment(a: Seq<char>, b: Seq<char>)
    requires
        a.len() == 16,
        b.len() == 16,
        spec_hamming_hex(a, b) <= 3,
    ensures
        spec_perceptual_segments(a) is Some,
        spec_perceptual_segments(b) is Some,
        exists|i: int|
            0 <= i < 4 && #[trigger] (spec_perceptual_segments(a)->0)[i] == (spec_perceptual_segments(
                b,
            )->0)[i],
{
    lemma_parsed_hash_segments(a);
    lemma_parsed_hash_segments(b);
    let a0 = segment_value(a, 0) as u64;
    let a1 = segment_value(a, 1) as u64;
    let a2 = segment_value(a, 2) as u64;
    let a3 = segment_value(a, 3) as u64;
    let b0 = segment_value(b, 0) as u64;
    let b1 = segment_value(b, 1) as u64;
    let b2 = segment_value(b, 2) as u64;
    let b3 = segment_value(b, 3) as u64;
    let x = parse_hex_u64(a)->0 as u64;
    let y = parse_hex_u64(b)->0 as u64;
    assert(x == ((a0 * 65536 + a1) * 65536 + a2) * 65536 + a3);
    assert(y == ((b0 * 65536 + b1) * 65536 + b2) * 65536 + b3);
    let w0 = a0 ^ b0;
    let w1 = a1 ^ b1;
    let w2 = a2 ^ b2;
    let w3 = a3 ^ b3;
    assert(x ^ y == ((w0 * 65536 + w1) * 65536 + w2) * 65536 + w3 && w0 < 65536 && w1 < 65536
        && w2 < 65536 && w3 < 65536) by (bit_vector)
        requires
            x == ((a0 * 65536 + a1) * 65536 + a2) * 65536 + a3,
            y == ((b0 * 65536 + b1) * 65536 + b2) * 65536 + b3,
            a0 < 65536,
            a1 < 65536,
            a2 < 65536,
            a3 < 65536,
            b0 < 65536,
            b1 < 65536,
            b2 < 65536,
            b3 < 65536,
            w0 == a0 ^ b0,
            w1 == a1 ^ b1,
            w2 == a2 ^ b2,
            w3 == a3 ^ b3,
    ;
    assert(pow2_spec(16) == 65536) by {
        reveal_with_fuel(pow2_spec, 17);
    }
    let q1 = w0 as nat * 65536 + w1 as nat;
    let q2 = q1 * 65536 + w2 as nat;
    lemma_popcount_split(w0 as nat, w1 as nat, 16);
    lemma_popcount_split(q1, w2 as nat, 16);
    lemma_popcount_split(q2, w3 as nat, 16);
    assert(popcount((x ^ y) as nat) == popcount(w0 as nat) + popcount(w1 as nat) + popcount(
        w2 as nat,
    ) + popcount(w3 as nat));
    if w0 != 0 && w1 != 0 && w2 != 0 && w3 != 0 {
        lemma_popcount_positive(w0 as nat);
        lemma_popcount_positive(w1 as nat);
        lemma_popcount_positive(w2 as nat);
        lemma_popcount_positive(w3 as nat);
        assert(false);
    }
    assert(w0 == 0 ==> a0 == b0) by (bit_vector)
        requires
            w0 == a0 ^ b0,
    ;
    assert(w1 == 0 ==> a1 == b1) by (bit_vector)
        requires
            w1 == a1 ^ b1,
    ;
    assert(w2 == 0 ==> a2 == b2) by (bit_vector)
        requires
            w2 == a2 ^ b2,
    ;
    assert(w3 == 0 ==> a3 == b3) by (bit_vector)
        requires
            w3 == a3 ^ b3,
    ;
    let sa = spec_perceptual_segments(a)->0;
    let sb = spec_perceptual_segments(b)->0;
    if w0 == 0 {
        assert(sa[0] == sb[0]);
    } else if w1 == 0 {
        assert(sa[1] == sb[1]);
    } else if w2 == 0 {
        assert(sa[2] == sb[2]);
    } else {
        assert(sa[3] == sb[3]);
    }
}

} // verus!
