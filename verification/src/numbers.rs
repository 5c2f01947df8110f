//! Integer text: parsing with the rules of Rust's `from_str_radix`, and
//! decimal / fixed-width hexadecimal writing.

use vstd::prelude::*;
use crate::text::{char_from_ascii, hex_digit_char};

verus! {

/// The value of an ASCII digit in the given radix (`0-9`, `a-z`, `A-Z`), if it is one.
pub open spec fn digit_value(c: char, radix: nat) -> Option<nat> {
    let u = c as u32;
    let d: int = if '0' <= c <= '9' {
        u - 48
    } else if 'a' <= c <= 'z' {
        u - 87
    } else if 'A' <= c <= 'Z' {
        u - 55
    } else {
        100
    };
    if d < radix {
        Some(d as nat)
    } else {
        None
    }
}

/// Whether every character is a digit of the radix.
pub open spec fn all_digits(s: Seq<char>, radix: nat) -> bool {
    forall|i: int| 0 <= i < s.len() ==> (#[trigger] digit_value(s[i], radix)) is Some
}

/// The value of a digit string, most significant digit first.
pub open spec fn digits_value(s: Seq<char>, radix: nat) -> nat
    decreases s.len(),
{
    if s.len() == 0 {
        0
    } else {
        digits_value(s.drop_last(), radix) * radix + digit_value(s.last(), radix).unwrap_or(0)
    }
}

/// What `from_str_radix` returns for an unsigned type whose largest value is `max`:
/// an optional `+`, then at least one digit, and a value that fits.
pub open spec fn parse_unsigned(s: Seq<char>, radix: nat, max: nat) -> Option<nat> {
    let body = if s.len() > 0 && s[0] == '+' {
        s.drop_first()
    } else {
        s
    };
    if body.len() > 0 && all_digits(body, radix) && digits_value(body, radix) <= max {
        Some(digits_value(body, radix))
    } else {
        None
    }
}

/// What `from_str_radix` returns for a signed type ranging over `-neg_max ..= max`:
/// an optional `+` or `-`, then at least one digit, and a value that fits.
pub open spec fn parse_signed(s: Seq<char>, radix: nat, neg_max: nat, max: nat) -> Option<int> {
    if s.len() > 0 && s[0] == '-' {
        let body = s.drop_first();
        if body.len() > 0 && all_digits(body, radix) && digits_value(body, radix) <= neg_max {
            Some(-(digits_value(body, radix) as int))
        } else {
            None
        }
    } else {
        match parse_unsigned(s, radix, max) {
            Some(v) => Some(v as int),
            None => None,
        }
    }
}

/// `u64::from_str_radix(s, 16)`.
pub open spec fn parse_hex_u64(s: Seq<char>) -> Option<nat> {
    parse_unsigned(s, 16, 0xffff_ffff_ffff_ffff)
}

/// `i64::from_str_radix(s, radix)`.
pub open spec fn parse_i64(s: Seq<char>, radix: nat) -> Option<int> {
    parse_signed(s, radix, 0x8000_0000_0000_0000, 0x7fff_ffff_ffff_ffff)
}

/// Executable digit value.
pub fn digit_of(c: char, radix: u32) -> (d: Option<u32>)
    requires
        2 <= radix <= 36,
    ensures
        match d {
            Some(v) => digit_value(c, radix as nat) == Some(v as nat),
            None => digit_value(c, radix as nat) is None,
        },
{
    let u = c as u32;
    let v: u32 = if '0' <= c && c <= '9' {
        u - 48
    } else if 'a' <= c && c <= 'z' {
        u - 87
    } else if 'A' <= c && c <= 'Z' {
        u - 55
    } else {
        100
    };
    if v < radix {
        Some(v)
    } else {
        None
    }
}

/// A longer digit string never has a smaller value.
pub proof fn lemma_digits_value_prefix(s: Seq<char>, radix: nat, j: int)
    requires
        0 <= j <= s.len(),
        radix >= 1,
    ensures
        digits_value(s.take(j), radix) <= digits_value(s, radix),
    decreases s.len(),
{
    if j < s.len() {
        assert(s.drop_last().take(j) == s.take(j));
        lemma_digits_value_prefix(s.drop_last(), radix, j);
        let p = digits_value(s.drop_last(), radix);
        assert(p * radix >= p) by (nonlinear_arith)
            requires
                radix >= 1,
        ;
    } else {
        assert(s.take(j) == s);
    }
}

/// Value of the digit string `v[from..]` in the radix, or `None` when it has a
/// non-digit, is empty, or exceeds `max`.
fn digits_in_range(v: &[char], from: usize, radix: u32, max: u64) -> (out: Option<u64>)
    requires
        2 <= radix <= 36,
        from <= v@.len(),
    ensures
        ({
            let body = v@.subrange(from as int, v@.len() as int);
            match out {
                Some(n) => body.len() > 0 && all_digits(body, radix as nat) && digits_value(
                    body,
                    radix as nat,
                ) == n && n <= max,
                None => !(body.len() > 0 && all_digits(body, radix as nat) && digits_value(
                    body,
                    radix as nat,
                ) <= max),
            }
        }),
{
    let ghost body = v@.subrange(from as int, v@.len() as int);
    if from == v.len() {
        return None;
    }
    let mut acc: u64 = 0;
    let mut i = from;
    while i < v.len()
        invariant
            from <= i <= v@.len(),
            body == v@.subrange(from as int, v@.len() as int),
            2 <= radix <= 36,
            all_digits(body.take(i - from), radix as nat),
            acc == digits_value(body.take(i - from), radix as nat),
            acc <= max,
        decreases v.len() - i,
    {
        let ghost k = i - from;
        assert(body[k as int] == v@[i as int]);
        match digit_of(v[i], radix) {
            None => {
                assert(!all_digits(body, radix as nat)) by {
                    assert(digit_value(body[k as int], radix as nat) is None);
                }
                return None;
            },
            Some(d) => {
                assert(body.take(k + 1).drop_last() == body.take(k));
                assert(body.take(k + 1).last() == body[k as int]);
                assert(all_digits(body.take(k + 1), radix as nat)) by {
                    assert forall|m: int| 0 <= m < k + 1 implies (#[trigger] digit_value(
                        body.take(k + 1)[m],
                        radix as nat,
                    )) is Some by {
                        if m < k {
                            assert(body.take(k + 1)[m] == body.take(k)[m]);
                        }
                    }
                }
                let next: Option<u64> = match acc.checked_mul(radix as u64) {
                    Some(m) => m.checked_add(d as u64),
                    None => None,
                };
                match next {
                    Some(n) if n <= max => {
                        acc = n;
                    },
                    _ => {
                        proof {
                            lemma_digits_value_prefix(body, radix as nat, k + 1);
                        }
                        assert(digits_value(body.take(k + 1), radix as nat) > max);
                        return None;
                    },
                }
            },
        }
        i = i + 1;
    }
    assert(body.take(i - from) == body);
    Some(acc)
}

/// `u64::from_str_radix(s, 16)` on the characters of `s`.
pub fn parse_hex_u64_chars(v: &[char]) -> (out: Option<u64>)
    ensures
        match out {
            Some(n) => parse_hex_u64(v@) == Some(n as nat),
            None => parse_hex_u64(v@) is None,
        },
{
    let from: usize = if v.len() > 0 && v[0] == '+' {
        1
    } else {
        0
    };
    assert(v@.subrange(from as int, v@.len() as int) == (if v@.len() > 0 && v@[0] == '+' {
        v@.drop_first()
    } else {
        v@
    }));
    digits_in_range(v, from, 16, 0xffff_ffff_ffff_ffff)
}

/// `i64::from_str_radix(s, radix)` on the characters of `s`.
pub fn parse_i64_chars(v: &[char], radix: u32) -> (out: Option<i64>)
    requires
        2 <= radix <= 36,
    ensures
        match out {
            Some(n) => parse_i64(v@, radix as nat) == Some(n as int),
            None => parse_i64(v@, radix as nat) is None,
        },
{
    if v.len() > 0 && v[0] == '-' {
        assert(v@.subrange(1, v@.len() as int) == v@.drop_first());
        match digits_in_range(v, 1, radix, 0x8000_0000_0000_0000) {
            Some(m) => {
                if m == 0x8000_0000_0000_0000 {
                    Some(i64::MIN)
                } else {
                    Some(-(m as i64))
                }
            },
            None => None,
        }
    } else {
        let from: usize = if v.len() > 0 && v[0] == '+' {
            1
        } else {
            0
        };
        assert(v@.subrange(from as int, v@.len() as int) == (if v@.len() > 0 && v@[0] == '+' {
            v@.drop_first()
        } else {
            v@
        }));
        match digits_in_range(v, from, radix, 0x7fff_ffff_ffff_ffff) {
            Some(m) => Some(m as i64),
            None => None,
        }
    }
}

/// `16^k`.
pub open spec fn pow16(k: nat) -> nat
    decreases k,
{
    if k == 0 {
        1
    } else {
        16 * pow16((k - 1) as nat)
    }
}

/// The last `k` lower-case hexadecimal digits of `n`, most significant first
/// (`format!("{:0k$x}", n)` for `n < 16^k`).
pub open spec fn hex_fixed(n: nat, k: nat) -> Seq<char>
    decreases k,
{
    if k == 0 {
        seq![]
    } else {
        hex_fixed(n / 16, (k - 1) as nat).push(hex_digit_char(n % 16))
    }
}

/// Appends the last `k` hexadecimal digits of `n`.
pub fn push_hex_fixed(out: &mut Vec<char>, n: u64, k: u32)
    ensures
        final(out)@ == old(out)@ + hex_fixed(n as nat, k as nat),
    decreases k,
{
    if k > 0 {
        push_hex_fixed(out, n / 16, k - 1);
        let d = (n % 16) as u8;
        let c = if d < 10 {
            char_from_ascii(48 + d)
        } else {
            char_from_ascii(87 + d)
        };
        out.push(c);
        assert(hex_fixed(n as nat, k as nat) == hex_fixed((n / 16) as nat, (k - 1) as nat).push(
            hex_digit_char((n % 16) as nat),
        ));
    }
}

/// A hexadecimal digit written by `hex_digit_char` reads back as its value.
pub proof fn lemma_hex_digit_roundtrip(d: nat)
    requires
        d < 16,
    ensures
        digit_value(hex_digit_char(d), 16) == Some(d),
{
}

/// `hex_fixed(n, k)` has `k` digits whose value is `n mod 16^k`.
pub proof fn lemma_hex_fixed_value(n: nat, k: nat)
    ensures
        hex_fixed(n, k).len() == k,
        all_digits(hex_fixed(n, k), 16),
        digits_value(hex_fixed(n, k), 16) == n % pow16(k),
        pow16(k) > 0,
    decreases k,
{
    if k > 0 {
        let q = n / 16;
        let r = n % 16;
        lemma_hex_fixed_value(q, (k - 1) as nat);
        let h = hex_fixed(n, k);
        let t = hex_fixed(q, (k - 1) as nat);
        lemma_hex_digit_roundtrip(r);
        assert(h.drop_last() == t);
        assert(h.last() == hex_digit_char(r));
        assert forall|i: int| 0 <= i < h.len() implies (#[trigger] digit_value(h[i], 16)) is Some by {
            if i < t.len() {
                assert(h[i] == t[i]);
            }
        }
        let p = pow16((k - 1) as nat);
        assert(digits_value(h, 16) == (q % p) * 16 + r);
        vstd::arithmetic::div_mod::lemma_mod_breakdown(n as int, 16, p as int);
        assert(n % (16 * p) == 16 * ((n / 16) % p) + n % 16);
        assert(pow16(k) == 16 * p);
    }
}

/// Sixteen hexadecimal digits of a 64-bit value read back as that value.
pub proof fn lemma_hex16_roundtrip(n: u64)
    ensures
        parse_hex_u64(hex_fixed(n as nat, 16)) == Some(n as nat),
{
    lemma_hex_fixed_value(n as nat, 16);
    assert(pow16(16) == 0x1_0000_0000_0000_0000) by {
        reveal_with_fuel(pow16, 17);
    }
    let h = hex_fixed(n as nat, 16);
    assert(h[0] != '+') by {
        assert(digit_value(h[0], 16) is Some);
    }
}

} // verus!
