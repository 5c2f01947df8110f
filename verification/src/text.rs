//! Character-level string helpers with exact specifications.
//!
//! Strings are handled as sequences of `char`; every helper here states its
//! result over `Seq<char>`.

use vstd::prelude::*;

verus! {

broadcast use vstd::string::group_string_axioms;

/// The characters of a string slice, in order.
pub fn chars_of(s: &str) -> (out: Vec<char>)
    ensures
        out@ == s@,
{
    let mut out: Vec<char> = Vec::new();
    for c in it: s.chars()
        invariant
            it.seq() == s@,
            out@ == it.seq().take(it.index() as int),
    {
        out.push(c);
    }
    out
}

/// Builds a `String` holding exactly the given characters (std's `FromIterator<char>`).
#[verifier::external_body]
pub(crate) fn string_from_chars(chars: &[char]) -> (s: String)
    ensures
        s@ == chars@,
{
    chars.iter().collect()
}

/// Appends the characters of `s` to `out`.
pub fn push_str(out: &mut Vec<char>, s: &str)
    ensures
        final(out)@ == old(out)@ + s@,
{
    let cs = chars_of(s);
    push_all(out, &cs);
}

/// Appends all of `src` to `out`.
pub fn push_all(out: &mut Vec<char>, src: &[char])
    ensures
        final(out)@ == old(out)@ + src@,
{
    let ghost start = out@;
    let mut i: usize = 0;
    while i < src.len()
        invariant
            i <= src.len(),
            out@ == start + src@.take(i as int),
        decreases src.len() - i,
    {
        out.push(src[i]);
        i = i + 1;
        assert(src@.take(i as int) == src@.take(i - 1 as int).push(src@[i - 1 as int]));
    }
    assert(src@.take(src.len() as int) == src@);
}

/// Unicode `White_Space` property, as used by `char::is_whitespace` and `str::trim`.
pub open spec fn is_white_space(c: char) -> bool {
    let u = c as u32;
    ||| 0x09 <= u <= 0x0D
    ||| u == 0x20
    ||| u == 0x85
    ||| u == 0xA0
    ||| u == 0x1680
    ||| 0x2000 <= u <= 0x200A
    ||| u == 0x2028
    ||| u == 0x2029
    ||| u == 0x202F
    ||| u == 0x205F
    ||| u == 0x3000
}

/// Sets of characters that the library trims or tests for.
#[derive(Clone, Copy, PartialEq, Eq, Structural)]
pub enum CharClass {
    /// Unicode white space.
    WhiteSpace,
    /// `.` or ` `.
    DotOrSpace,
    /// A path separator, `\` or `/`.
    Separator,
    /// `"` or ` `.
    QuoteOrSpace,
    /// `/` alone.
    Slash,
}

/// Whether `c` belongs to the class.
pub open spec fn in_class(cls: CharClass, c: char) -> bool {
    match cls {
        CharClass::WhiteSpace => is_white_space(c),
        CharClass::DotOrSpace => c == '.' || c == ' ',
        CharClass::Separator => c == '\\' || c == '/',
        CharClass::QuoteOrSpace => c == '"' || c == ' ',
        CharClass::Slash => c == '/',
    }
}

/// Executable membership test for a character class.
pub fn class_contains(cls: CharClass, c: char) -> (b: bool)
    ensures
        b == in_class(cls, c),
{
    match cls {
        CharClass::WhiteSpace => {
            let u = c as u32;
            (0x09 <= u && u <= 0x0D) || u == 0x20 || u == 0x85 || u == 0xA0 || u == 0x1680 || (
            0x2000 <= u && u <= 0x200A) || u == 0x2028 || u == 0x2029 || u == 0x202F || u
                == 0x205F || u == 0x3000
        },
        CharClass::DotOrSpace => c == '.' || c == ' ',
        CharClass::Separator => c == '\\' || c == '/',
        CharClass::QuoteOrSpace => c == '"' || c == ' ',
        CharClass::Slash => c == '/',
    }
}

/// `s` without its leading characters of the class.
pub open spec fn trim_start_by(s: Seq<char>, cls: CharClass) -> Seq<char>
    decreases s.len(),
{
    if s.len() > 0 && in_class(cls, s[0]) {
        trim_start_by(s.drop_first(), cls)
    } else {
        s
    }
}

/// `s` without its trailing characters of the class.
pub open spec fn trim_end_by(s: Seq<char>, cls: CharClass) -> Seq<char>
    decreases s.len(),
{
    if s.len() > 0 && in_class(cls, s.last()) {
        trim_end_by(s.drop_last(), cls)
    } else {
        s
    }
}

/// `s` without leading and trailing characters of the class.
pub open spec fn trim_by(s: Seq<char>, cls: CharClass) -> Seq<char> {
    trim_end_by(trim_start_by(s, cls), cls)
}

/// What `str::trim` returns.
pub open spec fn trim_ws(s: Seq<char>) -> Seq<char> {
    trim_by(s, CharClass::WhiteSpace)
}

/// Removing leading class characters leaves a suffix of the input.
pub proof fn lemma_trim_start_suffix(s: Seq<char>, cls: CharClass)
    ensures
        trim_start_by(s, cls).len() <= s.len(),
        trim_start_by(s, cls) == s.subrange(s.len() - trim_start_by(s, cls).len(), s.len() as int),
        trim_start_by(s, cls).len() > 0 ==> !in_class(cls, trim_start_by(s, cls)[0]),
    decreases s.len(),
{
    if s.len() > 0 && in_class(cls, s[0]) {
        lemma_trim_start_suffix(s.drop_first(), cls);
        let t = trim_start_by(s.drop_first(), cls);
        assert(s.drop_first().subrange(s.drop_first().len() - t.len(), s.drop_first().len() as int)
            == s.subrange(s.len() - t.len(), s.len() as int));
    } else {
        assert(s.subrange(0, s.len() as int) == s);
    }
}

/// Removing trailing class characters leaves a prefix of the input.
pub proof fn lemma_trim_end_prefix(s: Seq<char>, cls: CharClass)
    ensures
        trim_end_by(s, cls).len() <= s.len(),
        trim_end_by(s, cls) == s.subrange(0, trim_end_by(s, cls).len() as int),
        trim_end_by(s, cls).len() > 0 ==> !in_class(cls, trim_end_by(s, cls).last()),
    decreases s.len(),
{
    if s.len() > 0 && in_class(cls, s.last()) {
        lemma_trim_end_prefix(s.drop_last(), cls);
        let t = trim_end_by(s.drop_last(), cls);
        assert(s.drop_last().subrange(0, t.len() as int) == s.subrange(0, t.len() as int));
    } else {
        assert(s.subrange(0, s.len() as int) == s);
    }
}

/// What trimming removes from the end are characters of the class.
pub proof fn lemma_trim_end_removed(s: Seq<char>, cls: CharClass)
    ensures
        forall|j: int| trim_end_by(s, cls).len() <= j < s.len() ==> in_class(cls, #[trigger] s[j]),
    decreases s.len(),
{
    if s.len() > 0 && in_class(cls, s.last()) {
        lemma_trim_end_removed(s.drop_last(), cls);
        lemma_trim_end_prefix(s.drop_last(), cls);
        assert forall|j: int| trim_end_by(s, cls).len() <= j < s.len() implies in_class(
            cls,
            #[trigger] s[j],
        ) by {
            if j < s.len() - 1 {
                assert(s[j] == s.drop_last()[j]);
            }
        }
    }
}

/// A sequence that neither starts nor ends with class characters is its own trim.
pub proof fn lemma_trim_fixed(s: Seq<char>, cls: CharClass)
    requires
        s.len() > 0 ==> !in_class(cls, s[0]) && !in_class(cls, s.last()),
    ensures
        trim_by(s, cls) == s,
{
}

/// Trimming at both ends twice is the same as trimming once.
pub proof fn lemma_trim_idempotent(s: Seq<char>, cls: CharClass)
    ensures
        trim_by(trim_by(s, cls), cls) == trim_by(s, cls),
{
    let a = trim_start_by(s, cls);
    let b = trim_end_by(a, cls);
    lemma_trim_start_suffix(s, cls);
    lemma_trim_end_prefix(a, cls);
    if b.len() > 0 {
        assert(b[0] == a[0]);
    }
    lemma_trim_fixed(b, cls);
}

/// Index of the first character of `v[from..]` that is not in the class
/// (`v.len()` when there is none).
fn skip_class_forward(v: &[char], cls: CharClass) -> (i: usize)
    ensures
        i <= v@.len(),
        trim_start_by(v@, cls) == v@.subrange(i as int, v@.len() as int),
{
    let n = v.len();
    let mut i: usize = 0;
    assert(v@.subrange(0, n as int) == v@);
    while i < n && class_contains(cls, v[i])
        invariant
            i <= n,
            n == v@.len(),
            trim_start_by(v@, cls) == trim_start_by(v@.subrange(i as int, n as int), cls),
        decreases n - i,
    {
        assert(v@.subrange(i as int, n as int).drop_first() == v@.subrange(i + 1, n as int));
        i = i + 1;
    }
    i
}

/// Length of `v` once trailing class characters are removed.
fn skip_class_backward(v: &[char], end: usize, cls: CharClass) -> (j: usize)
    requires
        end <= v@.len(),
    ensures
        j <= end,
        trim_end_by(v@.subrange(0, end as int), cls) == v@.subrange(0, j as int),
{
    let mut j: usize = end;
    while j > 0 && class_contains(cls, v[j - 1])
        invariant
            j <= end,
            end <= v@.len(),
            trim_end_by(v@.subrange(0, end as int), cls) == trim_end_by(v@.subrange(0, j as int), cls),
        decreases j,
    {
        assert(v@.subrange(0, j as int).drop_last() == v@.subrange(0, j - 1));
        j = j - 1;
    }
    j
}

/// Copy of `v[from..to]`.
pub fn slice_to_vec(v: &[char], from: usize, to: usize) -> (out: Vec<char>)
    requires
        from <= to <= v@.len(),
    ensures
        out@ == v@.subrange(from as int, to as int),
{
    let mut out: Vec<char> = Vec::new();
    let mut i = from;
    while i < to
        invariant
            from <= i <= to,
            to <= v@.len(),
            out@ == v@.subrange(from as int, i as int),
        decreases to - i,
    {
        out.push(v[i]);
        i = i + 1;
        assert(out@ == v@.subrange(from as int, i as int));
    }
    out
}

/// `v` without leading characters of the class.
pub fn trim_start_chars(v: &[char], cls: CharClass) -> (out: Vec<char>)
    ensures
        out@ == trim_start_by(v@, cls),
{
    let i = skip_class_forward(v, cls);
    slice_to_vec(v, i, v.len())
}

/// `v` without trailing characters of the class.
pub fn trim_end_chars(v: &[char], cls: CharClass) -> (out: Vec<char>)
    ensures
        out@ == trim_end_by(v@, cls),
{
    let j = skip_class_backward(v, v.len(), cls);
    assert(v@.subrange(0, v@.len() as int) == v@);
    slice_to_vec(v, 0, j)
}

/// `v` without leading and trailing characters of the class.
pub fn trim_chars(v: &[char], cls: CharClass) -> (out: Vec<char>)
    ensures
        out@ == trim_by(v@, cls),
{
    let a = trim_start_chars(v, cls);
    trim_end_chars(&a, cls)
}

/// Whether every character of `s` is in the class.
pub open spec fn all_in_class(s: Seq<char>, cls: CharClass) -> bool {
    forall|i: int| 0 <= i < s.len() ==> in_class(cls, #[trigger] s[i])
}

/// Whether `t` occurs in `s` at position `i`.
pub open spec fn occurs_at(s: Seq<char>, t: Seq<char>, i: int) -> bool {
    0 <= i && i + t.len() <= s.len() && s.subrange(i, i + t.len()) == t
}

/// Whether `t` occurs in `s` (what `str::contains` with a string pattern returns).
pub open spec fn contains_seq(s: Seq<char>, t: Seq<char>) -> bool {
    exists|i: int| occurs_at(s, t, i)
}

/// Whether `t` is a prefix of `s` (what `str::starts_with` returns).
pub open spec fn starts_with_seq(s: Seq<char>, t: Seq<char>) -> bool {
    occurs_at(s, t, 0)
}

/// Whether `t` occurs in `s` at position `i`.
pub fn matches_at(s: &[char], t: &[char], i: usize) -> (b: bool)
    ensures
        b == occurs_at(s@, t@, i as int),
{
    if i > s.len() || t.len() > s.len() - i {
        return false;
    }
    let sl = s.len();
    let mut k: usize = 0;
    while k < t.len()
        invariant
            k <= t@.len(),
            sl == s@.len(),
            i + t@.len() <= sl,
            forall|m: int| 0 <= m < k ==> s@[i + m] == t@[m],
        decreases t.len() - k,
    {
        if s[i + k] != t[k] {
            assert(s@.subrange(i as int, i + t@.len())[k as int] != t@[k as int]);
            return false;
        }
        k = k + 1;
    }
    assert(s@.subrange(i as int, i + t@.len()) == t@);
    true
}

/// Whether `t` is a prefix of `s`.
pub fn starts_with_chars(s: &[char], t: &[char]) -> (b: bool)
    ensures
        b == starts_with_seq(s@, t@),
{
    matches_at(s, t, 0)
}

/// Whether `t` occurs anywhere in `s`.
pub fn contains_chars(s: &[char], t: &[char]) -> (b: bool)
    ensures
        b == contains_seq(s@, t@),
{
    if t.len() > s.len() {
        return false;
    }
    let last = s.len() - t.len();
    let mut i: usize = 0;
    loop
        invariant
            last == s@.len() - t@.len(),
            i <= last,
            forall|j: int| 0 <= j < i ==> !occurs_at(s@, t@, j),
        decreases last - i,
    {
        if matches_at(s, t, i) {
            return true;
        }
        if i == last {
            return false;
        }
        i = i + 1;
    }
}

/// Whether `c` occurs in `s`.
pub fn contains_char(s: &[char], c: char) -> (b: bool)
    ensures
        b == s@.contains(c),
{
    let mut i: usize = 0;
    while i < s.len()
        invariant
            i <= s@.len(),
            forall|j: int| 0 <= j < i ==> s@[j] != c,
        decreases s.len() - i,
    {
        if s[i] == c {
            return true;
        }
        i = i + 1;
    }
    false
}

/// `s` with every `from` replaced by `to`.
pub open spec fn replace_char(s: Seq<char>, from: char, to: char) -> Seq<char> {
    s.map_values(|c: char| if c == from { to } else { c })
}

/// Replaces every occurrence of one character by another.
pub fn replace_char_vec(v: &[char], from: char, to: char) -> (out: Vec<char>)
    ensures
        out@ == replace_char(v@, from, to),
{
    let mut out: Vec<char> = Vec::new();
    let mut i: usize = 0;
    while i < v.len()
        invariant
            i <= v@.len(),
            out@ == replace_char(v@.take(i as int), from, to),
        decreases v.len() - i,
    {
        let c = v[i];
        out.push(if c == from { to } else { c });
        i = i + 1;
        assert(v@.take(i as int) == v@.take(i - 1 as int).push(c));
        assert(out@ == replace_char(v@.take(i as int), from, to));
    }
    assert(v@.take(v@.len() as int) == v@);
    out
}

/// ASCII upper-casing of one character (`char::to_ascii_uppercase`).
pub open spec fn ascii_upper(c: char) -> char {
    if 'a' <= c <= 'z' {
        ((c as u32) - 32) as char
    } else {
        c
    }
}

/// ASCII lower-casing of one character (`char::to_ascii_lowercase`).
pub open spec fn ascii_lower(c: char) -> char {
    if 'A' <= c <= 'Z' {
        ((c as u32) + 32) as char
    } else {
        c
    }
}

/// `str::to_ascii_uppercase`.
pub open spec fn ascii_upper_seq(s: Seq<char>) -> Seq<char> {
    s.map_values(|c: char| ascii_upper(c))
}

/// `str::to_ascii_lowercase`.
pub open spec fn ascii_lower_seq(s: Seq<char>) -> Seq<char> {
    s.map_values(|c: char| ascii_lower(c))
}

/// Upper-cases the ASCII letters of `v`.
pub fn to_ascii_upper(v: &[char]) -> (out: Vec<char>)
    ensures
        out@ == ascii_upper_seq(v@),
{
    let mut out: Vec<char> = Vec::new();
    let mut i: usize = 0;
    while i < v.len()
        invariant
            i <= v@.len(),
            out@ == ascii_upper_seq(v@.take(i as int)),
        decreases v.len() - i,
    {
        let c = v[i];
        let d = if 'a' <= c && c <= 'z' {
            char_from_ascii((c as u32 - 32) as u8)
        } else {
            c
        };
        out.push(d);
        i = i + 1;
        assert(v@.take(i as int) == v@.take(i - 1 as int).push(c));
        assert(out@ == ascii_upper_seq(v@.take(i as int)));
    }
    assert(v@.take(v@.len() as int) == v@);
    out
}

/// Lower-cases the ASCII letters of `v`.
pub fn to_ascii_lower(v: &[char]) -> (out: Vec<char>)
    ensures
        out@ == ascii_lower_seq(v@),
{
    let mut out: Vec<char> = Vec::new();
    let mut i: usize = 0;
    while i < v.len()
        invariant
            i <= v@.len(),
            out@ == ascii_lower_seq(v@.take(i as int)),
        decreases v.len() - i,
    {
        let c = v[i];
        let d = if 'A' <= c && c <= 'Z' {
            char_from_ascii((c as u32 + 32) as u8)
        } else {
            c
        };
        out.push(d);
        i = i + 1;
        assert(v@.take(i as int) == v@.take(i - 1 as int).push(c));
        assert(out@ == ascii_lower_seq(v@.take(i as int)));
    }
    assert(v@.take(v@.len() as int) == v@);
    out
}

/// The character with the given ASCII code.
pub fn char_from_ascii(b: u8) -> (c: char)
    requires
        b < 128,
    ensures
        c as u32 == b as u32,
{
    b as char
}

/// The lower-case hexadecimal digit for `d < 16`.
pub open spec fn hex_digit_char(d: nat) -> char {
    if d < 10 {
        (('0' as u32) + d) as char
    } else {
        (('a' as u32) + d - 10) as char
    }
}

/// The decimal digit for `d < 10`.
pub open spec fn decimal_digit_char(d: nat) -> char {
    (('0' as u32) + d) as char
}

/// Decimal representation of a natural number, without leading zeros.
pub open spec fn decimal(n: nat) -> Seq<char>
    decreases n,
{
    if n < 10 {
        seq![decimal_digit_char(n)]
    } else {
        decimal(n / 10).push(decimal_digit_char(n % 10))
    }
}

/// Decimal representation of an integer, with `-` for negative values
/// (what `Display` writes for integers).
pub open spec fn signed_decimal(n: int) -> Seq<char> {
    if n < 0 {
        seq!['-'] + decimal((-n) as nat)
    } else {
        decimal(n as nat)
    }
}

/// Decimal representation padded with zeros to at least two digits (`{:02}`).
pub open spec fn two_digit(n: nat) -> Seq<char> {
    if n < 10 {
        seq!['0', decimal_digit_char(n)]
    } else {
        decimal(n)
    }
}

/// Appends the decimal representation of `n`.
pub fn push_decimal(out: &mut Vec<char>, n: u64)
    ensures
        final(out)@ == old(out)@ + decimal(n as nat),
    decreases n,
{
    if n < 10 {
        out.push(char_from_ascii(48 + n as u8));
        assert(decimal(n as nat) == seq![decimal_digit_char(n as nat)]);
    } else {
        push_decimal(out, n / 10);
        out.push(char_from_ascii(48 + (n % 10) as u8));
        assert(decimal(n as nat) == decimal((n / 10) as nat).push(decimal_digit_char((n % 10) as nat)));
    }
}

/// Appends the signed decimal representation of `n`.
pub fn push_signed_decimal(out: &mut Vec<char>, n: i64)
    ensures
        final(out)@ == old(out)@ + signed_decimal(n as int),
{
    if n < 0 {
        out.push('-');
        let m: u64 = if n == i64::MIN {
            9223372036854775808u64
        } else {
            (-n) as u64
        };
        let ghost before = out@;
        push_decimal(out, m);
        assert(out@ == old(out)@ + (seq!['-'] + decimal((-n) as nat)));
    } else {
        push_decimal(out, n as u64);
    }
}

/// Appends `n` padded with zeros to two digits.
pub fn push_two_digit(out: &mut Vec<char>, n: u64)
    ensures
        final(out)@ == old(out)@ + two_digit(n as nat),
{
    if n < 10 {
        out.push('0');
        out.push(char_from_ascii(48 + n as u8));
        assert(out@ == old(out)@ + seq!['0', decimal_digit_char(n as nat)]);
    } else {
        push_decimal(out, n);
    }
}

/// The decimal representation of `n` as a `String` (`n.to_string()`).
pub fn decimal_string(n: u64) -> (s: String)
    ensures
        s@ == decimal(n as nat),
{
    let mut v: Vec<char> = Vec::new();
    push_decimal(&mut v, n);
    assert(v@ == decimal(n as nat));
    string_from_chars(&v)
}

/// Whether two strings hold the same characters.
pub fn str_eq(a: &str, b: &str) -> (r: bool)
    ensures
        r == (a@ == b@),
{
    let x = chars_of(a);
    let y = chars_of(b);
    chars_eq(&x, &y)
}

/// Whether two character slices are equal.
pub fn chars_eq(x: &[char], y: &[char]) -> (r: bool)
    ensures
        r == (x@ == y@),
{
    if x.len() != y.len() {
        return false;
    }
    let mut i: usize = 0;
    while i < x.len()
        invariant
            i <= x@.len(),
            x@.len() == y@.len(),
            forall|k: int| 0 <= k < i ==> x@[k] == y@[k],
        decreases x.len() - i,
    {
        if x[i] != y[i] {
            return false;
        }
        i = i + 1;
    }
    assert(x@ == y@);
    true
}

/// The pieces of a list joined with a separator between them.
pub open spec fn join_seqs(list: Seq<Seq<char>>, sep: Seq<char>) -> Seq<char>
    decreases list.len(),
{
    if list.len() == 0 {
        seq![]
    } else if list.len() == 1 {
        list[0]
    } else {
        join_seqs(list.drop_last(), sep) + sep + list.last()
    }
}

/// Joins strings with a separator (`slice::join`).
pub fn join_strings(list: &Vec<String>, sep: &str) -> (out: Vec<char>)
    ensures
        out@ == join_seqs(list@.map_values(|s: String| s@), sep@),
{
    let ghost lv = list@.map_values(|s: String| s@);
    let mut out: Vec<char> = Vec::new();
    let mut i: usize = 0;
    while i < list.len()
        invariant
            i <= list@.len(),
            lv == list@.map_values(|s: String| s@),
            out@ == join_seqs(lv.take(i as int), sep@),
        decreases list.len() - i,
    {
        assert(lv.take(i + 1).drop_last() == lv.take(i as int));
        assert(lv.take(i + 1).last() == list@[i as int]@);
        if i > 0 {
            push_str(&mut out, sep);
        } else {
            assert(lv.take(1) == seq![lv[0]]);
        }
        push_str(&mut out, list[i].as_str());
        i = i + 1;
    }
    assert(lv.take(i as int) == lv);
    out
}

} // verus!
