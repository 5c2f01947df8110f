//! Archiving pictures into the library folder: safe file names, target
//! paths, plan totals, plan states, and the step-by-step protocols that move,
//! resume and roll back files without losing content.

use vstd::prelude::*;
use crate::error::AppError;
use crate::models::{OrganizePlan, OrganizePlanItem};
use crate::paths::{
    is_sep, last_dot, lemma_last_dot, normal_segments, prefix_len, seg_end,
    file_name, join_name, path_key, same_volume, spec_extension, spec_file_name, spec_file_stem,
    spec_join, spec_path_key, spec_same_volume, split_name,
};
use crate::text::{
    ascii_upper, in_class, is_white_space, lemma_trim_fixed, ascii_upper_seq, chars_eq, chars_of, lemma_trim_end_prefix, lemma_trim_start_suffix,
    push_all, push_decimal, push_signed_decimal, push_str, push_two_digit, signed_decimal,
    slice_to_vec, starts_with_chars, starts_with_seq, str_eq, string_from_chars, to_ascii_upper,
    trim_by, trim_chars, trim_end_by, trim_end_chars, trim_start_by, trim_ws, two_digit,
    CharClass,
};
use crate::wrappers::{rfc3339_utc_year_month, spec_rfc3339_utc_year_month};

verus! {

/// Characters that Windows forbids in file names.
pub open spec fn is_forbidden_char(c: char) -> bool {
    c == '<' || c == '>' || c == ':' || c == '"' || c == '/' || c == '\\' || c == '|' || c == '?'
        || c == '*'
}

/// A name with each forbidden character replaced by `_`.
pub open spec fn replace_forbidden(s: Seq<char>) -> Seq<char> {
    s.map_values(|c: char| if is_forbidden_char(c) { '_' } else { c })
}

/// The stem that Windows checks for reserved device names: the file stem of
/// the name, or the whole name when it has no file name.
pub open spec fn reserved_check_stem(name: Seq<char>) -> Seq<char> {
    match spec_file_name(name) {
        Some(n) => spec_file_stem(n),
        None => name,
    }
}

/// Whether a name is a reserved Windows device name (`CON`, `PRN`, `AUX`,
/// `NUL`, `COM1`..`COM9`, `LPT1`..`LPT9`, in any ASCII case, with any extension).
pub open spec fn spec_is_windows_reserved_name(name: Seq<char>) -> bool {
    let s = ascii_upper_seq(reserved_check_stem(name));
    ||| s == "CON"@
    ||| s == "PRN"@
    ||| s == "AUX"@
    ||| s == "NUL"@
    ||| (s.len() == 4 && (starts_with_seq(s, "COM"@) || starts_with_seq(s, "LPT"@)) && '1' <= s[3]
        <= '9')
}

/// Whether a name is a reserved Windows device name.
pub fn is_windows_reserved_name(name: &str) -> (b: bool)
    ensures
        b == spec_is_windows_reserved_name(name@),
{
    let stem: Vec<char> = match file_name(name) {
        Some(n) => split_name(&n).0,
        None => chars_of(name),
    };
    let s = to_ascii_upper(&stem);
    let con = chars_of("CON");
    let prn = chars_of("PRN");
    let aux = chars_of("AUX");
    let nul = chars_of("NUL");
    let com = chars_of("COM");
    let lpt = chars_of("LPT");
    chars_eq(&s, &con) || chars_eq(&s, &prn) || chars_eq(&s, &aux) || chars_eq(&s, &nul) || (
    s.len() == 4 && (starts_with_chars(&s, &com) || starts_with_chars(&s, &lpt)) && '1' <= s[3]
        && s[3] <= '9')
}

/// The name with forbidden characters replaced, white space trimmed, and
/// trailing dots and spaces removed.
pub open spec fn cleaned_name(name: Seq<char>) -> Seq<char> {
    trim_end_by(trim_ws(replace_forbidden(name)), CharClass::DotOrSpace)
}

/// A file name that Windows accepts: forbidden characters become `_`, white
/// space is trimmed and trailing dots and spaces removed; an empty result
/// becomes `untitled-image` and a reserved device name gets a leading `_`.
pub open spec fn spec_sanitize_filename(name: Seq<char>) -> Seq<char> {
    let c = cleaned_name(name);
    if c.len() == 0 {
        "untitled-image"@
    } else if spec_is_windows_reserved_name(c) {
        seq!['_'] + c
    } else {
        c
    }
}

/// A file name that is safe to create on Windows.
pub fn sanitize_filename(name: &str) -> (out: String)
    ensures
        out@ == spec_sanitize_filename(name@),
{
    let v = chars_of(name);
    let mut r: Vec<char> = Vec::new();
    let mut i: usize = 0;
    while i < v.len()
        invariant
            i <= v@.len(),
            r@ == replace_forbidden(v@.take(i as int)),
        decreases v.len() - i,
    {
        let c = v[i];
        let d = if c == '<' || c == '>' || c == ':' || c == '"' || c == '/' || c == '\\' || c
            == '|' || c == '?' || c == '*' {
            '_'
        } else {
            c
        };
        r.push(d);
        i = i + 1;
        assert(v@.take(i as int) == v@.take(i - 1 as int).push(c));
        assert(r@ == replace_forbidden(v@.take(i as int)));
    }
    assert(v@.take(v@.len() as int) == v@);
    let t = trim_chars(&r, CharClass::WhiteSpace);
    let c = trim_end_chars(&t, CharClass::DotOrSpace);
    if c.len() == 0 {
        return String::from_str("untitled-image");
    }
    let cs = string_from_chars(&c);
    if is_windows_reserved_name(cs.as_str()) {
        let mut out: Vec<char> = Vec::new();
        out.push('_');
        push_all(&mut out, &c);
        string_from_chars(&out)
    } else {
        cs
    }
}

/// A sanitized name is never empty, holds no forbidden character, and does
/// not end with a dot or a space.
pub proof fn law_sanitized_name_is_valid(name: Seq<char>)
    ensures
        spec_sanitize_filename(name).len() > 0,
        forall|i: int|
            0 <= i < spec_sanitize_filename(name).len() ==> !is_forbidden_char(
                #[trigger] spec_sanitize_filename(name)[i],
            ),
        spec_sanitize_filename(name).last() != '.' && spec_sanitize_filename(name).last() != ' ',
{
    let r = replace_forbidden(name);
    let t0 = trim_start_by(r, CharClass::WhiteSpace);
    let t = trim_ws(r);
    let c = cleaned_name(name);
    lemma_trim_start_suffix(r, CharClass::WhiteSpace);
    lemma_trim_end_prefix(t0, CharClass::WhiteSpace);
    lemma_trim_end_prefix(t, CharClass::DotOrSpace);
    assert forall|i: int| 0 <= i < c.len() implies !is_forbidden_char(#[trigger] c[i]) by {
        let off = r.len() - t0.len();
        assert(c[i] == t[i]);
        assert(t[i] == t0[i]);
        assert(t0[i] == r[off + i]);
    }
    let out = spec_sanitize_filename(name);
    if c.len() == 0 {
        reveal_strlit("untitled-image");
        assert(out == "untitled-image"@);
    } else if spec_is_windows_reserved_name(c) {
        assert forall|i: int| 0 <= i < out.len() implies !is_forbidden_char(#[trigger] out[i]) by {
            if i > 0 {
                assert(out[i] == c[i - 1]);
            }
        }
        assert(out.last() == c.last());
    }
}

/// A name of no separator runs to its end as one segment.
proof fn lemma_seg_end_whole(s: Seq<char>)
    requires
        forall|i: int| 0 <= i < s.len() ==> !is_sep(#[trigger] s[i]),
    ensures
        seg_end(s) == s.len(),
    decreases s.len(),
{
    if s.len() > 0 {
        assert(!is_sep(s[0]));
        assert forall|i: int| 0 <= i < s.drop_first().len() implies !is_sep(
            #[trigger] s.drop_first()[i],
        ) by {
            assert(s.drop_first()[i] == s[i + 1]);
        }
        lemma_seg_end_whole(s.drop_first());
    }
}

/// A name with no forbidden character that does not start with a dot is its
/// own file name, and the stem checked for device names starts with its first
/// character.
proof fn lemma_plain_name_stem(s: Seq<char>)
    requires
        s.len() > 0,
        forall|i: int| 0 <= i < s.len() ==> !is_forbidden_char(#[trigger] s[i]),
        s[0] != '.',
    ensures
        reserved_check_stem(s).len() > 0,
        reserved_check_stem(s)[0] == s[0],
{
    assert forall|i: int| 0 <= i < s.len() implies !is_sep(#[trigger] s[i]) by {
        assert(!is_forbidden_char(s[i]));
    }
    lemma_seg_end_whole(s);
    if s.len() >= 2 {
        assert(!is_forbidden_char(s[1]));
    }
    assert(prefix_len(s) == 0);
    assert(s.skip(0) =~= s);
    assert(s.take(s.len() as int) =~= s);
    assert(s != seq!['.']) by {
        assert(seq!['.'][0] == '.');
    }
    assert(normal_segments(s) == seq![s]);
    assert(s != seq!['.', '.']) by {
        assert(seq!['.', '.'][0] == '.');
    }
    assert(spec_file_name(s) == Some(s));
    lemma_last_dot(s);
    match last_dot(s) {
        Some(i) => {
            if i != 0 {
                assert(s.take(i)[0] == s[0]);
            }
        },
        None => {},
    }
}

/// A name whose stem starts with a character that upper-cases to none of the
/// first letters of the device names is no device name.
proof fn lemma_not_reserved_by_first(s: Seq<char>)
    requires
        reserved_check_stem(s).len() > 0,
        ascii_upper(reserved_check_stem(s)[0]) != 'C',
        ascii_upper(reserved_check_stem(s)[0]) != 'P',
        ascii_upper(reserved_check_stem(s)[0]) != 'A',
        ascii_upper(reserved_check_stem(s)[0]) != 'N',
        ascii_upper(reserved_check_stem(s)[0]) != 'L',
    ensures
        !spec_is_windows_reserved_name(s),
{
    let u = ascii_upper_seq(reserved_check_stem(s));
    assert(u[0] == ascii_upper(reserved_check_stem(s)[0]));
    reveal_strlit("CON");
    reveal_strlit("PRN");
    reveal_strlit("AUX");
    reveal_strlit("NUL");
    reveal_strlit("COM");
    reveal_strlit("LPT");
    assert(u != "CON"@ && u != "PRN"@ && u != "AUX"@ && u != "NUL"@) by {
        assert("CON"@[0] == 'C' && "PRN"@[0] == 'P' && "AUX"@[0] == 'A' && "NUL"@[0] == 'N');
    }
    if u.len() == 4 {
        assert(!starts_with_seq(u, "COM"@)) by {
            assert(u.take(3)[0] == u[0]);
            assert("COM"@[0] == 'C');
        }
        assert(!starts_with_seq(u, "LPT"@)) by {
            assert(u.take(3)[0] == u[0]);
            assert("LPT"@[0] == 'L');
        }
    }
}

/// The name used when nothing of a file name is left is no device name.
proof fn lemma_fallback_name_plain()
    ensures
        !spec_is_windows_reserved_name("untitled-image"@),
        "untitled-image"@.len() > 0,
        "untitled-image"@[0] == 'u',
        "untitled-image"@.last() == 'e',
        forall|i: int|
            0 <= i < "untitled-image"@.len() ==> !is_forbidden_char(#[trigger] "untitled-image"@[i]),
{
    reveal_strlit("untitled-image");
    let s = "untitled-image"@;
    lemma_plain_name_stem(s);
    assert(ascii_upper('u') == 'U');
    lemma_not_reserved_by_first(s);
}

/// A sanitized name is never a reserved Windows device name.
pub proof fn law_sanitized_name_not_reserved(name: Seq<char>)
    ensures
        !spec_is_windows_reserved_name(spec_sanitize_filename(name)),
{
    let c = cleaned_name(name);
    let out = spec_sanitize_filename(name);
    law_sanitized_name_is_valid(name);
    if c.len() == 0 {
        lemma_fallback_name_plain();
    } else if spec_is_windows_reserved_name(c) {
        assert(out == seq!['_'] + c);
        assert(out[0] == '_');
        lemma_plain_name_stem(out);
        assert(ascii_upper('_') == '_');
        lemma_not_reserved_by_first(out);
    }
}

/// Replacing forbidden characters and trimming leading white space can be
/// done in either order: no forbidden character, nor `_`, is white space.
proof fn lemma_replace_trim_start(s: Seq<char>)
    ensures
        trim_start_by(replace_forbidden(s), CharClass::WhiteSpace) == replace_forbidden(
            trim_start_by(s, CharClass::WhiteSpace),
        ),
    decreases s.len(),
{
    let r = replace_forbidden(s);
    if s.len() > 0 {
        assert(in_class(CharClass::WhiteSpace, r[0]) == in_class(CharClass::WhiteSpace, s[0]));
        if in_class(CharClass::WhiteSpace, s[0]) {
            assert(replace_forbidden(s.drop_first()) =~= r.drop_first());
            lemma_replace_trim_start(s.drop_first());
        }
    }
}

/// The same for trailing white space.
proof fn lemma_replace_trim_end(s: Seq<char>)
    ensures
        trim_end_by(replace_forbidden(s), CharClass::WhiteSpace) == replace_forbidden(
            trim_end_by(s, CharClass::WhiteSpace),
        ),
    decreases s.len(),
{
    let r = replace_forbidden(s);
    if s.len() > 0 {
        assert(r.last() == r[r.len() - 1]);
        assert(in_class(CharClass::WhiteSpace, r.last()) == in_class(CharClass::WhiteSpace, s.last()));
        if in_class(CharClass::WhiteSpace, s.last()) {
            assert(replace_forbidden(s.drop_last()) =~= r.drop_last());
            lemma_replace_trim_end(s.drop_last());
        }
    }
}

/// Trimming a class from the end of a sequence made only of that class
/// leaves nothing.
proof fn lemma_trim_end_all(s: Seq<char>, cls: CharClass)
    requires
        forall|i: int| 0 <= i < s.len() ==> in_class(cls, #[trigger] s[i]),
    ensures
        trim_end_by(s, cls).len() == 0,
    decreases s.len(),
{
    if s.len() > 0 {
        assert(in_class(cls, s[s.len() - 1]));
        assert forall|i: int| 0 <= i < s.drop_last().len() implies in_class(
            cls,
            #[trigger] s.drop_last()[i],
        ) by {
            assert(s.drop_last()[i] == s[i]);
        }
        lemma_trim_end_all(s.drop_last(), cls);
    }
}

/// A name that, once white space is trimmed from both ends, holds only dots
/// and spaces becomes `untitled-image`.
pub proof fn law_sanitize_falls_back(name: Seq<char>)
    requires
        forall|i: int|
            0 <= i < trim_ws(name).len() ==> #[trigger] trim_ws(name)[i] == '.' || trim_ws(name)[i]
                == ' ',
    ensures
        spec_sanitize_filename(name) == "untitled-image"@,
{
    let t = trim_ws(name);
    let t0 = trim_start_by(name, CharClass::WhiteSpace);
    lemma_replace_trim_start(name);
    lemma_replace_trim_end(t0);
    assert(trim_ws(replace_forbidden(name)) == replace_forbidden(t));
    assert(replace_forbidden(t) =~= t) by {
        assert forall|i: int| 0 <= i < t.len() implies #[trigger] replace_forbidden(t)[i] == t[i] by {
            assert(t[i] == '.' || t[i] == ' ');
        }
    }
    assert forall|i: int| 0 <= i < t.len() implies in_class(CharClass::DotOrSpace, #[trigger] t[i]) by {
        assert(t[i] == '.' || t[i] == ' ');
    }
    lemma_trim_end_all(t, CharClass::DotOrSpace);
}

/// Sanitizing a sanitized name changes nothing, when the only white space
/// the name holds is the plain space.
pub proof fn law_sanitize_idempotent(name: Seq<char>)
    requires
        forall|i: int| 0 <= i < name.len() && is_white_space(#[trigger] name[i]) ==> name[i] == ' ',
    ensures
        spec_sanitize_filename(spec_sanitize_filename(name)) == spec_sanitize_filename(name),
{
    let out = spec_sanitize_filename(name);
    let r = replace_forbidden(name);
    let t0 = trim_start_by(r, CharClass::WhiteSpace);
    let t = trim_ws(r);
    let c = cleaned_name(name);
    law_sanitized_name_is_valid(name);
    law_sanitized_name_not_reserved(name);
    lemma_trim_start_suffix(r, CharClass::WhiteSpace);
    lemma_trim_end_prefix(t0, CharClass::WhiteSpace);
    lemma_trim_end_prefix(t, CharClass::DotOrSpace);
    if c.len() == 0 {
        lemma_fallback_name_plain();
    } else {
        let off = r.len() - t0.len();
        assert(c.last() == r[off + c.len() - 1]) by {
            assert(c.last() == t[c.len() - 1]);
            assert(t[c.len() - 1] == t0[c.len() - 1]);
        }
        assert(!is_white_space(c.last())) by {
            assert(c.last() != ' ' && c.last() != '.');
            let j = off + c.len() - 1;
            assert(r[j] == (if is_forbidden_char(name[j]) { '_' } else { name[j] }));
        }
        assert(!is_white_space(c[0])) by {
            assert(c[0] == t[0]);
            assert(t[0] == t0[0]);
        }
    }
    assert(out.len() > 0 && !is_white_space(out[0]) && !is_white_space(out.last())) by {
        if c.len() > 0 && spec_is_windows_reserved_name(c) {
            assert(out[0] == '_');
            assert(out.last() == c.last());
        }
    }
    assert(replace_forbidden(out) =~= out) by {
        assert forall|i: int| 0 <= i < out.len() implies #[trigger] replace_forbidden(out)[i]
            == out[i] by {
            assert(!is_forbidden_char(out[i]));
        }
    }
    lemma_trim_fixed(out, CharClass::WhiteSpace);
    assert(cleaned_name(out) == out);
}

/// The year and month a picture is archived under: those of its capture
/// time (RFC 3339, read in UTC), or the given current ones when the capture
/// time does not parse.
pub open spec fn spec_archive_month(captured_at: Seq<char>, now_year: i32, now_month: u32) -> (i32, u32) {
    match spec_rfc3339_utc_year_month(captured_at) {
        Some(ym) => ym,
        None => (now_year, now_month),
    }
}

/// The year and month a picture is archived under.
pub fn archive_month(captured_at: &str, now_year: i32, now_month: u32) -> (out: (i32, u32))
    ensures
        out == spec_archive_month(captured_at@, now_year, now_month),
        now_month <= 12 ==> out.1 <= 12,
{
    match rfc3339_utc_year_month(captured_at) {
        Some(ym) => ym,
        None => (now_year, now_month),
    }
}

/// `library_root\YYYY\MM`: the folder of an archive month.
pub open spec fn spec_target_dir(library_root: Seq<char>, year: i32, month: u32) -> Seq<char> {
    spec_join(spec_join(library_root, signed_decimal(year as int)), two_digit(month as nat))
}

/// The folder that pictures of an archive month move to.
pub fn target_dir(library_root: &str, year: i32, month: u32) -> (out: Vec<char>)
    ensures
        out@ == spec_target_dir(library_root@, year, month),
{
    let root = chars_of(library_root);
    let mut y: Vec<char> = Vec::new();
    push_signed_decimal(&mut y, year as i64);
    let mut m: Vec<char> = Vec::new();
    push_two_digit(&mut m, month as u64);
    let a = join_name(&root, &y);
    join_name(&a, &m)
}

/// The first eight characters of a content hash.
pub open spec fn hash_prefix(hash: Seq<char>) -> Seq<char> {
    if hash.len() <= 8 {
        hash
    } else {
        hash.take(8)
    }
}

/// The file name of the `index`-th alternative for a taken target name:
/// `stem_hash8.ext`, then `stem_hash8-1.ext`, `stem_hash8-2.ext`, ...
pub open spec fn spec_alternative_name(name: Seq<char>, hash: Seq<char>, index: nat) -> Seq<char> {
    let suffix = if index == 0 {
        hash_prefix(hash)
    } else {
        hash_prefix(hash) + seq!['-'] + crate::text::decimal(index)
    };
    let stem = spec_file_stem(name);
    match spec_extension(name) {
        Some(e) => stem + seq!['_'] + suffix + seq!['.'] + e,
        None => stem + seq!['_'] + suffix,
    }
}

/// How many target paths are tried for one picture before giving up.
pub const TARGET_ATTEMPTS: u32 = 10001;

/// The target path tried at `attempt`: the plain name first, then the
/// alternatives in order.
pub open spec fn spec_candidate_target(dir: Seq<char>, name: Seq<char>, hash: Seq<char>, attempt: nat) -> Seq<char> {
    if attempt == 0 {
        spec_join(dir, name)
    } else {
        spec_join(dir, spec_alternative_name(name, hash, (attempt - 1) as nat))
    }
}

/// The target path tried at `attempt` for a file `name` moving into `dir`.
pub fn candidate_target(dir: &[char], name: &str, hash: &str, attempt: u32) -> (out: String)
    ensures
        out@ == spec_candidate_target(dir@, name@, hash@, attempt as nat),
{
    let n = chars_of(name);
    if attempt == 0 {
        let p = join_name(dir, &n);
        return string_from_chars(&p);
    }
    let h = chars_of(hash);
    let prefix = if h.len() <= 8 {
        slice_to_vec(&h, 0, h.len())
    } else {
        slice_to_vec(&h, 0, 8)
    };
    assert(h@.subrange(0, h@.len() as int) == h@);
    let mut suffix = prefix;
    let index = attempt - 1;
    if index > 0 {
        suffix.push('-');
        push_decimal(&mut suffix, index as u64);
    }
    let (stem, ext) = split_name(&n);
    let mut file: Vec<char> = stem;
    file.push('_');
    push_all(&mut file, &suffix);
    match ext {
        Some(e) => {
            file.push('.');
            push_all(&mut file, &e);
        },
        None => {},
    }
    let p = join_name(dir, &file);
    string_from_chars(&p)
}

/// The targets tried for a file, in order: first its own name in the
/// folder; then its stem followed by `_` and the first eight characters of
/// its content hash (all of it when shorter), keeping its extension; then
/// the same with `-1`, `-2`, ... after the hash characters.
pub proof fn law_target_candidates(dir: Seq<char>, name: Seq<char>, hash: Seq<char>, attempt: nat)
    ensures
        spec_candidate_target(dir, name, hash, 0) == spec_join(dir, name),
        attempt >= 1 ==> ({
            let h = if hash.len() <= 8 {
                hash
            } else {
                hash.subrange(0, 8)
            };
            let suffix = if attempt == 1 {
                h
            } else {
                h + "-"@ + crate::text::decimal((attempt - 1) as nat)
            };
            spec_candidate_target(dir, name, hash, attempt) == spec_join(
                dir,
                match spec_extension(name) {
                    Some(e) => spec_file_stem(name) + "_"@ + suffix + "."@ + e,
                    None => spec_file_stem(name) + "_"@ + suffix,
                },
            )
        }),
{
    reveal_strlit("-");
    reveal_strlit("_");
    reveal_strlit(".");
    if attempt >= 1 {
        let h = hash_prefix(hash);
        if hash.len() > 8 {
            assert(hash.take(8) == hash.subrange(0, 8));
        }
        let stem = spec_file_stem(name);
        if attempt > 1 {
            assert(h + seq!['-'] + crate::text::decimal((attempt - 1) as nat) == h + "-"@
                + crate::text::decimal((attempt - 1) as nat));
        }
        match spec_extension(name) {
            Some(e) => {
                assert(seq!['_'] == "_"@ && seq!['.'] == "."@);
            },
            None => {
                assert(seq!['_'] == "_"@);
            },
        }
    }
}

/// What choosing a target does after learning whether the candidate at one
/// attempt is taken.
#[derive(Debug, Clone, Copy, PartialEq, Eq, Structural)]
pub enum TargetStep {
    /// Use this candidate; `conflict` tells whether an earlier one was taken.
    Use { conflict: bool },
    /// Try the candidate at this attempt next.
    Next(u32),
    /// Every candidate is taken.
    GiveUp,
}

/// The step after the candidate at `attempt` (see `candidate_target`) was
/// found free or taken: the first free candidate is used, and it is a
/// conflict unless it is the plain name; after `TARGET_ATTEMPTS` taken
/// candidates choosing gives up with `NoUniqueTarget`.
pub fn target_step(attempt: u32, taken: bool) -> (out: TargetStep)
    requires
        attempt < TARGET_ATTEMPTS,
    ensures
        !taken ==> out == (TargetStep::Use { conflict: attempt > 0 }),
        taken && attempt + 1 < TARGET_ATTEMPTS ==> out == TargetStep::Next((attempt + 1) as u32),
        taken && attempt + 1 == TARGET_ATTEMPTS ==> out == TargetStep::GiveUp,
{
    if !taken {
        TargetStep::Use { conflict: attempt > 0 }
    } else if attempt + 1 < TARGET_ATTEMPTS {
        TargetStep::Next(attempt + 1)
    } else {
        TargetStep::GiveUp
    }
}

/// Targets already chosen within one plan, by their path key; each key is
/// held once.
pub struct ReservedTargets {
    keys: Vec<String>,
}

impl ReservedTargets {
    /// No key is held twice.
    #[verifier::type_invariant]
    spec fn keys_distinct(&self) -> bool {
        self.keys@.map_values(|x: String| x@).no_duplicates()
    }

    /// The keys reserved so far.
    pub closed spec fn key_set(&self) -> Set<Seq<char>> {
        Set::new(|k: Seq<char>| self.keys@.map_values(|x: String| x@).contains(k))
    }

    /// No target is reserved.
    pub fn new() -> (r: Self)
        ensures
            r.key_set() == Set::<Seq<char>>::empty(),
    {
        let keys: Vec<String> = Vec::new();
        assert(keys@.map_values(|k: String| k@) =~= Seq::<Seq<char>>::empty());
        let r = ReservedTargets { keys };
        assert(r.key_set() =~= Set::<Seq<char>>::empty());
        r
    }

    /// Whether the key is held.
    fn holds_key(&self, k: &String) -> (b: bool)
        ensures
            b == self.key_set().contains(k@),
    {
        let ghost kv = self.keys@.map_values(|x: String| x@);
        let mut i: usize = 0;
        while i < self.keys.len()
            invariant
                i <= self.keys@.len(),
                kv == self.keys@.map_values(|x: String| x@),
                forall|j: int| 0 <= j < i ==> kv[j] != k@,
            decreases self.keys.len() - i,
        {
            if self.keys[i] == *k {
                assert(kv[i as int] == k@);
                assert(kv.contains(k@));
                return true;
            }
            i = i + 1;
        }
        assert(!kv.contains(k@));
        false
    }

    /// Whether a target with the same key is reserved.
    pub fn contains(&self, path: &str) -> (b: bool)
        ensures
            b == self.key_set().contains(spec_path_key(path@)),
    {
        let k = path_key(path);
        self.holds_key(&k)
    }

    /// Reserves a target; reserving one whose key is held changes nothing.
    pub fn insert(&mut self, path: &str)
        ensures
            final(self).key_set() == old(self).key_set().insert(spec_path_key(path@)),
    {
        proof {
            use_type_invariant(&*self);
        }
        let k = path_key(path);
        if self.holds_key(&k) {
            assert(self.key_set() =~= old(self).key_set().insert(spec_path_key(path@)));
            return;
        }
        let ghost before = self.keys@.map_values(|x: String| x@);
        let mut keys: Vec<String> = Vec::new();
        std::mem::swap(&mut keys, &mut self.keys);
        assert(keys@.map_values(|x: String| x@) == before);
        keys.push(k);
        let ghost after = keys@.map_values(|x: String| x@);
        assert(after =~= before.push(spec_path_key(path@)));
        assert(!before.contains(spec_path_key(path@)));
        assert(after.no_duplicates()) by {
            assert forall|a: int, b: int| 0 <= a < after.len() && 0 <= b < after.len() && a != b
                implies after[a] != after[b] by {
                if a == before.len() {
                    assert(before[b] == after[b]);
                } else if b == before.len() {
                    assert(before[a] == after[a]);
                } else {
                    assert(before[a] == after[a] && before[b] == after[b]);
                }
            }
        }
        assert forall|q: Seq<char>| after.contains(q) <==> (before.contains(q) || q == spec_path_key(
            path@,
        )) by {
            if after.contains(q) {
                let j = choose|j: int| 0 <= j < after.len() && after[j] == q;
                if j < before.len() {
                    assert(before[j] == q);
                }
            }
            if before.contains(q) {
                let j = choose|j: int| 0 <= j < before.len() && before[j] == q;
                assert(after[j] == q);
            }
            if q == spec_path_key(path@) {
                assert(after[before.len() as int] == q);
            }
        }
        self.keys = keys;
        assert(self.key_set() =~= old(self).key_set().insert(spec_path_key(path@)));
    }
}

/// A reserved target stays reserved, and reserving one target reserves
/// exactly the paths with its key.
pub proof fn law_reservation(keys: Set<Seq<char>>, p: Seq<char>, q: Seq<char>)
    ensures
        keys.insert(spec_path_key(p)).contains(spec_path_key(q)) <==> (keys.contains(spec_path_key(q))
            || spec_path_key(q) == spec_path_key(p)),
{
}

/// Why a picture is archived where it is.
pub open spec fn spec_organize_reason(category: Seq<char>, year: i32, month: u32) -> Seq<char> {
    if category == "screenshot"@ {
        "检测到截图特征，按拍摄月份归档"@
    } else if category == "wechat"@ {
        "来自微信图片目录，按拍摄月份归档"@
    } else if category == "download"@ {
        "来自下载目录，按拍摄月份归档"@
    } else {
        "按拍摄时间 "@ + signed_decimal(year as int) + seq!['-'] + two_digit(month as nat) + " 归档"@
    }
}

/// The reason shown for a planned move.
pub fn organize_reason(category: &str, year: i32, month: u32) -> (out: String)
    ensures
        out@ == spec_organize_reason(category@, year, month),
{
    if str_eq(category, "screenshot") {
        String::from_str("检测到截图特征，按拍摄月份归档")
    } else if str_eq(category, "wechat") {
        String::from_str("来自微信图片目录，按拍摄月份归档")
    } else if str_eq(category, "download") {
        String::from_str("来自下载目录，按拍摄月份归档")
    } else {
        let mut v = chars_of("按拍摄时间 ");
        push_signed_decimal(&mut v, year as i64);
        v.push('-');
        push_two_digit(&mut v, month as u64);
        push_str(&mut v, " 归档");
        string_from_chars(&v)
    }
}

/// Why a picture is archived: screenshots, WeChat pictures and downloads
/// name where they were recognised; every other picture names its capture
/// year and month, as `按拍摄时间 YYYY-MM 归档`.
pub proof fn law_archive_reason(category: Seq<char>, year: i32, month: u32)
    ensures
        category == "screenshot"@ ==> spec_organize_reason(category, year, month)
            == "检测到截图特征，按拍摄月份归档"@,
        category == "wechat"@ ==> spec_organize_reason(category, year, month)
            == "来自微信图片目录，按拍摄月份归档"@,
        category == "download"@ ==> spec_organize_reason(category, year, month)
            == "来自下载目录，按拍摄月份归档"@,
        (category != "screenshot"@ && category != "wechat"@ && category != "download"@) ==> (
        spec_organize_reason(category, year, month) == "按拍摄时间 "@ + signed_decimal(year as int)
            + seq!['-'] + two_digit(month as nat) + " 归档"@),
{
    reveal_strlit("screenshot");
    reveal_strlit("wechat");
    reveal_strlit("download");
    assert("screenshot"@.len() == 10 && "wechat"@.len() == 6 && "download"@.len() == 8);
}

/// Sum of the sizes of planned moves.
pub open spec fn total_bytes(items: Seq<OrganizePlanItem>) -> int
    decreases items.len(),
{
    if items.len() == 0 {
        0
    } else {
        total_bytes(items.drop_last()) + items.last().bytes
    }
}

/// Number of planned moves whose first-choice target was taken.
pub open spec fn conflict_count(items: Seq<OrganizePlanItem>) -> int
    decreases items.len(),
{
    if items.len() == 0 {
        0
    } else {
        conflict_count(items.drop_last()) + if items.last().conflict {
            1int
        } else {
            0int
        }
    }
}

/// Sum of the sizes of planned moves that cross volumes and so need a copy.
pub open spec fn copy_bytes(items: Seq<OrganizePlanItem>) -> int
    decreases items.len(),
{
    if items.len() == 0 {
        0
    } else {
        copy_bytes(items.drop_last()) + if !spec_same_volume(
            items.last().source_path@,
            items.last().target_path@,
        ) {
            items.last().bytes as int
        } else {
            0int
        }
    }
}

/// Whether every running sum over the items stays within `i64`.
pub open spec fn sums_fit(items: Seq<OrganizePlanItem>) -> bool {
    forall|k: int|
        0 <= k <= items.len() ==> i64::MIN <= #[trigger] total_bytes(items.take(k)) <= i64::MAX
            && i64::MIN <= copy_bytes(items.take(k)) <= i64::MAX
}

/// Free space reported for the library volume, as an `i64` (saturating).
pub open spec fn clamp_i64(n: u64) -> i64 {
    if n > i64::MAX as u64 {
        i64::MAX
    } else {
        n as i64
    }
}

/// Whether the running sums of a plan's sizes, and of the sizes it must copy
/// across volumes, all fit in `i64`.
pub fn plan_sums_fit(items: &Vec<OrganizePlanItem>) -> (b: bool)
    ensures
        b == sums_fit(items@),
{
    let mut total: i64 = 0;
    let mut copies: i64 = 0;
    let mut i: usize = 0;
    assert(items@.take(0) =~= Seq::<OrganizePlanItem>::empty());
    while i < items.len()
        invariant
            i <= items@.len(),
            total == total_bytes(items@.take(i as int)),
            copies == copy_bytes(items@.take(i as int)),
            forall|k: int|
                0 <= k <= i ==> i64::MIN <= #[trigger] total_bytes(items@.take(k)) <= i64::MAX
                    && i64::MIN <= copy_bytes(items@.take(k)) <= i64::MAX,
        decreases items.len() - i,
    {
        let ghost t = items@.take(i + 1);
        assert(t.drop_last() == items@.take(i as int));
        assert(t.last() == items@[i as int]);
        let item = &items[i];
        let next_total = total as i128 + item.bytes as i128;
        if next_total < i64::MIN as i128 || next_total > i64::MAX as i128 {
            assert(!(i64::MIN <= total_bytes(t) <= i64::MAX));
            return false;
        }
        let crosses = !same_volume(item.source_path.as_str(), item.target_path.as_str());
        let next_copies = if crosses {
            copies as i128 + item.bytes as i128
        } else {
            copies as i128
        };
        if next_copies < i64::MIN as i128 || next_copies > i64::MAX as i128 {
            assert(!(i64::MIN <= copy_bytes(t) <= i64::MAX));
            return false;
        }
        total = next_total as i64;
        copies = next_copies as i64;
        i = i + 1;
    }
    assert(items@.take(i as int) == items@);
    true
}

/// A plan with its totals: the sum of sizes, the number of conflicts, the
/// bytes that must be copied across volumes, the free space, and whether it suffices.
pub fn summarize_plan(id: String, items: Vec<OrganizePlanItem>, available: u64) -> (plan: OrganizePlan)
    requires
        sums_fit(items@),
        items@.len() <= i64::MAX,
    ensures
        plan.id == id,
        plan.items@ == items@,
        plan.total_bytes == total_bytes(items@),
        plan.conflicts == conflict_count(items@),
        plan.required_copy_bytes == copy_bytes(items@),
        plan.available_bytes == clamp_i64(available),
        plan.disk_space_ok == (clamp_i64(available) >= copy_bytes(items@)),
{
    let mut total: i64 = 0;
    let mut conflicts: i64 = 0;
    let mut required: i64 = 0;
    let mut i: usize = 0;
    while i < items.len()
        invariant
            i <= items@.len(),
            items@.len() <= i64::MAX,
            sums_fit(items@),
            total == total_bytes(items@.take(i as int)),
            conflicts == conflict_count(items@.take(i as int)),
            0 <= conflicts <= i,
            required == copy_bytes(items@.take(i as int)),
        decreases items.len() - i,
    {
        let ghost t = items@.take(i + 1);
        assert(t.drop_last() == items@.take(i as int));
        assert(t.last() == items@[i as int]);
        assert(i64::MIN <= total_bytes(t) <= i64::MAX && i64::MIN <= copy_bytes(t) <= i64::MAX);
        let item = &items[i];
        total = total + item.bytes;
        if item.conflict {
            conflicts = conflicts + 1;
        }
        if !same_volume(item.source_path.as_str(), item.target_path.as_str()) {
            required = required + item.bytes;
        }
        i = i + 1;
    }
    assert(items@.take(i as int) == items@);
    let available_bytes: i64 = if available > 0x7fff_ffff_ffff_ffff {
        0x7fff_ffff_ffff_ffff
    } else {
        available as i64
    };
    OrganizePlan {
        id,
        items,
        total_bytes: total,
        conflicts,
        required_copy_bytes: required,
        available_bytes,
        disk_space_ok: available_bytes >= required,
    }
}

/// How applying and recovering a plan end: `Completed` exactly when nothing
/// is left to do (for recovery: nothing remaining and nothing failed),
/// `Partial` when something is left but some pictures were moved, `Failed`
/// when something is left and nothing was moved.
pub proof fn law_plan_outcome(remaining: i64, moved: i64, failed: i64)
    ensures
        (spec_status_after_apply(remaining, moved) == PlanStatus::Completed) <==> remaining == 0,
        (spec_status_after_apply(remaining, moved) == PlanStatus::Partial) <==> (remaining != 0
            && moved > 0),
        (spec_status_after_apply(remaining, moved) == PlanStatus::Failed) <==> (remaining != 0
            && moved <= 0),
        (spec_status_after_recovery(moved, remaining, failed) == PlanStatus::Completed) <==> (
        remaining + failed == 0),
        (spec_status_after_recovery(moved, remaining, failed) == PlanStatus::Partial) <==> (
        remaining + failed != 0 && moved > 0),
        (spec_status_after_recovery(moved, remaining, failed) == PlanStatus::Failed) <==> (
        remaining + failed != 0 && moved <= 0),
{
}

/// The states an archive plan goes through.
#[derive(Debug, Clone, Copy, PartialEq, Eq, Structural)]
pub enum PlanStatus {
    Planned,
    Running,
    Partial,
    Failed,
    Completed,
    Undone,
    RollbackFailed,
}

/// The text stored for a plan state.
pub open spec fn spec_status_text(s: PlanStatus) -> Seq<char> {
    match s {
        PlanStatus::Planned => "planned"@,
        PlanStatus::Running => "running"@,
        PlanStatus::Partial => "partial"@,
        PlanStatus::Failed => "failed"@,
        PlanStatus::Completed => "completed"@,
        PlanStatus::Undone => "undone"@,
        PlanStatus::RollbackFailed => "rollback_failed"@,
    }
}

impl PlanStatus {
    /// The text stored for the state.
    pub fn text(&self) -> (t: &'static str)
        ensures
            t@ == spec_status_text(*self),
    {
        match self {
            PlanStatus::Planned => "planned",
            PlanStatus::Running => "running",
            PlanStatus::Partial => "partial",
            PlanStatus::Failed => "failed",
            PlanStatus::Completed => "completed",
            PlanStatus::Undone => "undone",
            PlanStatus::RollbackFailed => "rollback_failed",
        }
    }

    /// The state a stored text names, if any.
    pub fn from_text(t: &str) -> (s: Option<PlanStatus>)
        ensures
            s matches Some(x) ==> spec_status_text(x) == t@,
            s is None ==> forall|x: PlanStatus| spec_status_text(x) != t@,
    {
        if str_eq(t, "planned") {
            Some(PlanStatus::Planned)
        } else if str_eq(t, "running") {
            Some(PlanStatus::Running)
        } else if str_eq(t, "partial") {
            Some(PlanStatus::Partial)
        } else if str_eq(t, "failed") {
            Some(PlanStatus::Failed)
        } else if str_eq(t, "completed") {
            Some(PlanStatus::Completed)
        } else if str_eq(t, "undone") {
            Some(PlanStatus::Undone)
        } else if str_eq(t, "rollback_failed") {
            Some(PlanStatus::RollbackFailed)
        } else {
            None
        }
    }
}

/// Whether a plan may be applied, and whether targets left by an earlier
/// interrupted run may be adopted: only planned, partial and failed plans
/// run, and only the latter two resume.
pub fn apply_gate(status: Option<PlanStatus>) -> (out: Result<bool, AppError>)
    ensures
        out is Ok <==> (status == Some(PlanStatus::Planned) || status == Some(PlanStatus::Partial)
            || status == Some(PlanStatus::Failed)),
        out matches Ok(resume) ==> resume == (status != Some(PlanStatus::Planned)),
        out matches Err(e) ==> e == AppError::PlanNotRunnable,
{
    match status {
        Some(PlanStatus::Planned) => Ok(false),
        Some(PlanStatus::Partial) => Ok(true),
        Some(PlanStatus::Failed) => Ok(true),
        _ => Err(AppError::PlanNotRunnable),
    }
}

/// The state of a plan after applying it: completed when nothing remains,
/// partial when something moved, failed otherwise.
pub open spec fn spec_status_after_apply(remaining: i64, total_moved: i64) -> PlanStatus {
    if remaining == 0 {
        PlanStatus::Completed
    } else if total_moved > 0 {
        PlanStatus::Partial
    } else {
        PlanStatus::Failed
    }
}

/// The state of a plan after applying it.
pub fn status_after_apply(remaining: i64, total_moved: i64) -> (s: PlanStatus)
    ensures
        s == spec_status_after_apply(remaining, total_moved),
{
    if remaining == 0 {
        PlanStatus::Completed
    } else if total_moved > 0 {
        PlanStatus::Partial
    } else {
        PlanStatus::Failed
    }
}

/// The state of a plan after recovering it at start-up: completed when no
/// item is planned or failed, partial when something moved, failed otherwise.
pub open spec fn spec_status_after_recovery(moved: i64, remaining: i64, failed: i64) -> PlanStatus {
    if remaining + failed == 0 {
        PlanStatus::Completed
    } else if moved > 0 {
        PlanStatus::Partial
    } else {
        PlanStatus::Failed
    }
}

/// The state of a plan after recovering it at start-up.
pub fn status_after_recovery(moved: i64, remaining: i64, failed: i64) -> (s: PlanStatus)
    requires
        i64::MIN <= remaining + failed <= i64::MAX,
    ensures
        s == spec_status_after_recovery(moved, remaining, failed),
{
    if remaining + failed == 0 {
        PlanStatus::Completed
    } else if moved > 0 {
        PlanStatus::Partial
    } else {
        PlanStatus::Failed
    }
}

/// The state of a plan after a rollback.
pub fn status_after_rollback(failures: u32) -> (s: PlanStatus)
    ensures
        s == (if failures == 0 {
            PlanStatus::Undone
        } else {
            PlanStatus::RollbackFailed
        }),
{
    if failures == 0 {
        PlanStatus::Undone
    } else {
        PlanStatus::RollbackFailed
    }
}

/// The activity entry written after applying a plan.
pub open spec fn spec_organize_activity(moved: u32, failed: u32) -> (Seq<char>, Seq<char>) {
    (
        "整理了 "@ + crate::text::decimal(moved as nat) + " 张图片"@,
        if failed == 0 {
            "已按拍摄月份归档到 PicNest 图库"@
        } else {
            "部分文件未移动，原文件仍保留"@
        },
    )
}

/// Title and detail of the activity entry written after applying a plan.
pub fn organize_activity(moved: u32, failed: u32) -> (out: (String, String))
    ensures
        (out.0@, out.1@) == spec_organize_activity(moved, failed),
{
    let mut t = chars_of("整理了 ");
    push_decimal(&mut t, moved as u64);
    push_str(&mut t, " 张图片");
    let d = if failed == 0 {
        "已按拍摄月份归档到 PicNest 图库"
    } else {
        "部分文件未移动，原文件仍保留"
    };
    (string_from_chars(&t), String::from_str(d))
}

/// The activity entry written after undoing or rolling back a plan.
pub open spec fn spec_rollback_activity(undo: bool, restored: u32, failures: u32) -> (Seq<char>, Seq<char>) {
    (
        (if undo {
            "撤销了"@
        } else {
            "回滚了"@
        }) + seq![' '] + crate::text::decimal(restored as nat) + " 张图片的整理"@,
        if failures == 0 {
            "图片已恢复到原位置"@
        } else {
            "部分文件内容发生变化，相关副本均已保留"@
        },
    )
}

/// Title and detail of the activity entry written after a rollback
/// (`undo` for the undo command, otherwise a recovery rollback).
pub fn rollback_activity(undo: bool, restored: u32, failures: u32) -> (out: (String, String))
    ensures
        (out.0@, out.1@) == spec_rollback_activity(undo, restored, failures),
{
    let mut t = if undo {
        chars_of("撤销了")
    } else {
        chars_of("回滚了")
    };
    t.push(' ');
    push_decimal(&mut t, restored as u64);
    push_str(&mut t, " 张图片的整理");
    let d = if failures == 0 {
        "图片已恢复到原位置"
    } else {
        "部分文件内容发生变化，相关副本均已保留"
    };
    (string_from_chars(&t), String::from_str(d))
}

/// Mebibytes still needed, rounded up.
pub open spec fn missing_mebibytes(required: i64, available: i64) -> int {
    (required - available + 1_048_575) / 1_048_576
}

/// Refuses to resume a plan whose remaining copies do not fit on the
/// library volume; the error tells how many mebibytes are missing.
pub fn check_disk_space(required: i64, available: u64) -> (out: Result<(), AppError>)
    requires
        clamp_i64(available) < required ==> required - clamp_i64(available) + 1_048_575 <= i64::MAX,
    ensures
        out is Ok <==> clamp_i64(available) >= required,
        out matches Err(e) ==> e == AppError::InsufficientSpace(
            missing_mebibytes(required, clamp_i64(available)) as u64,
        ),
{
    let avail: i64 = if available > 0x7fff_ffff_ffff_ffff {
        0x7fff_ffff_ffff_ffff
    } else {
        available as i64
    };
    if avail < required {
        let mb = (required - avail + 1_048_575) / 1_048_576;
        Err(AppError::InsufficientSpace(mb as u64))
    } else {
        Ok(())
    }
}

/// One location still to be moved when a plan resumes.
pub struct PendingMove {
    pub source_path: String,
    pub target_path: String,
    pub bytes: i64,
    pub target_exists: bool,
}

/// Bytes that resuming still has to copy: moves across volumes whose target
/// does not exist yet.
pub open spec fn pending_copy_bytes(rows: Seq<PendingMove>) -> int
    decreases rows.len(),
{
    if rows.len() == 0 {
        0
    } else {
        pending_copy_bytes(rows.drop_last()) + if !spec_same_volume(
            rows.last().source_path@,
            rows.last().target_path@,
        ) && !rows.last().target_exists {
            rows.last().bytes as int
        } else {
            0int
        }
    }
}

/// Bytes that resuming a plan still has to copy.
pub fn pending_copy_total(rows: &Vec<PendingMove>) -> (n: i64)
    requires
        forall|k: int| 0 <= k <= rows@.len() ==> i64::MIN <= #[trigger] pending_copy_bytes(rows@.take(k)) <= i64::MAX,
    ensures
        n == pending_copy_bytes(rows@),
{
    let mut n: i64 = 0;
    let mut i: usize = 0;
    while i < rows.len()
        invariant
            i <= rows@.len(),
            forall|k: int| 0 <= k <= rows@.len() ==> i64::MIN <= #[trigger] pending_copy_bytes(rows@.take(k)) <= i64::MAX,
            n == pending_copy_bytes(rows@.take(i as int)),
        decreases rows.len() - i,
    {
        let ghost t = rows@.take(i + 1);
        assert(t.drop_last() == rows@.take(i as int));
        assert(t.last() == rows@[i as int]);
        assert(i64::MIN <= pending_copy_bytes(t) <= i64::MAX);
        let r = &rows[i];
        if !same_volume(r.source_path.as_str(), r.target_path.as_str()) && !r.target_exists {
            n = n + r.bytes;
        }
        i = i + 1;
    }
    assert(rows@.take(i as int) == rows@);
    n
}

/// The totals of a plan add up item by item: every item adds its size to
/// the total, a conflict adds one conflict, and an item that crosses volumes
/// adds its size to the bytes to copy (to the bytes still to copy when its
/// target is not in place yet); an empty plan has nothing.
pub proof fn law_plan_totals(items: Seq<OrganizePlanItem>, x: OrganizePlanItem, rows: Seq<PendingMove>, r: PendingMove)
    ensures
        total_bytes(Seq::<OrganizePlanItem>::empty()) == 0,
        conflict_count(Seq::<OrganizePlanItem>::empty()) == 0,
        copy_bytes(Seq::<OrganizePlanItem>::empty()) == 0,
        pending_copy_bytes(Seq::<PendingMove>::empty()) == 0,
        total_bytes(items.push(x)) == total_bytes(items) + x.bytes,
        conflict_count(items.push(x)) == conflict_count(items) + (if x.conflict {
            1int
        } else {
            0int
        }),
        copy_bytes(items.push(x)) == copy_bytes(items) + (if spec_same_volume(
            x.source_path@,
            x.target_path@,
        ) {
            0int
        } else {
            x.bytes as int
        }),
        pending_copy_bytes(rows.push(r)) == pending_copy_bytes(rows) + (if spec_same_volume(
            r.source_path@,
            r.target_path@,
        ) || r.target_exists {
            0int
        } else {
            r.bytes as int
        }),
{
    assert(items.push(x).drop_last() == items);
    assert(rows.push(r).drop_last() == rows);
}

/// Refuses to trash a file that is not an available copy of the picture, or
/// that is its last available copy.
pub fn check_trash_allowed(belongs: bool, available_count: i64) -> (out: Result<(), AppError>)
    ensures
        out is Ok <==> belongs && available_count > 1,
        out matches Err(e) ==> (if !belongs {
            e == AppError::NotInDuplicateGroup
        } else {
            e == AppError::LastAvailableCopy
        }),
{
    if !belongs {
        return Err(AppError::NotInDuplicateGroup);
    }
    if available_count <= 1 {
        return Err(AppError::LastAvailableCopy);
    }
    Ok(())
}

} // verus!
