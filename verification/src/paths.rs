//! The library's model of Windows paths, read as text.
//!
//! Both `\` and `/` separate components. A path may begin with a volume
//! prefix: a drive (`C:`), a UNC share (`\\server\share`), or a verbatim or
//! device prefix (`\\?\name`, `\\.\name`, `\\?\UNC\server\share`).

use vstd::prelude::*;
use crate::text::{
    char_from_ascii, chars_of, class_contains, matches_at, occurs_at, push_all, replace_char,
    replace_char_vec, slice_to_vec, starts_with_chars, starts_with_seq, string_from_chars,
    trim_end_by, trim_end_chars, CharClass, in_class, lemma_trim_end_prefix, lemma_trim_end_removed,
};
use crate::wrappers::{spec_to_lowercase, to_lowercase};

verus! {

/// Whether `c` separates path components.
pub open spec fn is_sep(c: char) -> bool {
    c == '\\' || c == '/'
}

/// Executable separator test.
pub fn is_sep_char(c: char) -> (b: bool)
    ensures
        b == is_sep(c),
{
    c == '\\' || c == '/'
}

/// Whether `c` is an ASCII letter.
pub open spec fn is_ascii_alpha(c: char) -> bool {
    'a' <= c <= 'z' || 'A' <= c <= 'Z'
}

/// Length of the leading run of non-separator characters.
pub open spec fn seg_end(s: Seq<char>) -> nat
    decreases s.len(),
{
    if s.len() == 0 || is_sep(s[0]) {
        0
    } else {
        1 + seg_end(s.drop_first())
    }
}

/// `seg_end` stops at the first separator.
pub proof fn lemma_seg_end(s: Seq<char>)
    ensures
        seg_end(s) <= s.len(),
        forall|i: int| 0 <= i < seg_end(s) ==> !is_sep(#[trigger] s[i]),
        seg_end(s) < s.len() ==> is_sep(s[seg_end(s) as int]),
    decreases s.len(),
{
    if s.len() > 0 && !is_sep(s[0]) {
        lemma_seg_end(s.drop_first());
        assert forall|i: int| 0 <= i < seg_end(s) implies !is_sep(#[trigger] s[i]) by {
            if i > 0 {
                assert(s[i] == s.drop_first()[i - 1]);
            }
        }
    }
}

/// Finds the end of the component that starts at `from`.
pub fn find_seg_end(v: &[char], from: usize) -> (e: usize)
    requires
        from <= v@.len(),
    ensures
        from <= e <= v@.len(),
        e - from == seg_end(v@.subrange(from as int, v@.len() as int)),
{
    let ghost t = v@.subrange(from as int, v@.len() as int);
    let mut e = from;
    while e < v.len() && !is_sep_char(v[e])
        invariant
            from <= e <= v@.len(),
            t == v@.subrange(from as int, v@.len() as int),
            seg_end(t) == (e - from) + seg_end(v@.subrange(e as int, v@.len() as int)),
        decreases v.len() - e,
    {
        assert(v@.subrange(e as int, v@.len() as int).drop_first() == v@.subrange(
            e + 1,
            v@.len() as int,
        ));
        e = e + 1;
    }
    e
}

/// Length of the volume prefix of a path (0 when there is none).
pub open spec fn prefix_len(s: Seq<char>) -> nat {
    if s.len() >= 2 && is_sep(s[0]) && is_sep(s[1]) {
        if starts_with_seq(s, seq!['\\', '\\', '?', '\\', 'U', 'N', 'C', '\\']) {
            let rest = s.skip(8);
            let a = seg_end(rest);
            if a < rest.len() {
                8 + a + 1 + seg_end(rest.skip(a + 1int))
            } else {
                8 + a
            }
        } else if s.len() >= 4 && (s[2] == '?' || s[2] == '.') && s[3] == '\\' {
            4 + seg_end(s.skip(4))
        } else {
            let rest = s.skip(2);
            let a = seg_end(rest);
            if a > 0 && a < rest.len() && seg_end(rest.skip(a + 1int)) > 0 {
                2 + a + 1 + seg_end(rest.skip(a + 1int))
            } else {
                0
            }
        }
    } else if s.len() >= 2 && is_ascii_alpha(s[0]) && s[1] == ':' {
        2
    } else {
        0
    }
}

/// The volume prefix text of a path, if it has one.
pub open spec fn volume_prefix(s: Seq<char>) -> Option<Seq<char>> {
    if prefix_len(s) > 0 {
        Some(s.take(prefix_len(s) as int))
    } else {
        None
    }
}

proof fn lemma_prefix_len_bound(s: Seq<char>)
    ensures
        prefix_len(s) <= s.len(),
{
    if s.len() >= 2 && is_sep(s[0]) && is_sep(s[1]) {
        if starts_with_seq(s, seq!['\\', '\\', '?', '\\', 'U', 'N', 'C', '\\']) {
            let rest = s.skip(8);
            lemma_seg_end(rest);
            let a = seg_end(rest);
            if a < rest.len() {
                lemma_seg_end(rest.skip(a + 1int));
            }
        } else if s.len() >= 4 && (s[2] == '?' || s[2] == '.') && s[3] == '\\' {
            lemma_seg_end(s.skip(4));
        } else {
            let rest = s.skip(2);
            lemma_seg_end(rest);
            let a = seg_end(rest);
            if a < rest.len() {
                lemma_seg_end(rest.skip(a + 1int));
            }
        }
    }
}

/// Executable `prefix_len`.
pub fn prefix_length(v: &[char]) -> (n: usize)
    ensures
        n == prefix_len(v@),
        n <= v@.len(),
{
    proof {
        lemma_prefix_len_bound(v@);
    }
    let len = v.len();
    if len >= 2 && is_sep_char(v[0]) && is_sep_char(v[1]) {
        let unc: [char; 8] = ['\\', '\\', '?', '\\', 'U', 'N', 'C', '\\'];
        if matches_at(v, &unc, 0) {
            assert(unc@ == seq!['\\', '\\', '?', '\\', 'U', 'N', 'C', '\\']);
            let a = find_seg_end(v, 8);
            assert(v@.subrange(8, len as int) == v@.skip(8));
            if a < len {
                let b = find_seg_end(v, a + 1);
                assert(v@.subrange(a + 1, len as int) == v@.skip(8).skip(a - 8 + 1));
                b
            } else {
                a
            }
        } else {
            assert(!starts_with_seq(v@, seq!['\\', '\\', '?', '\\', 'U', 'N', 'C', '\\'])) by {
                assert(unc@ == seq!['\\', '\\', '?', '\\', 'U', 'N', 'C', '\\']);
            }
            if len >= 4 && (v[2] == '?' || v[2] == '.') && v[3] == '\\' {
                assert(v@.subrange(4, len as int) == v@.skip(4));
                find_seg_end(v, 4)
            } else {
                let a = find_seg_end(v, 2);
                assert(v@.subrange(2, len as int) == v@.skip(2));
                if a > 2 && a < len {
                    let b = find_seg_end(v, a + 1);
                    assert(v@.subrange(a + 1, len as int) == v@.skip(2).skip(a - 2 + 1));
                    if b > a + 1 {
                        b
                    } else {
                        0
                    }
                } else {
                    0
                }
            }
        }
    } else if len >= 2 && (('a' <= v[0] && v[0] <= 'z') || ('A' <= v[0] && v[0] <= 'Z')) && v[1]
        == ':' {
        2
    } else {
        0
    }
}

/// Lower-cased volume prefix, as `same_volume` compares it.
pub open spec fn volume_key(s: Seq<char>) -> Option<Seq<char>> {
    match volume_prefix(s) {
        Some(p) => Some(spec_to_lowercase(p)),
        None => None,
    }
}

/// Whether two paths lie on the same volume: their prefixes agree ignoring
/// case, or neither has one.
pub open spec fn spec_same_volume(left: Seq<char>, right: Seq<char>) -> bool {
    volume_key(left) == volume_key(right)
}

fn volume_key_of(v: &[char]) -> (out: Option<String>)
    ensures
        match out {
            Some(k) => volume_key(v@) == Some(k@),
            None => volume_key(v@) is None,
        },
{
    let n = prefix_length(v);
    if n == 0 {
        None
    } else {
        let p = slice_to_vec(v, 0, n);
        let s = string_from_chars(&p);
        Some(to_lowercase(s.as_str()))
    }
}

/// Whether two paths lie on the same volume (a move between them can be a rename).
pub fn same_volume(left: &str, right: &str) -> (b: bool)
    ensures
        b == spec_same_volume(left@, right@),
{
    let l = chars_of(left);
    let r = chars_of(right);
    let a = volume_key_of(&l);
    let b = volume_key_of(&r);
    match (a, b) {
        (None, None) => true,
        (Some(x), Some(y)) => x == y,
        _ => false,
    }
}

/// A path with trailing separators removed and lower-cased: the form in
/// which source folders and library roots are compared.
pub open spec fn spec_normalized(s: Seq<char>) -> Seq<char> {
    spec_to_lowercase(trim_end_by(s, CharClass::Separator))
}

/// `spec_normalized` of a path.
pub fn normalized(path: &str) -> (out: String)
    ensures
        out@ == spec_normalized(path@),
{
    let v = chars_of(path);
    let t = trim_end_chars(&v, CharClass::Separator);
    let s = string_from_chars(&t);
    to_lowercase(s.as_str())
}

/// Whether two paths name the same folder once trailing separators and case are ignored.
pub fn paths_equal(left: &str, right: &str) -> (b: bool)
    ensures
        b == (spec_normalized(left@) == spec_normalized(right@)),
{
    let a = normalized(left);
    let b = normalized(right);
    a == b
}

/// Whether `path` is `root` or lies under it, comparing case-insensitively
/// and at component boundaries (`D:\Photos-old` is not under `D:\Photos`).
pub open spec fn spec_path_starts_with(path: Seq<char>, root: Seq<char>) -> bool {
    let p = spec_to_lowercase(path);
    let r = spec_normalized(root);
    ||| p == r
    ||| starts_with_seq(p, r.push('\\'))
    ||| starts_with_seq(p, r.push('/'))
}

/// Given the lower-cased form of a folder's text, as `to_lowercase` states it
/// for text ending in separators, the folder starts with itself.
proof fn lemma_folder_starts_with_itself(root: Seq<char>, lower: Seq<char>)
    requires
        lower == spec_to_lowercase(root),
        forall|k: int|
            0 <= k <= root.len() && (forall|j: int| k <= j < root.len() ==> root[j] == '\\' || root[j]
                == '/') ==> lower == #[trigger] spec_to_lowercase(root.take(k)) + root.skip(k),
    ensures
        spec_path_starts_with(root, root),
{
    let t = trim_end_by(root, CharClass::Separator);
    let k = t.len() as int;
    lemma_trim_end_prefix(root, CharClass::Separator);
    lemma_trim_end_removed(root, CharClass::Separator);
    assert(root.take(k) == t);
    assert forall|j: int| k <= j < root.len() implies root[j] == '\\' || root[j] == '/' by {
        assert(in_class(CharClass::Separator, root[j]));
    }
    let r = spec_normalized(root);
    let rest = root.skip(k);
    assert(lower == spec_to_lowercase(root.take(k)) + rest);
    assert(lower == r + rest);
    if rest.len() == 0 {
        assert(lower =~= r);
    } else {
        let c = rest[0];
        assert(c == root[k]);
        assert(lower.subrange(0, r.len() + 1int) =~= r.push(c));
        if c == '\\' {
            assert(starts_with_seq(lower, r.push('\\')));
        } else {
            assert(starts_with_seq(lower, r.push('/')));
        }
    }
}

/// Executable `spec_path_starts_with`.
pub fn path_starts_with(path: &str, root: &str) -> (b: bool)
    ensures
        b == spec_path_starts_with(path@, root@),
        path@ == root@ ==> b,
{
    let lower = to_lowercase(path);
    proof {
        if path@ == root@ {
            lemma_folder_starts_with_itself(root@, lower@);
        }
    }
    let p = chars_of(lower.as_str());
    let r = chars_of(normalized(root).as_str());
    let mut r1 = r.clone();
    r1.push('\\');
    let mut r2 = r.clone();
    r2.push('/');
    assert(r1@ == r@.push('\\'));
    assert(r2@ == r@.push('/'));
    let same = p.len() == r.len() && starts_with_chars(&p, &r);
    assert(same == (p@ == r@)) by {
        assert(p@.subrange(0, p@.len() as int) == p@);
    }
    same || starts_with_chars(&p, &r1) || starts_with_chars(&p, &r2)
}

/// The key under which a planned target is reserved: separators written as
/// `\` and the text lower-cased.
pub open spec fn spec_path_key(s: Seq<char>) -> Seq<char> {
    spec_to_lowercase(replace_char(s, '/', '\\'))
}

/// `spec_path_key` of a path.
pub fn path_key(path: &str) -> (out: String)
    ensures
        out@ == spec_path_key(path@),
{
    let v = chars_of(path);
    let w = replace_char_vec(&v, '/', '\\');
    let s = string_from_chars(&w);
    to_lowercase(s.as_str())
}

/// The components after the volume prefix, without empty and `.` components.
pub open spec fn normal_segments(s: Seq<char>) -> Seq<Seq<char>>
    decreases s.len(),
{
    if s.len() == 0 {
        seq![]
    } else {
        let e = seg_end(s);
        let first = s.take(e as int);
        let rest = if e < s.len() {
            normal_segments(s.skip(e + 1int))
        } else {
            seq![]
        };
        if first.len() == 0 || first == seq!['.'] {
            rest
        } else {
            seq![first] + rest
        }
    }
}

/// The view of a list of character vectors.
pub open spec fn seg_views(v: Seq<Vec<char>>) -> Seq<Seq<char>> {
    v.map_values(|x: Vec<char>| x@)
}

/// Executable `normal_segments` of `v[from..]`.
pub fn segments_from(v: &[char], from: usize) -> (out: Vec<Vec<char>>)
    requires
        from <= v@.len(),
    ensures
        seg_views(out@) == normal_segments(v@.subrange(from as int, v@.len() as int)),
{
    let mut out: Vec<Vec<char>> = Vec::new();
    let mut start = from;
    let len = v.len();
    while start < len
        invariant
            from <= start <= len,
            len == v@.len(),
            normal_segments(v@.subrange(from as int, len as int)) == seg_views(out@)
                + normal_segments(v@.subrange(start as int, len as int)),
        decreases len - start,
    {
        let ghost t = v@.subrange(start as int, len as int);
        let e = find_seg_end(v, start);
        let seg = slice_to_vec(v, start, e);
        proof {
            lemma_seg_end(t);
            assert(seg@ == t.take(seg_end(t) as int));
        }
        let keep = !(seg.len() == 0 || (seg.len() == 1 && seg[0] == '.'));
        assert(keep == !(seg@.len() == 0 || seg@ == seq!['.'])) by {
            if seg@.len() == 1 && seg@[0] == '.' {
                assert(seg@ == seq!['.']);
            }
        }
        let ghost before = seg_views(out@);
        if keep {
            out.push(seg);
            assert(seg_views(out@) == before + seq![seg@]);
        }
        if e < len {
            assert(t.skip(seg_end(t) + 1int) == v@.subrange(e + 1, len as int));
            start = e + 1;
        } else {
            assert(v@.subrange(e as int, len as int) == Seq::<char>::empty());
            start = e;
        }
    }
    assert(v@.subrange(start as int, len as int) == Seq::<char>::empty());
    out
}

/// What `Path::file_name` returns in this model: the last normal component,
/// unless the path ends in `..` or has no component.
pub open spec fn spec_file_name(s: Seq<char>) -> Option<Seq<char>> {
    let segs = normal_segments(s.skip(prefix_len(s) as int));
    if segs.len() == 0 || segs.last() == seq!['.', '.'] {
        None
    } else {
        Some(segs.last())
    }
}

/// The last component of a path, if it is a name.
pub fn file_name(path: &str) -> (out: Option<Vec<char>>)
    ensures
        match out {
            Some(n) => spec_file_name(path@) == Some(n@),
            None => spec_file_name(path@) is None,
        },
{
    let v = chars_of(path);
    let p = prefix_length(&v);
    assert(v@.subrange(p as int, v@.len() as int) == v@.skip(p as int));
    let segs = segments_from(&v, p);
    if segs.len() == 0 {
        return None;
    }
    let last = segs[segs.len() - 1].clone();
    assert(last@ == seg_views(segs@).last());
    if last.len() == 2 && last[0] == '.' && last[1] == '.' {
        assert(last@ == seq!['.', '.']);
        return None;
    }
    assert(last@ != seq!['.', '.']);
    Some(last)
}

/// Position of the last `.` in a name, if any.
pub open spec fn last_dot(name: Seq<char>) -> Option<int>
    decreases name.len(),
{
    if name.len() == 0 {
        None
    } else if name.last() == '.' {
        Some(name.len() - 1)
    } else {
        last_dot(name.drop_last())
    }
}

/// The last dot lies inside the name and no dot follows it.
pub proof fn lemma_last_dot(name: Seq<char>)
    ensures
        last_dot(name) matches Some(i) ==> 0 <= i < name.len() && name[i] == '.' && forall|j: int|
            i < j < name.len() ==> name[j] != '.',
        last_dot(name) is None ==> forall|j: int| 0 <= j < name.len() ==> name[j] != '.',
    decreases name.len(),
{
    if name.len() > 0 && name.last() != '.' {
        let d = name.drop_last();
        lemma_last_dot(d);
        assert forall|j: int| 0 <= j < d.len() implies name[j] == d[j] by {}
        if let Some(i) = last_dot(d) {
            assert forall|j: int| i < j < name.len() implies name[j] != '.' by {
                if j < d.len() {
                    assert(name[j] == d[j]);
                }
            }
        } else {
            assert forall|j: int| 0 <= j < name.len() implies name[j] != '.' by {
                if j < d.len() {
                    assert(name[j] == d[j]);
                }
            }
        }
    }
}

/// What `Path::file_stem` returns for a single name.
pub open spec fn spec_file_stem(name: Seq<char>) -> Seq<char> {
    if name == seq!['.', '.'] {
        name
    } else {
        match last_dot(name) {
            Some(i) => if i == 0 {
                name
            } else {
                name.take(i)
            },
            None => name,
        }
    }
}

/// What `Path::extension` returns for a single name.
pub open spec fn spec_extension(name: Seq<char>) -> Option<Seq<char>> {
    if name == seq!['.', '.'] {
        None
    } else {
        match last_dot(name) {
            Some(i) => if i == 0 {
                None
            } else {
                Some(name.skip(i + 1))
            },
            None => None,
        }
    }
}

/// Finds the last `.` of a name.
fn find_last_dot(name: &[char]) -> (out: Option<usize>)
    ensures
        match out {
            Some(i) => last_dot(name@) == Some(i as int),
            None => last_dot(name@) is None,
        },
{
    let mut i = name.len();
    assert(name@.take(i as int) == name@);
    while i > 0
        invariant
            i <= name@.len(),
            last_dot(name@) == last_dot(name@.take(i as int)),
        decreases i,
    {
        if name[i - 1] == '.' {
            return Some(i - 1);
        }
        assert(name@.take(i as int).drop_last() == name@.take(i - 1));
        i = i - 1;
    }
    None
}

/// Stem and extension of a single name, as `Path::file_stem` and `Path::extension` give them.
pub fn split_name(name: &[char]) -> (out: (Vec<char>, Option<Vec<char>>))
    ensures
        out.0@ == spec_file_stem(name@),
        match out.1 {
            Some(e) => spec_extension(name@) == Some(e@),
            None => spec_extension(name@) is None,
        },
{
    let n = name.len();
    if n == 2 && name[0] == '.' && name[1] == '.' {
        assert(name@ == seq!['.', '.']);
        return (slice_to_vec(name, 0, n), None);
    }
    assert(name@ != seq!['.', '.']);
    assert(name@.subrange(0, n as int) == name@);
    proof {
        lemma_last_dot(name@);
    }
    match find_last_dot(name) {
        Some(i) => {
            if i == 0 {
                (slice_to_vec(name, 0, n), None)
            } else {
                (slice_to_vec(name, 0, i), Some(slice_to_vec(name, i + 1, n)))
            }
        },
        None => (slice_to_vec(name, 0, n), None),
    }
}

/// Whether a text is a single plain name: no separators and no drive prefix.
pub open spec fn is_plain_name(name: Seq<char>) -> bool {
    &&& forall|i: int| 0 <= i < name.len() ==> !is_sep(#[trigger] name[i])
    &&& !(name.len() >= 2 && is_ascii_alpha(name[0]) && name[1] == ':')
}

/// `dir` joined with a plain name, as `Path::join` writes it on Windows: no
/// separator is added after an empty path, a path ending in a separator, or a bare drive.
pub open spec fn spec_join(dir: Seq<char>, name: Seq<char>) -> Seq<char> {
    if dir.len() == 0 || is_sep(dir.last()) || (prefix_len(dir) == 2 && dir.len() == 2) {
        dir + name
    } else {
        dir + seq!['\\'] + name
    }
}

/// Joins a plain name onto a folder path.
pub fn join_name(dir: &[char], name: &[char]) -> (out: Vec<char>)
    ensures
        out@ == spec_join(dir@, name@),
{
    let mut out = slice_to_vec(dir, 0, dir.len());
    assert(dir@.subrange(0, dir@.len() as int) == dir@);
    let n = dir.len();
    let bare_drive = n == 2 && prefix_length(dir) == 2;
    if !(n == 0 || is_sep_char(dir[n - 1]) || bare_drive) {
        out.push('\\');
    }
    push_all(&mut out, name);
    out
}

/// Whether the path has a root separator right after its volume prefix.
pub open spec fn has_root(s: Seq<char>) -> bool {
    prefix_len(s) < s.len() && is_sep(s[prefix_len(s) as int])
}

/// Whether two paths name the same file in this model: their volume
/// prefixes agree ignoring ASCII case, both or neither have a root, and
/// their normal components (without empty and `.` components) are equal.
pub open spec fn spec_same_path(a: Seq<char>, b: Seq<char>) -> bool {
    &&& crate::text::ascii_upper_seq(a.take(prefix_len(a) as int)) == crate::text::ascii_upper_seq(
        b.take(prefix_len(b) as int),
    )
    &&& has_root(a) == has_root(b)
    &&& normal_segments(a.skip(prefix_len(a) as int)) == normal_segments(b.skip(prefix_len(b) as int))
}

/// Whether two component lists are equal.
fn segments_eq(x: &Vec<Vec<char>>, y: &Vec<Vec<char>>) -> (r: bool)
    ensures
        r == (seg_views(x@) == seg_views(y@)),
{
    if x.len() != y.len() {
        return false;
    }
    let mut i: usize = 0;
    while i < x.len()
        invariant
            i <= x@.len(),
            x@.len() == y@.len(),
            forall|k: int| 0 <= k < i ==> x@[k]@ == y@[k]@,
        decreases x.len() - i,
    {
        if !crate::text::chars_eq(&x[i], &y[i]) {
            assert(seg_views(x@)[i as int] != seg_views(y@)[i as int]);
            return false;
        }
        i = i + 1;
    }
    assert(seg_views(x@) == seg_views(y@));
    true
}

/// Whether two paths name the same file.
pub fn same_path(a: &str, b: &str) -> (r: bool)
    ensures
        r == spec_same_path(a@, b@),
{
    let x = chars_of(a);
    let y = chars_of(b);
    let px = prefix_length(&x);
    let py = prefix_length(&y);
    let ux = crate::text::to_ascii_upper(&slice_to_vec(&x, 0, px));
    let uy = crate::text::to_ascii_upper(&slice_to_vec(&y, 0, py));
    assert(x@.subrange(0, px as int) == x@.take(px as int));
    assert(y@.subrange(0, py as int) == y@.take(py as int));
    let rx = px < x.len() && is_sep_char(x[px]);
    let ry = py < y.len() && is_sep_char(y[py]);
    let sx = segments_from(&x, px);
    let sy = segments_from(&y, py);
    assert(x@.subrange(px as int, x@.len() as int) == x@.skip(px as int));
    assert(y@.subrange(py as int, y@.len() as int) == y@.skip(py as int));
    crate::text::chars_eq(&ux, &uy) && rx == ry && segments_eq(&sx, &sy)
}

} // verus!
