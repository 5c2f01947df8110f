//! Tag lists that users edit by hand, and the JSON that stores tag lists.

use vstd::prelude::*;
use crate::error::AppError;
use crate::library::spec_initial_tags;
use crate::library::initial_tags;
use crate::models::str_views;
use crate::text::{chars_of, lemma_trim_idempotent, str_eq, string_from_chars, trim_chars, trim_ws, CharClass};
use crate::wrappers::{
    json_string_list, spec_json_string_list, spec_parse_json_string_list, spec_to_lowercase,
    to_lowercase,
};

verus! {

broadcast use vstd::string::group_string_axioms;

/// At most this many tags are kept on a picture.
pub const MAX_TAGS: usize = 40;

/// A tag holds at most this many characters.
pub const MAX_TAG_CHARS: usize = 40;

/// The tags kept from `tags`, given the lower-case forms already kept in
/// `seen` and room for `room` more: each tag is trimmed; a blank tag, one
/// longer than the limit, or one whose lower-case form was kept already is
/// dropped.
pub open spec fn tags_from(tags: Seq<Seq<char>>, seen: Seq<Seq<char>>, room: nat) -> Seq<
    Seq<char>,
>
    decreases tags.len(),
{
    if tags.len() == 0 || room == 0 {
        seq![]
    } else {
        let t = trim_ws(tags[0]);
        let key = spec_to_lowercase(t);
        if 0 < t.len() <= MAX_TAG_CHARS && !seen.contains(key) {
            seq![t] + tags_from(tags.drop_first(), seen.push(key), (room - 1) as nat)
        } else {
            tags_from(tags.drop_first(), seen, room)
        }
    }
}

/// The tags that a hand edit stores: the first `MAX_TAGS` clean tags, a tag
/// counted once whatever its case.
pub open spec fn spec_manual_tags(tags: Seq<Seq<char>>) -> Seq<Seq<char>> {
    tags_from(tags, seq![], MAX_TAGS as nat)
}

fn contains_string(v: &Vec<String>, x: &str) -> (b: bool)
    ensures
        b == str_views(v@).contains(x@),
{
    let mut i: usize = 0;
    while i < v.len()
        invariant
            i <= v@.len(),
            forall|k: int| 0 <= k < i ==> (#[trigger] v@[k])@ != x@,
        decreases v.len() - i,
    {
        if str_eq(v[i].as_str(), x) {
            assert(str_views(v@)[i as int] == x@);
            return true;
        }
        i = i + 1;
    }
    assert forall|k: int| 0 <= k < str_views(v@).len() implies #[trigger] str_views(v@)[k] != x@ by {
        assert(v@[k]@ != x@);
    }
    false
}

/// The tags that a hand edit stores for the entered list.
pub fn normalize_manual_tags(tags: &Vec<String>) -> (out: Vec<String>)
    ensures
        str_views(out@) == spec_manual_tags(str_views(tags@)),
{
    let ghost all = str_views(tags@);
    let mut out: Vec<String> = Vec::new();
    let mut keys: Vec<String> = Vec::new();
    let mut i: usize = 0;
    assert(all.skip(0) == all);
    assert(str_views(keys@) == Seq::<Seq<char>>::empty());
    assert(str_views(out@) + spec_manual_tags(all) == spec_manual_tags(all));
    while i < tags.len() && out.len() < MAX_TAGS
        invariant
            i <= tags@.len(),
            out@.len() <= MAX_TAGS,
            all == str_views(tags@),
            spec_manual_tags(all) == str_views(out@) + tags_from(
                all.skip(i as int),
                str_views(keys@),
                (MAX_TAGS - out@.len()) as nat,
            ),
        decreases tags.len() - i,
    {
        let ghost rest = all.skip(i as int);
        assert(rest[0] == tags@[i as int]@);
        assert(rest.drop_first() == all.skip(i + 1 as int));
        let cs = chars_of(tags[i].as_str());
        let t = trim_chars(&cs, CharClass::WhiteSpace);
        if t.len() > 0 && t.len() <= MAX_TAG_CHARS {
            let ts = string_from_chars(&t);
            let key = to_lowercase(ts.as_str());
            if !contains_string(&keys, key.as_str()) {
                let ghost before = str_views(out@);
                let ghost kb = str_views(keys@);
                keys.push(key);
                out.push(ts);
                assert(str_views(keys@) == kb.push(spec_to_lowercase(trim_ws(rest[0]))));
                assert(str_views(out@) == before.push(trim_ws(rest[0])));
                assert(str_views(out@) + tags_from(
                    all.skip(i + 1 as int),
                    str_views(keys@),
                    (MAX_TAGS - out@.len()) as nat,
                ) == before + (seq![trim_ws(rest[0])] + tags_from(
                    all.skip(i + 1 as int),
                    str_views(keys@),
                    (MAX_TAGS - out@.len()) as nat,
                )));
            }
        }
        i = i + 1;
    }
    assert(str_views(out@) + tags_from(
        all.skip(i as int),
        str_views(keys@),
        (MAX_TAGS - out@.len()) as nat,
    ) == str_views(out@));
    out
}

/// Whether the list is what a hand edit keeps: each tag trimmed, not blank,
/// within the length limit, and no two tags equal when lower-cased.
pub open spec fn clean_tags(r: Seq<Seq<char>>) -> bool {
    &&& forall|k: int|
        0 <= k < r.len() ==> 0 < (#[trigger] r[k]).len() <= MAX_TAG_CHARS && trim_ws(r[k]) == r[k]
    &&& forall|k: int, l: int|
        0 <= k < l < r.len() ==> spec_to_lowercase(#[trigger] r[k]) != spec_to_lowercase(
            #[trigger] r[l],
        )
}

proof fn lemma_tags_from_clean(tags: Seq<Seq<char>>, seen: Seq<Seq<char>>, room: nat)
    ensures
        ({
            let r = tags_from(tags, seen, room);
            &&& r.len() <= room
            &&& clean_tags(r)
            &&& forall|k: int| 0 <= k < r.len() ==> !seen.contains(spec_to_lowercase(#[trigger] r[k]))
        }),
    decreases tags.len(),
{
    if tags.len() == 0 || room == 0 {
    } else {
        let t = trim_ws(tags[0]);
        let key = spec_to_lowercase(t);
        if 0 < t.len() <= MAX_TAG_CHARS && !seen.contains(key) {
            let s2 = seen.push(key);
            lemma_tags_from_clean(tags.drop_first(), s2, (room - 1) as nat);
            lemma_trim_idempotent(tags[0], CharClass::WhiteSpace);
            let rest = tags_from(tags.drop_first(), s2, (room - 1) as nat);
            let r = seq![t] + rest;
            assert forall|k: int| 0 <= k < rest.len() implies spec_to_lowercase(#[trigger] rest[k])
                != key && !seen.contains(spec_to_lowercase(rest[k])) by {
                if spec_to_lowercase(rest[k]) == key {
                    assert(s2[seen.len() as int] == key);
                }
                if seen.contains(spec_to_lowercase(rest[k])) {
                    let m = choose|m: int| 0 <= m < seen.len() && seen[m] == spec_to_lowercase(rest[k]);
                    assert(s2[m] == seen[m]);
                }
            }
            assert forall|k: int| 0 <= k < r.len() implies 0 < (#[trigger] r[k]).len()
                <= MAX_TAG_CHARS && trim_ws(r[k]) == r[k] by {
                if k > 0 {
                    assert(r[k] == rest[k - 1]);
                }
            }
            assert forall|k: int, l: int| 0 <= k < l < r.len() implies spec_to_lowercase(
                #[trigger] r[k],
            ) != spec_to_lowercase(#[trigger] r[l]) by {
                assert(r[l] == rest[l - 1]);
                if k > 0 {
                    assert(r[k] == rest[k - 1]);
                }
            }
            assert forall|k: int| 0 <= k < r.len() implies !seen.contains(
                spec_to_lowercase(#[trigger] r[k]),
            ) by {
                if k > 0 {
                    assert(r[k] == rest[k - 1]);
                }
            }
        } else {
            lemma_tags_from_clean(tags.drop_first(), seen, room);
        }
    }
}

/// What a hand edit stores is clean: at most `MAX_TAGS` tags, each trimmed,
/// not blank and within the length limit, and no two the same when lower-cased.
pub proof fn law_manual_tags_are_clean(tags: Seq<Seq<char>>)
    ensures
        spec_manual_tags(tags).len() <= MAX_TAGS,
        clean_tags(spec_manual_tags(tags)),
{
    lemma_tags_from_clean(tags, seq![], MAX_TAGS as nat);
}

proof fn lemma_clean_tags_kept(r: Seq<Seq<char>>, seen: Seq<Seq<char>>, room: nat)
    requires
        clean_tags(r),
        r.len() <= room,
        forall|k: int| 0 <= k < r.len() ==> !seen.contains(spec_to_lowercase(#[trigger] r[k])),
    ensures
        tags_from(r, seen, room) == r,
    decreases r.len(),
{
    if r.len() > 0 {
        let t = r[0];
        let key = spec_to_lowercase(t);
        assert(trim_ws(r[0]) == r[0]);
        assert(!seen.contains(key));
        let rest = r.drop_first();
        let s2 = seen.push(key);
        assert forall|k: int| 0 <= k < rest.len() implies !s2.contains(
            spec_to_lowercase(#[trigger] rest[k]),
        ) by {
            assert(rest[k] == r[k + 1]);
            assert(spec_to_lowercase(r[0]) != spec_to_lowercase(r[k + 1]));
            assert(!seen.contains(spec_to_lowercase(r[k + 1])));
            if s2.contains(spec_to_lowercase(rest[k])) {
                let m = choose|m: int| 0 <= m < s2.len() && s2[m] == spec_to_lowercase(rest[k]);
                if m < seen.len() {
                    assert(seen[m] == s2[m]);
                }
            }
        }
        assert forall|k: int| 0 <= k < rest.len() implies 0 < (#[trigger] rest[k]).len()
            <= MAX_TAG_CHARS && trim_ws(rest[k]) == rest[k] by {
            assert(rest[k] == r[k + 1]);
        }
        assert forall|k: int, l: int| 0 <= k < l < rest.len() implies spec_to_lowercase(
            #[trigger] rest[k],
        ) != spec_to_lowercase(#[trigger] rest[l]) by {
            assert(rest[k] == r[k + 1]);
            assert(rest[l] == r[l + 1]);
        }
        lemma_clean_tags_kept(rest, s2, (room - 1) as nat);
        assert(r == seq![t] + rest);
    }
}

/// Editing tags twice by hand stores the same list as editing once.
pub proof fn law_manual_tags_idempotent(tags: Seq<Seq<char>>)
    ensures
        spec_manual_tags(spec_manual_tags(tags)) == spec_manual_tags(tags),
{
    let r = spec_manual_tags(tags);
    lemma_tags_from_clean(tags, seq![], MAX_TAGS as nat);
    lemma_clean_tags_kept(r, seq![], MAX_TAGS as nat);
}

/// The JSON text stored for a hand-edited tag list; writing it always
/// succeeds. Reading the text back gives the cleaned list.
pub fn manual_tags_json(tags: &Vec<String>) -> (out: Result<String, AppError>)
    ensures
        match out {
            Ok(t) => {
                &&& t@ == spec_json_string_list(spec_manual_tags(str_views(tags@)))
                &&& spec_parse_json_string_list(t@) == Some(spec_manual_tags(str_views(tags@)))
            },
            Err(_) => false,
        },
{
    let kept = normalize_manual_tags(tags);
    match json_string_list(&kept) {
        Ok(t) => Ok(t),
        Err(_) => Err(AppError::Serialization),
    }
}

/// The JSON text of the tags that a picture of the category starts with (also
/// what clearing its AI results restores); writing it always succeeds.
/// Reading the text back gives those tags.
pub fn initial_tags_json(category: &str) -> (out: Result<String, AppError>)
    ensures
        match out {
            Ok(t) => {
                &&& t@ == spec_json_string_list(spec_initial_tags(category@))
                &&& spec_parse_json_string_list(t@) == Some(spec_initial_tags(category@))
            },
            Err(_) => false,
        },
{
    let tags = initial_tags(category);
    match json_string_list(&tags) {
        Ok(t) => Ok(t),
        Err(_) => Err(AppError::Serialization),
    }
}

} // verus!
