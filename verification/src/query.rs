//! Search and listing queries: the full-text query built from a search box,
//! the SQL that lists one page of pictures, and the paging cursor.

use vstd::prelude::*;
use crate::numbers::{parse_i64, parse_i64_chars};
use crate::text::{
    chars_of, class_contains, is_white_space, join_seqs, join_strings, push_all, push_str,
    slice_to_vec, str_eq, string_from_chars, trim_chars, trim_ws, CharClass,
};
use crate::wrappers::{
    is_alphanumeric, json_bool_field, json_str_field, spec_is_alphanumeric, spec_json_bool_field,
    spec_json_str_field, spec_to_lowercase, to_lowercase,
};
use crate::models::AssetQuery;

verus! {

/// Length of the leading run of non-white-space characters.
pub open spec fn word_end(s: Seq<char>) -> nat
    decreases s.len(),
{
    if s.len() == 0 || is_white_space(s[0]) {
        0
    } else {
        1 + word_end(s.drop_first())
    }
}

/// A word ends within the text and is non-empty when the text starts with one.
pub proof fn lemma_word_end(s: Seq<char>)
    ensures
        word_end(s) <= s.len(),
        s.len() > 0 && !is_white_space(s[0]) ==> word_end(s) >= 1,
    decreases s.len(),
{
    if s.len() > 0 && !is_white_space(s[0]) {
        lemma_word_end(s.drop_first());
    }
}

/// Characters that a full-text term keeps: letters and digits, `_` and `-`.
pub open spec fn is_term_char(c: char) -> bool {
    spec_is_alphanumeric(c) || c == '_' || c == '-'
}

/// The term characters of a word, in order.
pub open spec fn term_chars(w: Seq<char>) -> Seq<char>
    decreases w.len(),
{
    if w.len() == 0 {
        seq![]
    } else {
        let r = term_chars(w.drop_last());
        if is_term_char(w.last()) {
            r.push(w.last())
        } else {
            r
        }
    }
}

/// A term with each `"` doubled.
pub open spec fn escape_quotes(t: Seq<char>) -> Seq<char>
    decreases t.len(),
{
    if t.len() == 0 {
        seq![]
    } else {
        escape_quotes(t.drop_last()) + if t.last() == '"' {
            seq!['"', '"']
        } else {
            seq![t.last()]
        }
    }
}

/// A quoted prefix term: `"term"*`.
pub open spec fn quote_term(t: Seq<char>) -> Seq<char> {
    seq!['"'] + escape_quotes(t) + seq!['"', '*']
}

/// The quoted terms of a search text: one per white-space separated word
/// that keeps at least one term character.
pub open spec fn fts_terms(s: Seq<char>) -> Seq<Seq<char>>
    decreases s.len(),
{
    if s.len() == 0 {
        seq![]
    } else if is_white_space(s[0]) {
        fts_terms(s.drop_first())
    } else {
        proof {
            lemma_word_end(s);
        }
        let e = word_end(s);
        let k = term_chars(s.take(e as int));
        let rest = if e >= 1 {
            fts_terms(s.skip(e as int))
        } else {
            seq![]
        };
        if k.len() == 0 {
            rest
        } else {
            seq![quote_term(k)] + rest
        }
    }
}

/// The full-text query for a search text: its terms joined with ` AND `, or
/// `None` when no term remains.
pub open spec fn spec_fts_query(s: Seq<char>) -> Option<Seq<char>> {
    let t = fts_terms(s);
    if t.len() == 0 {
        None
    } else {
        Some(join_seqs(t, " AND "@))
    }
}

/// Whether every run of `"` in the text has even length: the way a quote is
/// written inside an FTS5 string.
pub open spec fn quotes_doubled(e: Seq<char>) -> bool
    decreases e.len(),
{
    if e.len() == 0 {
        true
    } else if e.last() == '"' {
        e.len() >= 2 && e[e.len() - 2] == '"' && quotes_doubled(e.take(e.len() - 2))
    } else {
        quotes_doubled(e.drop_last())
    }
}

/// Whether a term is a non-empty FTS5 string followed by `*`: `"`, the text
/// with its quotes doubled, `"*`.
pub open spec fn well_quoted(t: Seq<char>) -> bool {
    &&& t.len() >= 4
    &&& t[0] == '"'
    &&& t[t.len() - 2] == '"'
    &&& t[t.len() - 1] == '*'
    &&& quotes_doubled(t.subrange(1, t.len() - 2))
}

proof fn lemma_escape_quotes_doubled(t: Seq<char>)
    ensures
        quotes_doubled(escape_quotes(t)),
        t.len() > 0 ==> escape_quotes(t).len() > 0,
    decreases t.len(),
{
    if t.len() > 0 {
        lemma_escape_quotes_doubled(t.drop_last());
        let x = escape_quotes(t.drop_last());
        if t.last() == '"' {
            let e = x + seq!['"', '"'];
            assert(e.take(e.len() - 2) == x);
        } else {
            let e = x + seq![t.last()];
            assert(e.drop_last() == x);
        }
    }
}

/// Every term of a full-text query is a non-empty quoted prefix term whose
/// inner quotes are doubled, so a search text cannot break out of its terms.
pub proof fn law_fts_terms_are_well_quoted(s: Seq<char>)
    ensures
        forall|i: int| 0 <= i < fts_terms(s).len() ==> well_quoted(#[trigger] fts_terms(s)[i]),
        spec_fts_query(s) matches Some(q) ==> q == join_seqs(fts_terms(s), " AND "@),
    decreases s.len(),
{
    if s.len() == 0 {
    } else if is_white_space(s[0]) {
        law_fts_terms_are_well_quoted(s.drop_first());
    } else {
        lemma_word_end(s);
        let e = word_end(s);
        let k = term_chars(s.take(e as int));
        law_fts_terms_are_well_quoted(s.skip(e as int));
        let rest = fts_terms(s.skip(e as int));
        if k.len() > 0 {
            let t = quote_term(k);
            lemma_escape_quotes_doubled(k);
            assert(t.subrange(1, t.len() - 2) == escape_quotes(k));
            assert(well_quoted(t));
            let all = fts_terms(s);
            assert(all == seq![t] + rest);
            assert forall|i: int| 0 <= i < all.len() implies well_quoted(#[trigger] all[i]) by {
                if i > 0 {
                    assert(all[i] == rest[i - 1]);
                }
            }
        }
    }
}

fn term_chars_of(v: &[char], from: usize, to: usize) -> (out: Vec<char>)
    requires
        from <= to <= v@.len(),
    ensures
        out@ == term_chars(v@.subrange(from as int, to as int)),
{
    let ghost w = v@.subrange(from as int, to as int);
    let mut out: Vec<char> = Vec::new();
    let mut i = from;
    while i < to
        invariant
            from <= i <= to,
            to <= v@.len(),
            w == v@.subrange(from as int, to as int),
            out@ == term_chars(w.take(i - from)),
        decreases to - i,
    {
        let c = v[i];
        assert(w.take(i - from + 1).drop_last() == w.take(i - from));
        assert(w.take(i - from + 1).last() == c);
        if is_alphanumeric(c) || c == '_' || c == '-' {
            out.push(c);
        }
        i = i + 1;
    }
    assert(w.take(to - from) == w);
    out
}

fn quoted(t: &[char]) -> (out: Vec<char>)
    ensures
        out@ == quote_term(t@),
{
    let mut out: Vec<char> = Vec::new();
    out.push('"');
    let mut i: usize = 0;
    while i < t.len()
        invariant
            i <= t@.len(),
            out@ == seq!['"'] + escape_quotes(t@.take(i as int)),
        decreases t.len() - i,
    {
        assert(t@.take(i + 1).drop_last() == t@.take(i as int));
        assert(t@.take(i + 1).last() == t@[i as int]);
        if t[i] == '"' {
            out.push('"');
            out.push('"');
        } else {
            out.push(t[i]);
        }
        i = i + 1;
    }
    assert(t@.take(i as int) == t@);
    out.push('"');
    out.push('*');
    out
}

/// The full-text query for a search text: each white-space separated word
/// reduced to its letters, digits, `_` and `-`, quoted as a prefix term,
/// and the terms joined with ` AND `.
pub fn fts_query(search: &str) -> (out: Option<String>)
    ensures
        match out {
            Some(q) => spec_fts_query(search@) == Some(q@),
            None => spec_fts_query(search@) is None,
        },
{
    let v = chars_of(search);
    let n = v.len();
    let mut terms: Vec<String> = Vec::new();
    let mut i: usize = 0;
    assert(v@.subrange(0, n as int) == v@);
    while i < n
        invariant
            i <= n,
            n == v@.len(),
            fts_terms(v@) == terms@.map_values(|s: String| s@) + fts_terms(
                v@.subrange(i as int, n as int),
            ),
        decreases n - i,
    {
        let ghost s = v@.subrange(i as int, n as int);
        if class_contains(CharClass::WhiteSpace, v[i]) {
            assert(s.drop_first() == v@.subrange(i + 1, n as int));
            i = i + 1;
        } else {
            let mut e = i;
            proof {
                lemma_word_end(s);
            }
            while e < n && !class_contains(CharClass::WhiteSpace, v[e])
                invariant
                    i <= e <= n,
                    n == v@.len(),
                    s == v@.subrange(i as int, n as int),
                    word_end(s) == (e - i) + word_end(v@.subrange(e as int, n as int)),
                decreases n - e,
            {
                assert(v@.subrange(e as int, n as int).drop_first() == v@.subrange(e + 1, n as int));
                e = e + 1;
            }
            assert(word_end(s) == e - i);
            assert(s.take((e - i) as int) == v@.subrange(i as int, e as int));
            assert(s.skip((e - i) as int) == v@.subrange(e as int, n as int));
            let k = term_chars_of(&v, i, e);
            let ghost before = terms@.map_values(|s: String| s@);
            if k.len() > 0 {
                let q = quoted(&k);
                terms.push(string_from_chars(&q));
                assert(terms@.map_values(|s: String| s@) == before.push(quote_term(k@)));
            }
            i = e;
        }
    }
    assert(v@.subrange(i as int, n as int) == Seq::<char>::empty());
    assert(terms@.map_values(|s: String| s@) == fts_terms(v@));
    if terms.len() == 0 {
        None
    } else {
        let j = join_strings(&terms, " AND ");
        Some(string_from_chars(&j))
    }
}

/// The comma-separated pieces of a text (`str::split(',')`).
pub open spec fn comma_pieces(s: Seq<char>) -> Seq<Seq<char>>
    decreases s.len(),
{
    let e = comma_end(s);
    if e >= s.len() {
        seq![s]
    } else {
        seq![s.take(e as int)] + comma_pieces(s.skip(e + 1int))
    }
}

/// Position of the first comma (the length when there is none).
pub open spec fn comma_end(s: Seq<char>) -> nat
    decreases s.len(),
{
    if s.len() == 0 || s[0] == ',' {
        0
    } else {
        1 + comma_end(s.drop_first())
    }
}

proof fn lemma_comma_end(s: Seq<char>)
    ensures
        comma_end(s) <= s.len(),
        comma_end(s) < s.len() ==> s[comma_end(s) as int] == ',',
    decreases s.len(),
{
    if s.len() > 0 && s[0] != ',' {
        lemma_comma_end(s.drop_first());
    }
}

/// The values of the pieces that parse as `i64`, in order.
pub open spec fn parsed_ids(pieces: Seq<Seq<char>>) -> Seq<int>
    decreases pieces.len(),
{
    if pieces.len() == 0 {
        seq![]
    } else {
        let r = parsed_ids(pieces.drop_last());
        match parse_i64(pieces.last(), 10) {
            Some(v) => r.push(v),
            None => r,
        }
    }
}

/// Album ids from a comma-separated list, skipping pieces that are not numbers.
pub fn parse_album_ids(text: &str) -> (out: Vec<i64>)
    ensures
        out@.map_values(|x: i64| x as int) == parsed_ids(comma_pieces(text@)),
{
    let v = chars_of(text);
    let n = v.len();
    let mut pieces: Vec<Vec<char>> = Vec::new();
    let mut start: usize = 0;
    assert(v@.subrange(0, n as int) == v@);
    loop
        invariant_except_break
            start <= n,
            n == v@.len(),
            comma_pieces(v@) == pieces@.map_values(|p: Vec<char>| p@) + comma_pieces(
                v@.subrange(start as int, n as int),
            ),
        ensures
            comma_pieces(v@) == pieces@.map_values(|p: Vec<char>| p@),
        decreases n - start,
    {
        let ghost s = v@.subrange(start as int, n as int);
        let mut e = start;
        while e < n && v[e] != ','
            invariant
                start <= e <= n,
                n == v@.len(),
                s == v@.subrange(start as int, n as int),
                comma_end(s) == (e - start) + comma_end(v@.subrange(e as int, n as int)),
            decreases n - e,
        {
            assert(v@.subrange(e as int, n as int).drop_first() == v@.subrange(e + 1, n as int));
            e = e + 1;
        }
        proof {
            lemma_comma_end(s);
        }
        let piece = slice_to_vec(&v, start, e);
        let ghost before = pieces@.map_values(|p: Vec<char>| p@);
        pieces.push(piece);
        assert(pieces@.map_values(|p: Vec<char>| p@) == before.push(v@.subrange(start as int, e as int)));
        if e >= n {
            assert(comma_end(s) == s.len());
            assert(s == v@.subrange(start as int, e as int));
            assert(comma_pieces(s) == seq![s]);
            assert(comma_pieces(v@) == pieces@.map_values(|p: Vec<char>| p@));
            break;
        }
        assert(comma_end(s) == e - start);
        assert(s.take((e - start) as int) == v@.subrange(start as int, e as int));
        assert(s.skip((e - start) + 1int) == v@.subrange(e + 1, n as int));
        start = e + 1;
    }
    let ghost pv = pieces@.map_values(|p: Vec<char>| p@);
    assert(pv == comma_pieces(v@));
    let mut out: Vec<i64> = Vec::new();
    let mut i: usize = 0;
    while i < pieces.len()
        invariant
            i <= pieces@.len(),
            pv == pieces@.map_values(|p: Vec<char>| p@),
            out@.map_values(|x: i64| x as int) == parsed_ids(pv.take(i as int)),
        decreases pieces.len() - i,
    {
        assert(pv.take(i + 1).drop_last() == pv.take(i as int));
        assert(pv.take(i + 1).last() == pieces@[i as int]@);
        let ghost before = out@.map_values(|x: i64| x as int);
        match parse_i64_chars(&pieces[i], 10) {
            Some(x) => {
                out.push(x);
                assert(out@.map_values(|x: i64| x as int) == before.push(x as int));
            },
            None => {},
        }
        i = i + 1;
    }
    assert(pv.take(i as int) == pv);
    out
}

/// A value bound to a `?` placeholder of a query.
#[derive(Debug, Clone, PartialEq, Eq)]
pub enum SqlValue {
    Integer(i64),
    Text(String),
}

/// The mathematical view of a bound value.
pub enum SqlArg {
    Integer(int),
    Text(Seq<char>),
}

/// The view of bound values.
pub open spec fn arg_views(v: Seq<SqlValue>) -> Seq<SqlArg> {
    v.map_values(
        |x: SqlValue|
            match x {
                SqlValue::Integer(i) => SqlArg::Integer(i as int),
                SqlValue::Text(t) => SqlArg::Text(t@),
            },
    )
}

/// The album a listing is restricted to, as stored.
#[derive(Debug, Clone)]
pub struct AlbumInfo {
    pub kind: String,
    pub rule_json: Option<String>,
}

/// Conditions and bound values of a listing, in order, and the full-text
/// query the page is ranked by (if any).
pub struct Filter {
    pub clauses: Vec<String>,
    pub values: Vec<SqlValue>,
}

/// The view of a list of strings.
pub open spec fn views(v: Seq<String>) -> Seq<Seq<char>> {
    v.map_values(|s: String| s@)
}

/// Condition of a listing view.
pub open spec fn view_clauses(view: Seq<char>) -> Seq<Seq<char>> {
    if view == "inbox"@ {
        seq![INBOX_CLAUSE@]
    } else if view == "recent"@ {
        seq![RECENT_CLAUSE@]
    } else if view == "favorites"@ {
        seq![FAVORITE_CLAUSE@]
    } else if view == "duplicates"@ {
        seq![DUPLICATES_CLAUSE@]
    } else if view == "missing"@ {
        seq![MISSING_CLAUSE@]
    } else {
        seq![]
    }
}

/// Pictures that have an available copy outside the library folder.
pub const INBOX_CLAUSE: &'static str = "EXISTS (SELECT 1 FROM asset_locations li WHERE li.asset_id = a.id AND li.available = 1 AND li.needs_organize = 1)";
/// Pictures imported in the last 30 days.
pub const RECENT_CLAUSE: &'static str = "datetime(a.imported_at) >= datetime('now', '-30 days')";
/// Favourite pictures.
pub const FAVORITE_CLAUSE: &'static str = "a.favorite = 1";
/// Pictures with several available copies or a near-identical perceptual hash.
pub const DUPLICATES_CLAUSE: &'static str = "((SELECT COUNT(*) FROM asset_locations ld WHERE ld.asset_id = a.id AND ld.available = 1) > 1
              OR EXISTS (
                SELECT 1 FROM assets similar
                WHERE similar.id != a.id
                  AND a.perceptual_hash IS NOT NULL AND similar.perceptual_hash IS NOT NULL
                  AND (a.phash0 = similar.phash0 OR a.phash1 = similar.phash1 OR a.phash2 = similar.phash2 OR a.phash3 = similar.phash3)
                  AND hamming_hex(a.perceptual_hash, similar.perceptual_hash) <= 3
              ))";
/// Pictures without an available copy.
pub const MISSING_CLAUSE: &'static str = "NOT EXISTS (SELECT 1 FROM asset_locations lm WHERE lm.asset_id = a.id AND lm.available = 1)";
/// Pictures of a manual album.
pub const ALBUM_CLAUSE: &'static str = "EXISTS (SELECT 1 FROM album_assets qa WHERE qa.asset_id = a.id AND qa.album_id = ?)";
/// Pictures with recognised text.
pub const OCR_CLAUSE: &'static str = "LENGTH(TRIM(COALESCE(a.ocr_text, ''))) > 0";
/// Pictures captured in the current month.
pub const MONTH_CLAUSE: &'static str = "strftime('%Y-%m', a.captured_at) = strftime('%Y-%m', 'now', 'localtime')";
/// No picture.
pub const NOTHING_CLAUSE: &'static str = "0 = 1";
/// Captured on or after a date.
pub const DATE_FROM_CLAUSE: &'static str = "date(a.captured_at) >= date(?)";
/// Captured on or before a date.
pub const DATE_TO_CLAUSE: &'static str = "date(a.captured_at) <= date(?)";
/// Of a category.
pub const CATEGORY_CLAUSE: &'static str = "a.category = ?";
/// With an available copy whose source label matches.
pub const SOURCE_CLAUSE: &'static str = "EXISTS (SELECT 1 FROM asset_locations qs WHERE qs.asset_id = a.id AND qs.available = 1 AND LOWER(qs.source) LIKE ?)";
/// Whose location matches.
pub const LOCATION_CLAUSE: &'static str = "LOWER(COALESCE(a.location, '')) LIKE ?";
/// Found by the full-text index.
pub const MATCH_CLAUSE: &'static str = "a.id IN (SELECT asset_id FROM asset_search WHERE asset_search MATCH ?)";
/// File name matches.
pub const FILENAME_LIKE: &'static str = "LOWER(a.filename) LIKE ?";
/// Description matches.
pub const DESCRIPTION_LIKE: &'static str = "LOWER(COALESCE(a.description, '')) LIKE ?";
/// Recognised text matches.
pub const OCR_LIKE: &'static str = "LOWER(COALESCE(a.ocr_text, '')) LIKE ?";
/// Tags match.
pub const TAGS_LIKE: &'static str = "LOWER(a.tags_json) LIKE ?";
/// An available path matches.
pub const PATH_LIKE: &'static str = "EXISTS (SELECT 1 FROM asset_locations ls WHERE ls.asset_id = a.id AND ls.available = 1 AND LOWER(ls.path) LIKE ?)";

/// Conditions of a smart album rule.
pub open spec fn rule_clauses(rule: Seq<char>) -> Seq<Seq<char>> {
    (if spec_json_bool_field(rule, "hasOcr"@) == Some(true) {
        seq![OCR_CLAUSE@]
    } else {
        seq![]
    }) + (if spec_json_bool_field(rule, "favorite"@) == Some(true) {
        seq![FAVORITE_CLAUSE@]
    } else {
        seq![]
    }) + (if spec_json_str_field(rule, "dateRange"@) == Some("month"@) {
        seq![MONTH_CLAUSE@]
    } else {
        seq![]
    })
}

/// Conditions and values of an album restriction: a manual album by
/// membership, a smart album by its rule, an unknown album or a smart album
/// without a rule by a condition that nothing meets.
pub open spec fn album_filter(album_id: Option<i64>, album: Option<AlbumInfo>) -> (Seq<Seq<char>>, Seq<SqlArg>) {
    match album_id {
        None => (seq![], seq![]),
        Some(id) => match album {
            Some(a) => if a.kind@ == "manual"@ {
                (seq![ALBUM_CLAUSE@], seq![SqlArg::Integer(id as int)])
            } else {
                match a.rule_json {
                    Some(r) => (rule_clauses(r@), seq![]),
                    None => (seq![NOTHING_CLAUSE@], seq![]),
                }
            },
            None => (seq![NOTHING_CLAUSE@], seq![]),
        },
    }
}

/// Whether an optional text holds something besides white space.
pub open spec fn nonblank(o: Option<String>) -> bool {
    o matches Some(s) && trim_ws(s@).len() > 0
}

/// `%text%` with the text lower-cased, for a `LIKE` pattern.
pub open spec fn like_pattern(t: Seq<char>) -> Seq<char> {
    seq!['%'] + spec_to_lowercase(t) + seq!['%']
}

/// Conditions and values of the field filters, in the order date from,
/// date to, category, source, location; blank fields are ignored.
pub open spec fn field_filter(q: AssetQuery) -> (Seq<Seq<char>>, Seq<SqlArg>) {
    let a: (Seq<Seq<char>>, Seq<SqlArg>) = if nonblank(q.date_from) {
        (seq![DATE_FROM_CLAUSE@], seq![SqlArg::Text(q.date_from->0@)])
    } else {
        (seq![], seq![])
    };
    let b: (Seq<Seq<char>>, Seq<SqlArg>) = if nonblank(q.date_to) {
        (seq![DATE_TO_CLAUSE@], seq![SqlArg::Text(q.date_to->0@)])
    } else {
        (seq![], seq![])
    };
    let c: (Seq<Seq<char>>, Seq<SqlArg>) = if nonblank(q.category) {
        (seq![CATEGORY_CLAUSE@], seq![SqlArg::Text(q.category->0@)])
    } else {
        (seq![], seq![])
    };
    let d: (Seq<Seq<char>>, Seq<SqlArg>) = if nonblank(q.source) {
        (seq![SOURCE_CLAUSE@], seq![SqlArg::Text(like_pattern(q.source->0@))])
    } else {
        (seq![], seq![])
    };
    let e: (Seq<Seq<char>>, Seq<SqlArg>) = if nonblank(q.location) {
        (seq![LOCATION_CLAUSE@], seq![SqlArg::Text(like_pattern(q.location->0@))])
    } else {
        (seq![], seq![])
    };
    (a.0 + b.0 + c.0 + d.0 + e.0, a.1 + b.1 + c.1 + d.1 + e.1)
}

/// The `LIKE` conditions of a search, after the full-text condition when there is one.
pub open spec fn search_alternatives(fts: Option<Seq<char>>) -> Seq<Seq<char>> {
    (if fts is Some {
        seq![MATCH_CLAUSE@]
    } else {
        seq![]
    }) + seq![FILENAME_LIKE@, DESCRIPTION_LIKE@, OCR_LIKE@, TAGS_LIKE@, PATH_LIKE@]
}

/// Condition, values and ranking query of a search: on the trimmed text,
/// any of the full-text index (when terms remain), file name, description,
/// recognised text, tags and available paths matches.
pub open spec fn search_filter(search: Option<String>) -> (Seq<Seq<char>>, Seq<SqlArg>, Option<Seq<char>>) {
    if nonblank(search) {
        let t = trim_ws(search->0@);
        let p = SqlArg::Text(like_pattern(t));
        let fts = spec_fts_query(t);
        let clause = seq!['('] + join_seqs(search_alternatives(fts), " OR "@) + seq![')'];
        let vals = (match fts {
            Some(f) => seq![SqlArg::Text(f)],
            None => seq![],
        }) + seq![p, p, p, p, p];
        (seq![clause], vals, fts)
    } else {
        (seq![], seq![], None)
    }
}

/// All conditions of a listing, in order: view, album, fields, search.
pub open spec fn spec_filter(q: AssetQuery, album: Option<AlbumInfo>) -> (Seq<Seq<char>>, Seq<SqlArg>, Option<Seq<char>>) {
    let v = view_clauses(q.view@);
    let a = album_filter(q.album_id, album);
    let f = field_filter(q);
    let s = search_filter(q.search);
    (v + a.0 + f.0 + s.0, a.1 + f.1 + s.1, s.2)
}

/// An element of either part is an element of the two joined.
proof fn lemma_contains_in_join(a: Seq<Seq<char>>, b: Seq<Seq<char>>, x: Seq<char>)
    ensures
        a.contains(x) ==> (a + b).contains(x),
        b.contains(x) ==> (a + b).contains(x),
{
    if a.contains(x) {
        let i = choose|i: int| 0 <= i < a.len() && a[i] == x;
        assert((a + b)[i] == x);
    }
    if b.contains(x) {
        let i = choose|i: int| 0 <= i < b.len() && b[i] == x;
        assert((a + b)[a.len() + i] == x);
    }
}

/// A search on a text that is not blank adds one condition: in brackets and
/// joined by `OR`, the full-text match (only when the text has terms), then
/// file name, description, recognised text, tags and available path each
/// `LIKE` the trimmed, lower-cased text between `%`; its values are the
/// full-text query (when there is one) and then that pattern five times, and
/// the page is ranked by the full-text query. A blank search adds nothing.
pub proof fn law_search_condition(search: Option<String>)
    ensures
        !nonblank(search) ==> search_filter(search) == (
            Seq::<Seq<char>>::empty(),
            Seq::<SqlArg>::empty(),
            None::<Seq<char>>,
        ),
        nonblank(search) ==> ({
            let t = trim_ws(search->0@);
            let p = SqlArg::Text(seq!['%'] + spec_to_lowercase(t) + seq!['%']);
            let likes = seq![FILENAME_LIKE@, DESCRIPTION_LIKE@, OCR_LIKE@, TAGS_LIKE@, PATH_LIKE@];
            let f = search_filter(search);
            &&& f.2 == spec_fts_query(t)
            &&& f.0 == seq![
                seq!['('] + join_seqs(
                    if spec_fts_query(t) is Some {
                        seq![MATCH_CLAUSE@] + likes
                    } else {
                        likes
                    },
                    " OR "@,
                ) + seq![')'],
            ]
            &&& f.1 == (if spec_fts_query(t) is Some {
                seq![SqlArg::Text(spec_fts_query(t)->0), p, p, p, p, p]
            } else {
                seq![p, p, p, p, p]
            })
        }),
{
    if nonblank(search) {
        let t = trim_ws(search->0@);
        let likes = seq![FILENAME_LIKE@, DESCRIPTION_LIKE@, OCR_LIKE@, TAGS_LIKE@, PATH_LIKE@];
        assert(search_alternatives(spec_fts_query(t)) == (if spec_fts_query(t) is Some {
            seq![MATCH_CLAUSE@] + likes
        } else {
            likes
        })) by {
            assert(Seq::<Seq<char>>::empty() + likes == likes);
        }
        let p = SqlArg::Text(seq!['%'] + spec_to_lowercase(t) + seq!['%']);
        if spec_fts_query(t) is Some {
            assert(seq![SqlArg::Text(spec_fts_query(t)->0)] + seq![p, p, p, p, p] =~= seq![
                SqlArg::Text(spec_fts_query(t)->0),
                p,
                p,
                p,
                p,
                p,
            ]);
        } else {
            assert(Seq::<SqlArg>::empty() + seq![p, p, p, p, p] =~= seq![p, p, p, p, p]);
        }
    }
}

/// What restricts a listing. Each view adds its condition (`inbox`,
/// `recent`, `favorites`, `duplicates`, `missing`); a manual album adds its
/// membership condition with the album's id as the first bound value; a
/// smart album adds the conditions its rule asks for (`hasOcr`: recognised
/// text, `favorite`: favourites, `dateRange` `month`: captured this month);
/// an album that is unknown, or smart without a rule, matches nothing; each
/// filled-in field adds its condition; and a search adds one condition.
#[verifier::rlimit(40)]
pub proof fn law_listing_restrictions(q: AssetQuery, album: Option<AlbumInfo>)
    ensures
        ({
            let c = spec_filter(q, album).0;
            &&& q.view@ == "inbox"@ ==> c.contains(INBOX_CLAUSE@)
            &&& q.view@ == "recent"@ ==> c.contains(RECENT_CLAUSE@)
            &&& q.view@ == "favorites"@ ==> c.contains(FAVORITE_CLAUSE@)
            &&& q.view@ == "duplicates"@ ==> c.contains(DUPLICATES_CLAUSE@)
            &&& q.view@ == "missing"@ ==> c.contains(MISSING_CLAUSE@)
            &&& (q.album_id is Some && album is Some && album->0.kind@ == "manual"@) ==> (c.contains(
                ALBUM_CLAUSE@,
            ) && spec_filter(q, album).1.len() > 0 && spec_filter(q, album).1[0] == SqlArg::Integer(
                q.album_id->0 as int,
            ))
            &&& (q.album_id is Some && album is Some && album->0.kind@ != "manual"@
                && album->0.rule_json is Some) ==> {
                let r = album->0.rule_json->0@;
                &&& spec_json_bool_field(r, "hasOcr"@) == Some(true) ==> c.contains(OCR_CLAUSE@)
                &&& spec_json_bool_field(r, "favorite"@) == Some(true) ==> c.contains(
                    FAVORITE_CLAUSE@,
                )
                &&& spec_json_str_field(r, "dateRange"@) == Some("month"@) ==> c.contains(
                    MONTH_CLAUSE@,
                )
            }
            &&& (q.album_id is Some && (album is None || (album->0.kind@ != "manual"@
                && album->0.rule_json is None))) ==> c.contains(NOTHING_CLAUSE@)
            &&& nonblank(q.date_from) ==> c.contains(DATE_FROM_CLAUSE@)
            &&& nonblank(q.date_to) ==> c.contains(DATE_TO_CLAUSE@)
            &&& nonblank(q.category) ==> c.contains(CATEGORY_CLAUSE@)
            &&& nonblank(q.source) ==> c.contains(SOURCE_CLAUSE@)
            &&& nonblank(q.location) ==> c.contains(LOCATION_CLAUSE@)
            &&& nonblank(q.search) ==> c.len() > 0
        }),
{
    let v = view_clauses(q.view@);
    let a = album_filter(q.album_id, album);
    let f = field_filter(q);
    let s = search_filter(q.search);
    let c = spec_filter(q, album).0;
    assert(c == v + a.0 + f.0 + s.0);
    reveal_strlit("inbox");
    reveal_strlit("recent");
    reveal_strlit("favorites");
    reveal_strlit("duplicates");
    reveal_strlit("missing");
    if view_clauses(q.view@).len() > 0 {
        let x = v[0];
        assert(v.contains(x));
        assert(v == seq![x]);
        assert("inbox"@.len() == 5 && "recent"@.len() == 6 && "favorites"@.len() == 9
            && "duplicates"@.len() == 10 && "missing"@.len() == 7);
        if q.view@ == "recent"@ {
            assert(x == RECENT_CLAUSE@);
        } else if q.view@ == "favorites"@ {
            assert(x == FAVORITE_CLAUSE@);
        } else if q.view@ == "duplicates"@ {
            assert(x == DUPLICATES_CLAUSE@);
        } else if q.view@ == "missing"@ {
            assert(x == MISSING_CLAUSE@);
        }
        lemma_contains_in_join(v, a.0, x);
        lemma_contains_in_join(v + a.0, f.0, x);
        lemma_contains_in_join(v + a.0 + f.0, s.0, x);
    }
    assert forall|x: Seq<char>| #[trigger] a.0.contains(x) implies c.contains(x) by {
        lemma_contains_in_join(v, a.0, x);
        lemma_contains_in_join(v + a.0, f.0, x);
        lemma_contains_in_join(v + a.0 + f.0, s.0, x);
    }
    assert forall|x: Seq<char>| #[trigger] f.0.contains(x) implies c.contains(x) by {
        lemma_contains_in_join(v + a.0, f.0, x);
        lemma_contains_in_join(v + a.0 + f.0, s.0, x);
    }
    if q.album_id is Some && album is Some {
        let al = album->0;
        if al.kind@ == "manual"@ {
            assert(a.0[0] == ALBUM_CLAUSE@);
            assert(a.0.contains(ALBUM_CLAUSE@));
            assert(spec_filter(q, album).1 == a.1 + f.1 + s.1);
            assert(a.1[0] == SqlArg::Integer(q.album_id->0 as int));
        } else if al.rule_json is Some {
            let r = al.rule_json->0@;
            let p1: Seq<Seq<char>> = if spec_json_bool_field(r, "hasOcr"@) == Some(true) {
                seq![OCR_CLAUSE@]
            } else {
                seq![]
            };
            let p2: Seq<Seq<char>> = if spec_json_bool_field(r, "favorite"@) == Some(true) {
                seq![FAVORITE_CLAUSE@]
            } else {
                seq![]
            };
            let p3: Seq<Seq<char>> = if spec_json_str_field(r, "dateRange"@) == Some("month"@) {
                seq![MONTH_CLAUSE@]
            } else {
                seq![]
            };
            assert(a.0 == p1 + p2 + p3);
            if p1.len() > 0 {
                assert(p1[0] == OCR_CLAUSE@);
                assert(p1.contains(OCR_CLAUSE@));
                lemma_contains_in_join(p1, p2, OCR_CLAUSE@);
                lemma_contains_in_join(p1 + p2, p3, OCR_CLAUSE@);
            }
            if p2.len() > 0 {
                assert(p2[0] == FAVORITE_CLAUSE@);
                assert(p2.contains(FAVORITE_CLAUSE@));
                lemma_contains_in_join(p1, p2, FAVORITE_CLAUSE@);
                lemma_contains_in_join(p1 + p2, p3, FAVORITE_CLAUSE@);
            }
            if p3.len() > 0 {
                assert(p3[0] == MONTH_CLAUSE@);
                assert(p3.contains(MONTH_CLAUSE@));
                lemma_contains_in_join(p1 + p2, p3, MONTH_CLAUSE@);
            }
        } else {
            assert(a.0[0] == NOTHING_CLAUSE@);
            assert(a.0.contains(NOTHING_CLAUSE@));
        }
    } else if q.album_id is Some {
        assert(a.0[0] == NOTHING_CLAUSE@);
        assert(a.0.contains(NOTHING_CLAUSE@));
    }
    let fa: Seq<Seq<char>> = if nonblank(q.date_from) { seq![DATE_FROM_CLAUSE@] } else { seq![] };
    let fb: Seq<Seq<char>> = if nonblank(q.date_to) { seq![DATE_TO_CLAUSE@] } else { seq![] };
    let fc: Seq<Seq<char>> = if nonblank(q.category) { seq![CATEGORY_CLAUSE@] } else { seq![] };
    let fd: Seq<Seq<char>> = if nonblank(q.source) { seq![SOURCE_CLAUSE@] } else { seq![] };
    let fe: Seq<Seq<char>> = if nonblank(q.location) { seq![LOCATION_CLAUSE@] } else { seq![] };
    assert(f.0 == fa + fb + fc + fd + fe);
    assert forall|x: Seq<char>|
        fa.contains(x) || fb.contains(x) || fc.contains(x) || fd.contains(x) || fe.contains(x)
            implies #[trigger] f.0.contains(x) by {
        lemma_contains_in_join(fa, fb, x);
        lemma_contains_in_join(fa + fb, fc, x);
        lemma_contains_in_join(fa + fb + fc, fd, x);
        lemma_contains_in_join(fa + fb + fc + fd, fe, x);
    }
    if nonblank(q.date_from) {
        assert(fa[0] == DATE_FROM_CLAUSE@);
        assert(fa.contains(DATE_FROM_CLAUSE@));
        assert(f.0.contains(DATE_FROM_CLAUSE@));
        assert(c.contains(DATE_FROM_CLAUSE@));
    }
    if nonblank(q.date_to) {
        assert(fb[0] == DATE_TO_CLAUSE@);
        assert(fb.contains(DATE_TO_CLAUSE@));
        assert(f.0.contains(DATE_TO_CLAUSE@));
        assert(c.contains(DATE_TO_CLAUSE@));
    }
    if nonblank(q.category) {
        assert(fc[0] == CATEGORY_CLAUSE@);
        assert(fc.contains(CATEGORY_CLAUSE@));
        assert(f.0.contains(CATEGORY_CLAUSE@));
        assert(c.contains(CATEGORY_CLAUSE@));
    }
    if nonblank(q.source) {
        assert(fd[0] == SOURCE_CLAUSE@);
        assert(fd.contains(SOURCE_CLAUSE@));
        assert(f.0.contains(SOURCE_CLAUSE@));
        assert(c.contains(SOURCE_CLAUSE@));
    }
    if nonblank(q.location) {
        assert(fe[0] == LOCATION_CLAUSE@);
        assert(fe.contains(LOCATION_CLAUSE@));
        assert(f.0.contains(LOCATION_CLAUSE@));
        assert(c.contains(LOCATION_CLAUSE@));
    }
    if nonblank(q.search) {
        assert(s.0 =~= seq![s.0[0]]);
        assert(s.0.len() == 1);
        assert(c.len() == v.len() + a.0.len() + f.0.len() + s.0.len());
    }
}

/// `WHERE` part of a listing.
pub open spec fn where_sql(clauses: Seq<Seq<char>>) -> Seq<char> {
    if clauses.len() == 0 {
        seq![]
    } else {
        " WHERE "@ + join_seqs(clauses, " AND "@)
    }
}

/// Page size: the requested limit (200 by default) clamped to 1..=500.
pub open spec fn page_limit(limit: Option<u32>) -> u32 {
    let l = match limit {
        Some(x) => x,
        None => 200u32,
    };
    if l < 1 {
        1
    } else if l > 500 {
        500
    } else {
        l
    }
}

/// Ordering of a page: by full-text rank when searching with terms, then
/// newest capture first.
pub open spec fn order_sql(ranked: bool) -> Seq<char> {
    if ranked {
        RANKED_ORDER@
    } else {
        PLAIN_ORDER@
    }
}

/// Ordering by full-text rank, then capture time.
pub const RANKED_ORDER: &'static str = "COALESCE((
            SELECT bm25(asset_search, 8.0, 3.0, 4.0, 5.0, 2.0, 2.0, 1.5, 1.5, 1.0, 1.5, 2.0)
            FROM asset_search
            WHERE asset_search MATCH ? AND asset_id = a.id
        ), 9999.0), datetime(a.captured_at) DESC, a.id DESC";
/// Ordering by capture time.
pub const PLAIN_ORDER: &'static str = "datetime(a.captured_at) DESC, a.id DESC";
/// The columns of a listed picture.
pub const SELECT_HEAD: &'static str = "SELECT
            a.id, a.filename,
            COALESCE((SELECT l.path FROM asset_locations l WHERE l.asset_id = a.id ORDER BY l.available DESC, l.needs_organize DESC, l.id LIMIT 1), ''),
            a.thumbnail_path, a.width, a.height, a.captured_at, a.imported_at, a.file_size,
            COALESCE((SELECT l.source FROM asset_locations l WHERE l.asset_id = a.id ORDER BY l.available DESC, l.id LIMIT 1), '本地'),
            a.category, a.favorite,
            CASE WHEN EXISTS (SELECT 1 FROM asset_locations lm WHERE lm.asset_id = a.id AND lm.available = 1) THEN 0 ELSE 1 END,
            CASE WHEN EXISTS (SELECT 1 FROM asset_locations lo WHERE lo.asset_id = a.id AND lo.available = 1 AND lo.needs_organize = 1) THEN 1 ELSE 0 END,
            MAX(0, (SELECT COUNT(*) FROM asset_locations ld WHERE ld.asset_id = a.id AND ld.available = 1) - 1),
            (SELECT COUNT(*) FROM assets similar
             WHERE similar.id != a.id
               AND a.perceptual_hash IS NOT NULL AND similar.perceptual_hash IS NOT NULL
               AND (a.phash0 = similar.phash0 OR a.phash1 = similar.phash1 OR a.phash2 = similar.phash2 OR a.phash3 = similar.phash3)
               AND hamming_hex(a.perceptual_hash, similar.perceptual_hash) <= 3),
            a.content_hash, a.camera, a.location, a.description, a.ocr_text, a.tags_json, a.ai_analyzed,
            COALESCE((SELECT GROUP_CONCAT(aa.album_id) FROM album_assets aa WHERE aa.asset_id = a.id), '')
         FROM assets a";

/// The statements that list one page of pictures: a count over all matches
/// and a page query, each with its bound values.
pub struct AssetSqlPlan {
    pub count_sql: String,
    pub count_values: Vec<SqlValue>,
    pub select_sql: String,
    pub select_values: Vec<SqlValue>,
    pub limit: u32,
    pub offset: u32,
}

fn push_clause(clauses: &mut Vec<String>, c: &str)
    ensures
        views(final(clauses)@) == views(old(clauses)@).push(c@),
{
    clauses.push(String::from_str(c));
    assert(views(clauses@) == views(old(clauses)@).push(c@));
}

fn push_text(values: &mut Vec<SqlValue>, t: String)
    ensures
        arg_views(final(values)@) == arg_views(old(values)@).push(SqlArg::Text(t@)),
{
    values.push(SqlValue::Text(t));
    assert(arg_views(values@) == arg_views(old(values)@).push(SqlArg::Text(t@)));
}

fn is_nonblank(o: &Option<String>) -> (b: bool)
    ensures
        b == nonblank(*o),
{
    match o {
        Some(s) => {
            let v = chars_of(s.as_str());
            trim_chars(&v, CharClass::WhiteSpace).len() > 0
        },
        None => false,
    }
}

fn like_of(t: &str) -> (out: String)
    ensures
        out@ == like_pattern(t@),
{
    let mut v: Vec<char> = Vec::new();
    v.push('%');
    push_str(&mut v, to_lowercase(t).as_str());
    v.push('%');
    string_from_chars(&v)
}

/// Appends `b` to `a`.
fn append_strings(a: &mut Vec<String>, b: Vec<String>)
    ensures
        views(final(a)@) == views(old(a)@) + views(b@),
{
    let mut i: usize = 0;
    let ghost start = views(a@);
    while i < b.len()
        invariant
            i <= b@.len(),
            views(a@) == start + views(b@).take(i as int),
        decreases b.len() - i,
    {
        let ghost before = views(a@);
        a.push(b[i].clone());
        assert(views(a@) == before.push(b@[i as int]@));
        assert(views(b@).take(i + 1) == views(b@).take(i as int).push(b@[i as int]@));
        i = i + 1;
    }
    assert(views(b@).take(i as int) == views(b@));
}

/// A copy of bound values.
fn copy_value(v: &SqlValue) -> (out: SqlValue)
    ensures
        arg_views(seq![out]) == arg_views(seq![*v]),
{
    match v {
        SqlValue::Integer(i) => SqlValue::Integer(*i),
        SqlValue::Text(t) => SqlValue::Text(t.clone()),
    }
}

/// Appends `b` to `a`.
fn append_values(a: &mut Vec<SqlValue>, b: &Vec<SqlValue>)
    ensures
        arg_views(final(a)@) == arg_views(old(a)@) + arg_views(b@),
{
    let mut i: usize = 0;
    let ghost start = arg_views(a@);
    while i < b.len()
        invariant
            i <= b@.len(),
            arg_views(a@) == start + arg_views(b@).take(i as int),
        decreases b.len() - i,
    {
        let x = copy_value(&b[i]);
        let ghost before = arg_views(a@);
        a.push(x);
        assert(arg_views(a@) == before + arg_views(seq![x]));
        assert(arg_views(seq![b@[i as int]])[0] == arg_views(b@)[i as int]);
        assert(arg_views(b@).take(i + 1) == arg_views(b@).take(i as int).push(arg_views(b@)[i as int]));
        i = i + 1;
    }
    assert(arg_views(b@).take(i as int) == arg_views(b@));
}

fn view_part(view: &str) -> (out: Vec<String>)
    ensures
        views(out@) == view_clauses(view@),
{
    let mut clauses: Vec<String> = Vec::new();
    if str_eq(view, "inbox") {
        push_clause(&mut clauses, INBOX_CLAUSE);
    } else if str_eq(view, "recent") {
        push_clause(&mut clauses, RECENT_CLAUSE);
    } else if str_eq(view, "favorites") {
        push_clause(&mut clauses, FAVORITE_CLAUSE);
    } else if str_eq(view, "duplicates") {
        push_clause(&mut clauses, DUPLICATES_CLAUSE);
    } else if str_eq(view, "missing") {
        push_clause(&mut clauses, MISSING_CLAUSE);
    }
    clauses
}

fn rule_part(r: &str) -> (out: Vec<String>)
    ensures
        views(out@) == rule_clauses(r@),
{
    let mut clauses: Vec<String> = Vec::new();
    if json_bool_field(r, "hasOcr") == Some(true) {
        push_clause(&mut clauses, OCR_CLAUSE);
    }
    let ghost c1 = views(clauses@);
    if json_bool_field(r, "favorite") == Some(true) {
        push_clause(&mut clauses, FAVORITE_CLAUSE);
    }
    let ghost c2 = views(clauses@);
    let dr = json_str_field(r, "dateRange");
    let month = match &dr {
        Some(d) => str_eq(d.as_str(), "month"),
        None => false,
    };
    if month {
        push_clause(&mut clauses, MONTH_CLAUSE);
    }
    clauses
}

fn album_part(album_id: Option<i64>, album: &Option<AlbumInfo>) -> (out: (Vec<String>, Vec<SqlValue>))
    ensures
        views(out.0@) == album_filter(album_id, *album).0,
        arg_views(out.1@) == album_filter(album_id, *album).1,
{
    let mut clauses: Vec<String> = Vec::new();
    let mut values: Vec<SqlValue> = Vec::new();
    if let Some(id) = album_id {
        match album {
            Some(a) => {
                if str_eq(a.kind.as_str(), "manual") {
                    push_clause(&mut clauses, ALBUM_CLAUSE);
                    values.push(SqlValue::Integer(id));
                    assert(arg_views(values@) == seq![SqlArg::Integer(id as int)]);
                } else {
                    match &a.rule_json {
                        Some(r) => {
                            clauses = rule_part(r.as_str());
                        },
                        None => {
                            push_clause(&mut clauses, NOTHING_CLAUSE);
                        },
                    }
                }
            },
            None => {
                push_clause(&mut clauses, NOTHING_CLAUSE);
            },
        }
    }
    (clauses, values)
}

#[verifier::rlimit(40)]
fn field_part(query: &AssetQuery) -> (out: (Vec<String>, Vec<SqlValue>))
    ensures
        views(out.0@) == field_filter(*query).0,
        arg_views(out.1@) == field_filter(*query).1,
{
    let mut clauses: Vec<String> = Vec::new();
    let mut values: Vec<SqlValue> = Vec::new();
    if is_nonblank(&query.date_from) {
        push_clause(&mut clauses, DATE_FROM_CLAUSE);
        push_text(&mut values, query.date_from.clone().unwrap());
    }
    if is_nonblank(&query.date_to) {
        push_clause(&mut clauses, DATE_TO_CLAUSE);
        push_text(&mut values, query.date_to.clone().unwrap());
    }
    if is_nonblank(&query.category) {
        push_clause(&mut clauses, CATEGORY_CLAUSE);
        push_text(&mut values, query.category.clone().unwrap());
    }
    if is_nonblank(&query.source) {
        push_clause(&mut clauses, SOURCE_CLAUSE);
        let s = query.source.clone().unwrap();
        push_text(&mut values, like_of(s.as_str()));
    }
    if is_nonblank(&query.location) {
        push_clause(&mut clauses, LOCATION_CLAUSE);
        let s = query.location.clone().unwrap();
        push_text(&mut values, like_of(s.as_str()));
    }
    (clauses, values)
}

fn search_part(search: &Option<String>) -> (out: (Vec<String>, Vec<SqlValue>, Option<String>))
    ensures
        ({
            let f = search_filter(*search);
            &&& views(out.0@) == f.0
            &&& arg_views(out.1@) == f.1
            &&& match out.2 {
                Some(r) => f.2 == Some(r@),
                None => f.2 is None,
            }
        }),
{
    let mut clauses: Vec<String> = Vec::new();
    let mut values: Vec<SqlValue> = Vec::new();
    if !is_nonblank(search) {
        return (clauses, values, None);
    }
    let raw = search.clone().unwrap();
    let rv = chars_of(raw.as_str());
    let tv = trim_chars(&rv, CharClass::WhiteSpace);
    let t = string_from_chars(&tv);
    let pattern = like_of(t.as_str());
    let fts = fts_query(t.as_str());
    let mut alts: Vec<String> = Vec::new();
    match &fts {
        Some(q) => {
            push_clause(&mut alts, MATCH_CLAUSE);
            push_text(&mut values, q.clone());
        },
        None => {},
    }
    push_clause(&mut alts, FILENAME_LIKE);
    push_clause(&mut alts, DESCRIPTION_LIKE);
    push_clause(&mut alts, OCR_LIKE);
    push_clause(&mut alts, TAGS_LIKE);
    push_clause(&mut alts, PATH_LIKE);
    let ghost fv: Option<Seq<char>> = match &fts {
        Some(q) => Some(q@),
        None => None,
    };
    assert(views(alts@) == search_alternatives(fv));
    assert(tv@ == trim_ws(search->0@));
    assert(fv == spec_fts_query(trim_ws(search->0@)));
    assert(arg_views(values@) == match fv {
        Some(f) => seq![SqlArg::Text(f)],
        None => Seq::<SqlArg>::empty(),
    });
    let joined = join_strings(&alts, " OR ");
    let mut c: Vec<char> = Vec::new();
    c.push('(');
    push_all(&mut c, &joined);
    c.push(')');
    assert(c@ == seq!['('] + join_seqs(search_alternatives(fv), " OR "@) + seq![')']);
    push_clause(&mut clauses, string_from_chars(&c).as_str());
    let mut k: usize = 0;
    let ghost v4 = arg_views(values@);
    while k < 5
        invariant
            k <= 5,
            arg_views(values@) == v4 + Seq::new(k as nat, |i: int| SqlArg::Text(pattern@)),
        decreases 5 - k,
    {
        push_text(&mut values, pattern.clone());
        k = k + 1;
        assert(arg_views(values@) == v4 + Seq::new(k as nat, |i: int| SqlArg::Text(pattern@)));
    }
    let ghost p = SqlArg::Text(pattern@);
    assert(Seq::new(5, |i: int| SqlArg::Text(pattern@)) == seq![p, p, p, p, p]);
    (clauses, values, fts)
}

/// The conditions and values of a listing, and its ranking query.
pub fn build_filter(query: &AssetQuery, album: &Option<AlbumInfo>) -> (out: (Vec<String>, Vec<SqlValue>, Option<String>))
    ensures
        ({
            let f = spec_filter(*query, *album);
            &&& views(out.0@) == f.0
            &&& arg_views(out.1@) == f.1
            &&& match out.2 {
                Some(r) => f.2 == Some(r@),
                None => f.2 is None,
            }
        }),
{
    let mut clauses = view_part(query.view.as_str());
    let (ac, av) = album_part(query.album_id, album);
    let (fc, fv) = field_part(query);
    let (sc, sv, rank) = search_part(&query.search);
    append_strings(&mut clauses, ac);
    append_strings(&mut clauses, fc);
    append_strings(&mut clauses, sc);
    let mut values: Vec<SqlValue> = Vec::new();
    append_values(&mut values, &av);
    append_values(&mut values, &fv);
    append_values(&mut values, &sv);
    assert(arg_views(values@) == arg_views(av@) + arg_views(fv@) + arg_views(sv@));
    (clauses, values, rank)
}

/// Builds the statements that list one page of pictures for a query. The
/// album restriction uses `album`, the stored album the query names (or
/// `None` when it names none or an unknown one).
pub fn build_asset_query(query: &AssetQuery, album: &Option<AlbumInfo>) -> (out: AssetSqlPlan)
    ensures
        ({
            let f = spec_filter(*query, *album);
            let w = where_sql(f.0);
            let lim = page_limit(query.limit);
            let off: u32 = match query.cursor {
                Some(c) => c,
                None => 0u32,
            };
            &&& out.count_sql@ == "SELECT COUNT(*) FROM assets a"@ + w
            &&& arg_views(out.count_values@) == f.1
            &&& out.select_sql@ == SELECT_HEAD@ + w + "\n         ORDER BY "@ + order_sql(f.2 is Some)
                + " LIMIT ? OFFSET ?"@
            &&& arg_views(out.select_values@) == f.1 + (match f.2 {
                Some(r) => seq![SqlArg::Text(r)],
                None => seq![],
            }) + seq![SqlArg::Integer(lim as int), SqlArg::Integer(off as int)]
            &&& out.limit == lim
            &&& out.offset == off
        }),
{
    let (clauses, values, rank) = build_filter(query, album);
    let mut w: Vec<char> = Vec::new();
    if clauses.len() > 0 {
        push_str(&mut w, " WHERE ");
        let j = join_strings(&clauses, " AND ");
        push_all(&mut w, &j);
    }
    assert(w@ == where_sql(views(clauses@)));
    let mut count: Vec<char> = chars_of("SELECT COUNT(*) FROM assets a");
    push_all(&mut count, &w);
    let requested = match query.limit {
        Some(x) => x,
        None => 200,
    };
    let limit = if requested < 1 {
        1
    } else if requested > 500 {
        500
    } else {
        requested
    };
    let offset = match query.cursor {
        Some(c) => c,
        None => 0,
    };
    let mut select_values: Vec<SqlValue> = Vec::new();
    append_values(&mut select_values, &values);
    let ranked = rank.is_some();
    match rank {
        Some(r) => push_text(&mut select_values, r),
        None => {},
    }
    let ghost sv0 = arg_views(select_values@);
    select_values.push(SqlValue::Integer(limit as i64));
    select_values.push(SqlValue::Integer(offset as i64));
    assert(arg_views(select_values@) == sv0 + seq![SqlArg::Integer(limit as int), SqlArg::Integer(offset as int)]);
    let mut sel: Vec<char> = chars_of(SELECT_HEAD);
    push_all(&mut sel, &w);
    push_str(&mut sel, "\n         ORDER BY ");
    if ranked {
        push_str(&mut sel, RANKED_ORDER);
    } else {
        push_str(&mut sel, PLAIN_ORDER);
    }
    push_str(&mut sel, " LIMIT ? OFFSET ?");
    AssetSqlPlan {
        count_sql: string_from_chars(&count),
        count_values: values,
        select_sql: string_from_chars(&sel),
        select_values,
        limit,
        offset,
    }
}

/// Paging: a page holds the requested number of pictures (200 when none is
/// requested) kept between 1 and 500; the next page starts right after this
/// one, and there is one exactly when pictures remain after it.
pub proof fn law_paging(limit: Option<u32>, offset: u32, count: nat, total: int)
    ensures
        1 <= page_limit(limit) <= 500,
        limit is None ==> page_limit(limit) == 200,
        limit is Some && 1 <= limit->0 <= 500 ==> page_limit(limit) == limit->0,
        limit is Some && limit->0 > 500 ==> page_limit(limit) == 500,
        limit == Some(0u32) ==> page_limit(limit) == 1,
        spec_next_cursor(offset, count, total) is Some <==> offset + count < total,
        spec_next_cursor(offset, count, total) is Some ==> spec_next_cursor(offset, count, total)->0
            == offset + count,
{
}

/// The cursor of the next page: present when the pictures before and on
/// this page are fewer than all matches.
pub open spec fn spec_next_cursor(offset: u32, count: nat, total: int) -> Option<int> {
    if offset + count < total {
        Some(offset + count)
    } else {
        None
    }
}

/// The cursor of the page after one that started at `offset` and held
/// `count` pictures out of `total`.
pub fn next_cursor(offset: u32, count: usize, total: i64) -> (out: Option<u32>)
    requires
        count <= 500,
        offset + count < total ==> offset + count <= u32::MAX,
    ensures
        match out {
            Some(c) => spec_next_cursor(offset, count as nat, total as int) == Some(c as int),
            None => spec_next_cursor(offset, count as nat, total as int) is None,
        },
{
    if (offset as i64) + (count as i64) < total {
        Some(offset + count as u32)
    } else {
        None
    }
}

} // verus!
