//! Rules of the cloud AI features: which key is kept, which endpoint is
//! called, what a connection test reports, and how a model reply is cleaned.

use vstd::prelude::*;
use crate::error::AppError;
use crate::wrappers::{json_pointer_str, spec_json_pointer_str};
use crate::models::{str_views, AppSettings, ConnectionTestResult};
use crate::text::{
    chars_of, decimal, push_all, push_decimal, push_str, slice_to_vec, starts_with_chars,
    starts_with_seq, string_from_chars, trim_chars, trim_end_by, trim_end_chars, trim_ws,
    matches_at, occurs_at, str_eq, CharClass,
};

verus! {

broadcast use vstd::string::group_string_axioms;

/// The API key that saving keeps: the trimmed text, or nothing when it is blank.
pub open spec fn spec_key_to_store(value: Seq<char>) -> Option<Seq<char>> {
    if trim_ws(value).len() == 0 {
        None
    } else {
        Some(trim_ws(value))
    }
}

/// The key to store for the entered text (`None`: nothing is stored).
pub fn key_to_store(value: &str) -> (out: Option<String>)
    ensures
        match out {
            Some(k) => spec_key_to_store(value@) == Some(k@),
            None => spec_key_to_store(value@) is None,
        },
{
    let cs = chars_of(value);
    let t = trim_chars(&cs, CharClass::WhiteSpace);
    if t.len() == 0 {
        None
    } else {
        Some(string_from_chars(&t))
    }
}

/// The key that a connection test uses from its form: the entered key,
/// trimmed, when it is not blank. `None` means the stored key is used.
pub fn entered_key(api_key: &Option<String>) -> (out: Option<String>)
    ensures
        match api_key {
            Some(k) => match out {
                Some(o) => spec_key_to_store(k@) == Some(o@),
                None => spec_key_to_store(k@) is None,
            },
            None => out is None,
        },
{
    match api_key {
        Some(k) => key_to_store(k.as_str()),
        None => None,
    }
}

/// The service base of a connection test: the address trimmed, without trailing `/`.
pub open spec fn spec_test_base(base_url: Seq<char>) -> Seq<char> {
    trim_end_by(trim_ws(base_url), CharClass::Slash)
}

/// The address a connection test calls, or the error for an empty address or model.
pub open spec fn spec_models_endpoint(base_url: Seq<char>, model: Seq<char>) -> Result<
    Seq<char>,
    AppError,
> {
    if spec_test_base(base_url).len() == 0 || trim_ws(model).len() == 0 {
        Err(AppError::MissingConnectionFields)
    } else {
        Ok(spec_test_base(base_url) + "/models"@)
    }
}

/// The `/models` address that a connection test calls.
pub fn models_endpoint(base_url: &str, model: &str) -> (out: Result<String, AppError>)
    ensures
        match out {
            Ok(u) => spec_models_endpoint(base_url@, model@) == Ok::<Seq<char>, AppError>(u@),
            Err(e) => spec_models_endpoint(base_url@, model@) == Err::<Seq<char>, AppError>(e),
        },
{
    let b = chars_of(base_url);
    let t = trim_chars(&b, CharClass::WhiteSpace);
    let mut base = trim_end_chars(&t, CharClass::Slash);
    let m = chars_of(model);
    let mt = trim_chars(&m, CharClass::WhiteSpace);
    if base.len() == 0 || mt.len() == 0 {
        return Err(AppError::MissingConnectionFields);
    }
    push_str(&mut base, "/models");
    Ok(string_from_chars(&base))
}

/// Whether an HTTP status counts as success (`200..=299`, as `StatusCode::is_success`).
pub open spec fn is_success_status(status: u16) -> bool {
    200 <= status <= 299
}

/// The message of a connection test.
pub open spec fn spec_connection_message(status: u16, model: Seq<char>) -> Seq<char> {
    if is_success_status(status) {
        "连接成功，可使用模型 "@ + trim_ws(model)
    } else {
        "服务返回 HTTP "@ + decimal(status as nat)
    }
}

/// What a connection test reports for the status the service answered.
pub fn connection_outcome(status: u16, latency_ms: u128, model: &str) -> (r: ConnectionTestResult)
    ensures
        r.ok == is_success_status(status),
        r.latency_ms == latency_ms,
        r.message@ == spec_connection_message(status, model@),
{
    let mut msg: Vec<char> = Vec::new();
    let ok = 200 <= status && status <= 299;
    if ok {
        push_str(&mut msg, "连接成功，可使用模型 ");
        let m = chars_of(model);
        let mt = trim_chars(&m, CharClass::WhiteSpace);
        push_all(&mut msg, &mt);
    } else {
        push_str(&mut msg, "服务返回 HTTP ");
        push_decimal(&mut msg, status as u64);
    }
    ConnectionTestResult { ok, latency_ms, message: string_from_chars(&msg) }
}

/// The chat address of an analysis: the configured base without trailing `/`.
pub open spec fn spec_chat_endpoint(base_url: Seq<char>) -> Seq<char> {
    trim_end_by(base_url, CharClass::Slash) + "/chat/completions"@
}

/// The address an analysis posts to, or the error when cloud AI is off.
pub open spec fn spec_analysis_endpoint(settings: AppSettings) -> Result<Seq<char>, AppError> {
    if !settings.cloud_ai_enabled {
        Err(AppError::CloudAiDisabled)
    } else {
        Ok(spec_chat_endpoint(settings.ai_base_url@))
    }
}

/// The chat address that an analysis posts to.
pub fn analysis_endpoint(settings: &AppSettings) -> (out: Result<String, AppError>)
    ensures
        match out {
            Ok(u) => spec_analysis_endpoint(*settings) == Ok::<Seq<char>, AppError>(u@),
            Err(e) => spec_analysis_endpoint(*settings) == Err::<Seq<char>, AppError>(e),
        },
{
    if !settings.cloud_ai_enabled {
        return Err(AppError::CloudAiDisabled);
    }
    let b = chars_of(settings.ai_base_url.as_str());
    let mut base = trim_end_chars(&b, CharClass::Slash);
    push_str(&mut base, "/chat/completions");
    Ok(string_from_chars(&base))
}

/// The addresses the service is called at: an analysis posts to the
/// configured base, without trailing `/`, followed by `/chat/completions`,
/// and is refused with `CloudAiDisabled` while cloud AI is off; a connection
/// test calls the trimmed base, without trailing `/`, followed by `/models`,
/// and is refused with `MissingConnectionFields` when that base or the
/// model is blank; a test succeeds exactly on an HTTP status from 200 to 299.
pub proof fn law_service_addresses(settings: AppSettings, base_url: Seq<char>, model: Seq<char>, status: u16)
    ensures
        !settings.cloud_ai_enabled ==> spec_analysis_endpoint(settings) == Err::<Seq<char>, AppError>(
            AppError::CloudAiDisabled,
        ),
        settings.cloud_ai_enabled ==> spec_analysis_endpoint(settings) == Ok::<Seq<char>, AppError>(
            trim_end_by(settings.ai_base_url@, CharClass::Slash) + "/chat/completions"@,
        ),
        (trim_end_by(trim_ws(base_url), CharClass::Slash).len() == 0 || trim_ws(model).len() == 0)
            ==> spec_models_endpoint(base_url, model) == Err::<Seq<char>, AppError>(
            AppError::MissingConnectionFields,
        ),
        (trim_end_by(trim_ws(base_url), CharClass::Slash).len() > 0 && trim_ws(model).len() > 0)
            ==> spec_models_endpoint(base_url, model) == Ok::<Seq<char>, AppError>(
            trim_end_by(trim_ws(base_url), CharClass::Slash) + "/models"@,
        ),
        is_success_status(status) <==> (200 <= status && status <= 299),
{
}

/// `s` with every leading copy of `p` removed (`str::trim_start_matches`).
pub open spec fn strip_prefix_all(s: Seq<char>, p: Seq<char>) -> Seq<char>
    decreases s.len(),
{
    if p.len() > 0 && starts_with_seq(s, p) {
        strip_prefix_all(s.skip(p.len() as int), p)
    } else {
        s
    }
}

/// Whether `p` is a suffix of `s`.
pub open spec fn ends_with_seq(s: Seq<char>, p: Seq<char>) -> bool {
    p.len() <= s.len() && occurs_at(s, p, s.len() - p.len())
}

/// `s` with every trailing copy of `p` removed (`str::trim_end_matches`).
pub open spec fn strip_suffix_all(s: Seq<char>, p: Seq<char>) -> Seq<char>
    decreases s.len(),
{
    if p.len() > 0 && ends_with_seq(s, p) {
        strip_suffix_all(s.take(s.len() - p.len()), p)
    } else {
        s
    }
}

/// The JSON text of a model reply: trimmed, without a leading "```json" or
/// "```" fence and without trailing "```", trimmed again.
pub open spec fn spec_clean_ai_content(content: Seq<char>) -> Seq<char> {
    trim_ws(
        strip_suffix_all(
            strip_prefix_all(strip_prefix_all(trim_ws(content), "```json"@), "```"@),
            "```"@,
        ),
    )
}

fn strip_prefix_all_vec(v: Vec<char>, p: &[char]) -> (out: Vec<char>)
    ensures
        out@ == strip_prefix_all(v@, p@),
{
    let mut cur = v;
    while p.len() > 0 && starts_with_chars(&cur, p)
        invariant
            strip_prefix_all(cur@, p@) == strip_prefix_all(v@, p@),
        decreases cur@.len(),
    {
        let n = cur.len();
        cur = slice_to_vec(&cur, p.len(), n);
    }
    cur
}

fn strip_suffix_all_vec(v: Vec<char>, p: &[char]) -> (out: Vec<char>)
    ensures
        out@ == strip_suffix_all(v@, p@),
{
    let mut cur = v;
    loop
        invariant
            strip_suffix_all(cur@, p@) == strip_suffix_all(v@, p@),
        decreases cur@.len(),
    {
        if p.len() == 0 || p.len() > cur.len() {
            return cur;
        }
        let at = cur.len() - p.len();
        if !matches_at(&cur, p, at) {
            return cur;
        }
        assert(cur@.subrange(0, at as int) == cur@.take(cur@.len() - p@.len()));
        cur = slice_to_vec(&cur, 0, at);
    }
}

/// The JSON text inside a model reply.
pub fn clean_ai_content(content: &str) -> (out: String)
    ensures
        out@ == spec_clean_ai_content(content@),
{
    let c = chars_of(content);
    let t = trim_chars(&c, CharClass::WhiteSpace);
    let json_fence = chars_of("```json");
    let fence = chars_of("```");
    let a = strip_prefix_all_vec(t, &json_fence);
    let b = strip_prefix_all_vec(a, &fence);
    let d = strip_suffix_all_vec(b, &fence);
    let e = trim_chars(&d, CharClass::WhiteSpace);
    string_from_chars(&e)
}

/// The order of `String`: lexicographic by code point (UTF-8 byte order
/// agrees with code point order).
pub open spec fn seq_lt(a: Seq<char>, b: Seq<char>) -> bool
    decreases a.len(),
{
    if a.len() == 0 {
        b.len() > 0
    } else if b.len() == 0 {
        false
    } else if a[0] != b[0] {
        a[0] < b[0]
    } else {
        seq_lt(a.drop_first(), b.drop_first())
    }
}

/// No sequence comes before itself.
pub proof fn lemma_lt_irreflexive(a: Seq<char>)
    ensures
        !seq_lt(a, a),
    decreases a.len(),
{
    if a.len() > 0 {
        lemma_lt_irreflexive(a.drop_first());
    }
}

/// Of two different sequences, one comes first.
pub proof fn lemma_lt_total(a: Seq<char>, b: Seq<char>)
    ensures
        a != b ==> seq_lt(a, b) || seq_lt(b, a),
    decreases a.len(),
{
    if a.len() > 0 && b.len() > 0 && a[0] == b[0] {
        lemma_lt_total(a.drop_first(), b.drop_first());
        if a.drop_first() == b.drop_first() {
            assert(a == seq![a[0]] + a.drop_first());
            assert(b == seq![b[0]] + b.drop_first());
        }
    } else if a.len() == 0 && b.len() == 0 {
        assert(a == b);
    }
}

/// The order is asymmetric.
pub proof fn lemma_lt_asymmetric(a: Seq<char>, b: Seq<char>)
    ensures
        seq_lt(a, b) ==> !seq_lt(b, a),
    decreases a.len(),
{
    if a.len() > 0 && b.len() > 0 && a[0] == b[0] {
        lemma_lt_asymmetric(a.drop_first(), b.drop_first());
    }
}

/// The order is transitive.
pub proof fn lemma_lt_transitive(a: Seq<char>, b: Seq<char>, c: Seq<char>)
    ensures
        seq_lt(a, b) && seq_lt(b, c) ==> seq_lt(a, c),
    decreases a.len(),
{
    if a.len() > 0 && b.len() > 0 && c.len() > 0 && a[0] == b[0] && b[0] == c[0] {
        lemma_lt_transitive(a.drop_first(), b.drop_first(), c.drop_first());
    }
}

/// Whether `a` comes before `b` in `String` order.
pub fn chars_lt(a: &[char], b: &[char]) -> (r: bool)
    ensures
        r == seq_lt(a@, b@),
{
    let mut i: usize = 0;
    assert(a@.skip(0) == a@ && b@.skip(0) == b@);
    while i < a.len() && i < b.len()
        invariant
            i <= a@.len(),
            i <= b@.len(),
            seq_lt(a@, b@) == seq_lt(a@.skip(i as int), b@.skip(i as int)),
        decreases a.len() - i,
    {
        if a[i] != b[i] {
            return a[i] < b[i];
        }
        assert(a@.skip(i as int).drop_first() == a@.skip(i + 1 as int));
        assert(b@.skip(i as int).drop_first() == b@.skip(i + 1 as int));
        i = i + 1;
    }
    i == a.len() && i < b.len()
}

/// Whether `a` comes before `b` in `String` order.
pub fn str_lt(a: &str, b: &str) -> (r: bool)
    ensures
        r == seq_lt(a@, b@),
{
    let x = chars_of(a);
    let y = chars_of(b);
    chars_lt(&x, &y)
}

/// Every element comes before every later one (sorted, without repeats).
pub open spec fn strictly_sorted(s: Seq<Seq<char>>) -> bool {
    forall|i: int, j: int| 0 <= i < j < s.len() ==> seq_lt(#[trigger] s[i], #[trigger] s[j])
}

/// The two lists hold the same texts.
pub open spec fn same_elements(a: Seq<Seq<char>>, b: Seq<Seq<char>>) -> bool {
    forall|x: Seq<char>| a.contains(x) <==> b.contains(x)
}

/// The tags of an analysis as stored: sorted in `String` order, each once
/// (what `sort` followed by `dedup` leaves).
pub fn normalize_ai_tags(tags: &Vec<String>) -> (out: Vec<String>)
    ensures
        strictly_sorted(str_views(out@)),
        same_elements(str_views(out@), str_views(tags@)),
{
    let mut out: Vec<String> = Vec::new();
    let mut i: usize = 0;
    while i < tags.len()
        invariant
            i <= tags@.len(),
            strictly_sorted(str_views(out@)),
            same_elements(str_views(out@), str_views(tags@).take(i as int)),
        decreases tags.len() - i,
    {
        let t = tags[i].clone();
        let ghost w = str_views(out@);
        let mut j: usize = 0;
        while j < out.len() && str_lt(out[j].as_str(), t.as_str())
            invariant
                j <= out@.len(),
                w == str_views(out@),
                forall|k: int| 0 <= k < j ==> seq_lt(#[trigger] w[k], t@),
            decreases out.len() - j,
        {
            j = j + 1;
        }
        let dup = j < out.len() && str_eq(out[j].as_str(), t.as_str());
        let ghost seen = str_views(tags@).take(i as int);
        let ghost next = str_views(tags@).take(i + 1 as int);
        assert(next == seen.push(t@));
        if !dup {
            proof {
                if (j as int) < w.len() {
                    lemma_lt_total(w[j as int], t@);
                }
            }
            out.insert(j, t);
            proof {
                let w2 = str_views(out@);
                assert(w2 == w.insert(j as int, t@));
                assert forall|a: int, b: int| 0 <= a < b < w2.len() implies seq_lt(
                    #[trigger] w2[a],
                    #[trigger] w2[b],
                ) by {
                    if b < j {
                    } else if b == j {
                    } else if a < j {
                        assert(w2[b] == w[b - 1]);
                    } else if a == j {
                        assert(w2[b] == w[b - 1]);
                        if b - 1 > j {
                            lemma_lt_transitive(t@, w[j as int], w[b - 1]);
                        }
                    } else {
                        assert(w2[a] == w[a - 1]);
                        assert(w2[b] == w[b - 1]);
                    }
                }
                assert forall|x: Seq<char>| w2.contains(x) <==> next.contains(x) by {
                    if w2.contains(x) {
                        let k = choose|k: int| 0 <= k < w2.len() && w2[k] == x;
                        if k < j {
                            assert(w[k] == x);
                            assert(seen.contains(x));
                            let m = choose|m: int| 0 <= m < seen.len() && seen[m] == x;
                            assert(next[m] == x);
                        } else if k == j {
                            assert(next[seen.len() as int] == x);
                        } else {
                            assert(w[k - 1] == x);
                            assert(seen.contains(x));
                            let m = choose|m: int| 0 <= m < seen.len() && seen[m] == x;
                            assert(next[m] == x);
                        }
                    }
                    if next.contains(x) {
                        let m = choose|m: int| 0 <= m < next.len() && next[m] == x;
                        if m < seen.len() {
                            assert(seen[m] == x);
                            assert(w.contains(x));
                            let k = choose|k: int| 0 <= k < w.len() && w[k] == x;
                            if k < j {
                                assert(w2[k] == x);
                            } else {
                                assert(w2[k + 1] == x);
                            }
                        } else {
                            assert(w2[j as int] == x);
                        }
                    }
                }
            }
        } else {
            proof {
                assert(w[j as int] == t@);
                assert forall|x: Seq<char>| w.contains(x) <==> next.contains(x) by {
                    if w.contains(x) {
                        let m = choose|m: int| 0 <= m < seen.len() && seen[m] == x;
                        assert(next[m] == x);
                    }
                    if next.contains(x) {
                        let m = choose|m: int| 0 <= m < next.len() && next[m] == x;
                        if m < seen.len() {
                            assert(seen[m] == x);
                        } else {
                            assert(w[j as int] == x);
                        }
                    }
                }
            }
        }
        i = i + 1;
    }
    assert(str_views(tags@).take(tags@.len() as int) == str_views(tags@));
    out
}

/// Two lists sorted without repeats that hold the same texts are equal: the
/// stored tag list does not depend on the order or repeats of its input.
pub proof fn law_sorted_tags_are_unique(a: Seq<Seq<char>>, b: Seq<Seq<char>>)
    requires
        strictly_sorted(a),
        strictly_sorted(b),
        same_elements(a, b),
    ensures
        a == b,
    decreases a.len(),
{
    if a.len() == 0 {
        if b.len() > 0 {
            assert(b.contains(b[0]));
        }
        assert(a == b);
    } else if b.len() == 0 {
        assert(a.contains(a[0]));
    } else {
        // The first elements are the least of the shared texts.
        assert(b.contains(a[0]));
        assert(a.contains(b[0]));
        let ka = choose|k: int| 0 <= k < b.len() && b[k] == a[0];
        let kb = choose|k: int| 0 <= k < a.len() && a[k] == b[0];
        if a[0] != b[0] {
            assert(ka > 0);
            assert(kb > 0);
            assert(seq_lt(b[0], b[ka]));
            assert(seq_lt(a[0], a[kb]));
            lemma_lt_asymmetric(a[0], b[0]);
        }
        let a1 = a.drop_first();
        let b1 = b.drop_first();
        assert forall|i: int, j: int| 0 <= i < j < a1.len() implies seq_lt(
            #[trigger] a1[i],
            #[trigger] a1[j],
        ) by {
            assert(a1[i] == a[i + 1] && a1[j] == a[j + 1]);
        }
        assert forall|i: int, j: int| 0 <= i < j < b1.len() implies seq_lt(
            #[trigger] b1[i],
            #[trigger] b1[j],
        ) by {
            assert(b1[i] == b[i + 1] && b1[j] == b[j + 1]);
        }
        assert forall|x: Seq<char>| a1.contains(x) <==> b1.contains(x) by {
            if a1.contains(x) {
                let i = choose|i: int| 0 <= i < a1.len() && a1[i] == x;
                assert(a[i + 1] == x);
                assert(seq_lt(a[0], a[i + 1]));
                lemma_lt_irreflexive(x);
                assert(b.contains(x));
                let k = choose|k: int| 0 <= k < b.len() && b[k] == x;
                assert(k != 0);
                assert(b1[k - 1] == x);
            }
            if b1.contains(x) {
                let i = choose|i: int| 0 <= i < b1.len() && b1[i] == x;
                assert(b[i + 1] == x);
                assert(seq_lt(b[0], b[i + 1]));
                lemma_lt_irreflexive(x);
                assert(a.contains(x));
                let k = choose|k: int| 0 <= k < a.len() && a[k] == x;
                assert(k != 0);
                assert(a1[k - 1] == x);
            }
        }
        law_sorted_tags_are_unique(a1, b1);
        assert(a == seq![a[0]] + a1);
        assert(b == seq![b[0]] + b1);
    }
}

/// Why a reply of the vision model holds no analysis.
#[derive(Debug, Clone, Copy, PartialEq, Eq, Structural)]
pub enum AiReplyError {
    /// The body is not JSON.
    NotJson,
    /// The body has no text at `/choices/0/message/content`.
    NoContent,
}

/// Where a chat completion reply holds the model's message.
pub open spec fn reply_content_pointer() -> Seq<char> {
    "/choices/0/message/content"@
}

/// The analysis JSON in the body of a chat completion reply: the text of the
/// first choice's message, without code fences and surrounding white space.
pub fn analysis_json(body: &str) -> (out: Result<String, AiReplyError>)
    ensures
        match spec_json_pointer_str(body@, reply_content_pointer()) {
            None => out == Err::<String, AiReplyError>(AiReplyError::NotJson),
            Some(None) => out == Err::<String, AiReplyError>(AiReplyError::NoContent),
            Some(Some(content)) => out matches Ok(s) && s@ == spec_clean_ai_content(content),
        },
{
    match json_pointer_str(body, "/choices/0/message/content") {
        None => Err(AiReplyError::NotJson),
        Some(None) => Err(AiReplyError::NoContent),
        Some(Some(content)) => Ok(clean_ai_content(content.as_str())),
    }
}

} // verus!
