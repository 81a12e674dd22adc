//! Voice-name resolution: exact match, then prefix, then substring (all
//! case-insensitive). An unmatched name is an error; the first listed voice
//! is never picked silently.

use vstd::prelude::*;

use crate::dict::is_bad_input;
use crate::error::AppError;
use crate::json::{array_field, field, str_field, text_of, text_or_empty, JsonValue};
use crate::dialogue::{opt_pair, pairs_view};
use crate::text::{cat, contains, decimal, decimal_string, has_infix, has_prefix, lowercase, starts_with, str_eq, to_lowercase};

verus! {

/// How a voice name may match the wanted one.
#[derive(Debug, PartialEq, Eq, Structural, Clone, Copy)]
pub enum MatchKind {
    Exact,
    Prefix,
    Substring,
}

/// The voice's lower-cased name relates to `needle` (the lower-cased wanted
/// name) in this way.
pub open spec fn name_matches(v: JsonValue, needle: Seq<char>, kind: MatchKind) -> bool {
    match str_field(v, "name"@) {
        Some(n) => match kind {
            MatchKind::Exact => lowercase(n) == needle,
            MatchKind::Prefix => has_prefix(lowercase(n), needle),
            MatchKind::Substring => has_infix(lowercase(n), needle),
        },
        None => false,
    }
}

/// The first voice that matches in this way.
pub open spec fn first_match(vs: Seq<JsonValue>, needle: Seq<char>, kind: MatchKind) -> Option<JsonValue>
    decreases vs.len(),
{
    if vs.len() == 0 {
        None
    } else if name_matches(vs[0], needle, kind) {
        Some(vs[0])
    } else {
        first_match(vs.drop_first(), needle, kind)
    }
}

/// The voice chosen for `needle`: the first exact match, else the first
/// prefix match, else the first substring match.
pub open spec fn chosen_voice(vs: Seq<JsonValue>, needle: Seq<char>) -> Option<JsonValue> {
    match first_match(vs, needle, MatchKind::Exact) {
        Some(v) => Some(v),
        None => match first_match(vs, needle, MatchKind::Prefix) {
            Some(v) => Some(v),
            None => first_match(vs, needle, MatchKind::Substring),
        },
    }
}

/// The voices of a `/v2/voices` response (none when absent).
pub open spec fn listed_voices(resp: JsonValue) -> Seq<JsonValue> {
    match array_field(resp, "voices"@) {
        Some(a) => a,
        None => Seq::empty(),
    }
}

pub open spec fn no_match_message(name: Seq<char>) -> Seq<char> {
    "no voice in your library matches '"@ + name + "'. List voices with: elevenlabs voices list"@
}

proof fn lemma_first_match_at(vs: Seq<JsonValue>, needle: Seq<char>, kind: MatchKind, i: int)
    requires
        0 <= i <= vs.len(),
        i < vs.len() ==> name_matches(vs[i], needle, kind),
        forall|k: int| 0 <= k < i ==> !name_matches(#[trigger] vs[k], needle, kind),
    ensures
        first_match(vs, needle, kind) == (if i < vs.len() {
            Some(vs[i])
        } else {
            None::<JsonValue>
        }),
    decreases i,
{
    if i > 0 {
        assert forall|k: int| 0 <= k < i - 1 implies !name_matches(#[trigger] vs.drop_first()[k], needle, kind) by {
            assert(vs.drop_first()[k] == vs[k + 1]);
        }
        lemma_first_match_at(vs.drop_first(), needle, kind, i - 1);
    }
}

proof fn lemma_first_match_is_match(vs: Seq<JsonValue>, needle: Seq<char>, kind: MatchKind)
    ensures
        first_match(vs, needle, kind) matches Some(v) ==> vs.contains(v) && name_matches(v, needle, kind),
    decreases vs.len(),
{
    if vs.len() > 0 {
        if name_matches(vs[0], needle, kind) {
            assert(vs[0] == vs[0]);
        } else {
            lemma_first_match_is_match(vs.drop_first(), needle, kind);
            if let Some(v) = first_match(vs.drop_first(), needle, kind) {
                let i = choose|i: int| 0 <= i < vs.drop_first().len() && vs.drop_first()[i] == v;
                assert(vs[i + 1] == v);
            }
        }
    }
}

/// A voice is only ever chosen when it is listed and its lower-cased name
/// contains the wanted (lower-cased) name; exact matches win over prefix
/// matches, which win over substring matches.
pub proof fn lemma_chosen_voice_matches(vs: Seq<JsonValue>, needle: Seq<char>)
    ensures
        chosen_voice(vs, needle) matches Some(v) ==> vs.contains(v) && name_matches(v, needle, MatchKind::Substring),
        first_match(vs, needle, MatchKind::Exact) is Some ==> chosen_voice(vs, needle) == first_match(vs, needle, MatchKind::Exact),
        first_match(vs, needle, MatchKind::Exact) is None && first_match(vs, needle, MatchKind::Prefix) is Some
            ==> chosen_voice(vs, needle) == first_match(vs, needle, MatchKind::Prefix),
{
    lemma_first_match_is_match(vs, needle, MatchKind::Exact);
    lemma_first_match_is_match(vs, needle, MatchKind::Prefix);
    lemma_first_match_is_match(vs, needle, MatchKind::Substring);
    if let Some(v) = chosen_voice(vs, needle) {
        let n = str_field(v, "name"@)->0;
        let l = lowercase(n);
        if first_match(vs, needle, MatchKind::Exact) is Some {
            assert(l == needle);
            assert(l.subrange(0int, 0int + needle.len()) =~= needle);
        } else if first_match(vs, needle, MatchKind::Prefix) is Some {
            assert(has_prefix(l, needle));
            assert(l.subrange(0int, 0int + needle.len()) =~= l.take(needle.len() as int));
        }
    }
}

fn matches_kind(v: &JsonValue, needle: &str, kind: MatchKind) -> (r: bool)
    ensures
        r == name_matches(*v, needle@, kind),
{
    match v.get_str("name") {
        Some(n) => {
            let lower = to_lowercase(n);
            match kind {
                MatchKind::Exact => str_eq(lower.as_str(), needle),
                MatchKind::Prefix => starts_with(lower.as_str(), needle),
                MatchKind::Substring => contains(lower.as_str(), needle),
            }
        },
        None => false,
    }
}

fn find_match(vs: &Vec<JsonValue>, needle: &str, kind: MatchKind) -> (r: Option<usize>)
    ensures
        match r {
            Some(i) => i < vs@.len() && first_match(vs@, needle@, kind) == Some(vs@[i as int]),
            None => first_match(vs@, needle@, kind) is None,
        },
{
    let mut i: usize = 0;
    while i < vs.len()
        invariant
            0 <= i <= vs@.len(),
            forall|k: int| 0 <= k < i ==> !name_matches(#[trigger] vs@[k], needle@, kind),
        decreases vs@.len() - i,
    {
        if matches_kind(&vs[i], needle, kind) {
            proof {
                lemma_first_match_at(vs@, needle@, kind, i as int);
            }
            return Some(i);
        }
        i = i + 1;
    }
    proof {
        lemma_first_match_at(vs@, needle@, kind, i as int);
    }
    None
}

fn pick_in(vs: &Vec<JsonValue>, name: &str) -> (r: Result<String, AppError>)
    ensures
        match chosen_voice(vs@, lowercase(name@)) {
            Some(v) => match str_field(v, "voice_id"@) {
                Some(id) => r matches Ok(s) && s@ == id,
                None => is_bad_input(r, no_match_message(name@)),
            },
            None => is_bad_input(r, no_match_message(name@)),
        },
{
    let needle = to_lowercase(name);
    let found = match find_match(vs, needle.as_str(), MatchKind::Exact) {
        Some(i) => Some(i),
        None => match find_match(vs, needle.as_str(), MatchKind::Prefix) {
            Some(i) => Some(i),
            None => find_match(vs, needle.as_str(), MatchKind::Substring),
        },
    };
    if let Some(i) = found {
        if let Some(id) = vs[i].get_str("voice_id") {
            return Ok(String::from_str(id));
        }
    }
    Err(AppError::bad_input(cat(cat("no voice in your library matches '", name).as_str(), "'. List voices with: elevenlabs voices list")))
}

/// The `voice_id` of the voice chosen for `name` among the voices of a
/// `/v2/voices?search=name` response.
pub fn pick_voice_id(resp: &JsonValue, name: &str) -> (r: Result<String, AppError>)
    ensures
        match chosen_voice(listed_voices(*resp), lowercase(name@)) {
            Some(v) => match str_field(v, "voice_id"@) {
                Some(id) => r matches Ok(s) && s@ == id,
                None => is_bad_input(r, no_match_message(name@)),
            },
            None => is_bad_input(r, no_match_message(name@)),
        },
{
    match resp.get_array("voices") {
        Some(vs) => pick_in(vs, name),
        None => {
            let empty: Vec<JsonValue> = Vec::new();
            proof {
                assert(empty@ =~= Seq::<JsonValue>::empty());
            }
            pick_in(&empty, name)
        },
    }
}

/// The voice-search request: `/v2/voices` with `search=name` (the v2
/// endpoint filters server-side).
pub fn voice_search_query(name: &str) -> (r: (&'static str, Vec<(String, String)>))
    ensures
        r.0@ == "/v2/voices"@,
        crate::dialogue::pairs_view(r.1@) == seq![("search"@, name@)],
{
    let mut q: Vec<(String, String)> = Vec::new();
    q.push((String::from_str("search"), String::from_str(name)));
    proof {
        assert(crate::dialogue::pairs_view(q@) =~= seq![("search"@, name@)]);
    }
    ("/v2/voices", q)
}

/// `voices similar` options. The similarity threshold is held as the
/// decimal text that is sent.
#[derive(Debug, Clone)]
pub struct SimilarArgs {
    pub audio_file: String,
    pub similarity_threshold: Option<String>,
    pub top_k: Option<u32>,
    pub gender: Option<String>,
    pub age: Option<String>,
    pub accent: Option<String>,
    pub language: Option<String>,
    pub use_case: Option<String>,
}

pub open spec fn opt_uint_pair(k: Seq<char>, n: Option<u32>) -> Seq<(Seq<char>, Seq<char>)> {
    match n {
        Some(x) => seq![(k, decimal(x as nat))],
        None => Seq::empty(),
    }
}

/// Text fields of the similar-voices form (after the `audio_file` part):
/// the threshold, `top_k`, then the library filters, each only when given.
pub fn similar_form_fields(args: &SimilarArgs) -> (r: Vec<(String, String)>)
    ensures
        pairs_view(r@) == opt_pair("similarity_threshold"@, args.similarity_threshold) + opt_uint_pair(
            "top_k"@,
            args.top_k,
        ) + opt_pair("gender"@, args.gender) + opt_pair("age"@, args.age) + opt_pair("accent"@, args.accent)
            + opt_pair("language"@, args.language) + opt_pair("use_case"@, args.use_case),
{
    let mut q: Vec<(String, String)> = Vec::new();
    push_opt(&mut q, "similarity_threshold", &args.similarity_threshold);
    let ghost q1 = pairs_view(q@);
    if let Some(k) = args.top_k {
        q.push((String::from_str("top_k"), decimal_string(k as u64)));
    }
    proof {
        assert(pairs_view(q@) =~= q1 + opt_uint_pair("top_k"@, args.top_k));
    }
    push_opt(&mut q, "gender", &args.gender);
    push_opt(&mut q, "age", &args.age);
    push_opt(&mut q, "accent", &args.accent);
    push_opt(&mut q, "language", &args.language);
    push_opt(&mut q, "use_case", &args.use_case);
    q
}

fn push_opt(q: &mut Vec<(String, String)>, k: &str, v: &Option<String>)
    ensures
        pairs_view(final(q)@) == pairs_view(old(q)@) + opt_pair(k@, *v),
{
    if let Some(t) = v {
        q.push((String::from_str(k), t.clone()));
    }
    proof {
        assert(pairs_view(q@) =~= pairs_view(old(q)@) + opt_pair(k@, *v));
    }
}

/// At most the first `n` characters of `s`.
pub open spec fn at_most(s: Seq<char>, n: nat) -> Seq<char> {
    if s.len() <= n {
        s
    } else {
        s.take(n as int)
    }
}

/// The cells of one similar voice in the result table: id, name, category,
/// and the first 60 characters of the description.
pub open spec fn similar_row_model(v: JsonValue) -> Seq<Seq<char>> {
    seq![
        text_or_empty(field(v, "voice_id"@)),
        text_or_empty(field(v, "name"@)),
        text_or_empty(field(v, "category"@)),
        at_most(text_or_empty(field(v, "description"@)), 60),
    ]
}

/// The table cells of one similar voice.
pub fn similar_row(v: &JsonValue) -> (r: Vec<String>)
    ensures
        crate::phone::strings_view(r@) == similar_row_model(*v),
{
    let desc = text_of(v.get("description"));
    let n = desc.as_str().unicode_len();
    let short = if n <= 60 {
        desc
    } else {
        let s = desc.as_str().substring_char(0, 60);
        proof {
            assert(s@ =~= desc@.take(60));
        }
        String::from_str(s)
    };
    let mut row: Vec<String> = Vec::new();
    row.push(text_of(v.get("voice_id")));
    row.push(text_of(v.get("name")));
    row.push(text_of(v.get("category")));
    row.push(short);
    proof {
        assert(crate::phone::strings_view(row@) =~= similar_row_model(*v));
    }
    row
}

} // verus!
