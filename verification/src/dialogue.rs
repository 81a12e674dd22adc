//! Text-to-dialogue: multi-speaker inputs, the request, and the response.
//!
//! Inputs come either as JSON (`[{text, voice_id}, ...]` or
//! `{"inputs": [...]}`) or as `label:voice_id:text` positional triples,
//! whose text may itself contain colons. Four endpoints are used depending
//! on `--stream` and `--with-timestamps`; the streaming endpoints answer
//! with newline-delimited JSON chunks whose decoded audio is concatenated.

use vstd::prelude::*;

use crate::error::AppError;
use crate::config::AppConfig;
use crate::json::{first_some, json_at, json_get, obj_get, array_field, field, items_model, json_str, json_uint, lemma_array_model, lemma_object_model, members_model, push_item, push_member, str_field, Json, JsonValue};
use crate::text::{cat, decimal, decimal_string, is_blank, split_once, split_once_char, str_eq, trim, trim_str};

verus! {

/// One line of dialogue.
#[derive(Debug, Clone)]
pub struct DialogueInput {
    pub text: String,
    pub voice_id: String,
    /// Speaker label; not sent to the API.
    pub label: Option<String>,
}

pub open spec fn endpoint_path(stream: bool, with_timestamps: bool) -> Seq<char> {
    if stream && with_timestamps {
        "/v1/text-to-dialogue/stream/with-timestamps"@
    } else if stream {
        "/v1/text-to-dialogue/stream"@
    } else if with_timestamps {
        "/v1/text-to-dialogue/with-timestamps"@
    } else {
        "/v1/text-to-dialogue"@
    }
}

pub open spec fn endpoint_label(stream: bool, with_timestamps: bool) -> Seq<char> {
    if stream && with_timestamps {
        "stream+with-timestamps"@
    } else if stream {
        "stream"@
    } else if with_timestamps {
        "with-timestamps"@
    } else {
        "convert"@
    }
}

/// The endpoint path and its short label for the two routing flags.
pub fn endpoint_for(stream: bool, with_timestamps: bool) -> (r: (&'static str, &'static str))
    ensures
        r.0@ == endpoint_path(stream, with_timestamps),
        r.1@ == endpoint_label(stream, with_timestamps),
{
    match (stream, with_timestamps) {
        (true, true) => ("/v1/text-to-dialogue/stream/with-timestamps", "stream+with-timestamps"),
        (true, false) => ("/v1/text-to-dialogue/stream", "stream"),
        (false, true) => ("/v1/text-to-dialogue/with-timestamps", "with-timestamps"),
        (false, false) => ("/v1/text-to-dialogue", "convert"),
    }
}

// ── Positional triples ──────────────────────────────────────────────────

/// `label`, `voice_id` (both trimmed) and `text` of `label:voice_id:text`,
/// split on the first two colons only.
pub open spec fn triple_fields(p: Seq<char>) -> (Seq<char>, Seq<char>, Seq<char>) {
    match split_once(p, ':') {
        None => (trim(p), Seq::empty(), Seq::empty()),
        Some((a, rest)) => match split_once(rest, ':') {
            None => (trim(a), trim(rest), Seq::empty()),
            Some((b, c)) => (trim(a), trim(b), c),
        },
    }
}

pub open spec fn triple_ok(p: Seq<char>) -> bool {
    triple_fields(p).0.len() > 0 && triple_fields(p).1.len() > 0 && !is_blank(triple_fields(p).2)
}

pub open spec fn triple_error(i: nat, p: Seq<char>) -> Seq<char> {
    "dialogue positional["@ + decimal(i) + "] '"@ + p
        + "' must be `label:voice_id:text`. If this is a JSON file, ensure the path ends in `.json` and exists, or pass it via --input."@
}

/// `d` is the input parsed from the triple `p`.
pub open spec fn is_triple_input(d: DialogueInput, p: Seq<char>) -> bool {
    &&& d.label matches Some(l) && l@ == triple_fields(p).0
    &&& d.voice_id@ == triple_fields(p).1
    &&& d.text@ == triple_fields(p).2
}

/// The text of a triple may contain colons: only the first two split.
pub proof fn lemma_triple_text_keeps_colons(label: Seq<char>, voice: Seq<char>, text: Seq<char>)
    requires
        !label.contains(':'),
        !voice.contains(':'),
    ensures
        triple_fields(label + ":"@ + voice + ":"@ + text) == (trim(label), trim(voice), text),
{
    reveal_strlit(":");
    assert(":"@ =~= seq![':']);
    let rest = voice + seq![':'] + text;
    assert(label + ":"@ + voice + ":"@ + text =~= label + seq![':'] + rest);
    crate::text::lemma_split_once_concat(label, ':', rest);
    crate::text::lemma_split_once_concat(voice, ':', text);
}

/// Each combination of the two flags has its own endpoint and label.
pub proof fn lemma_endpoints_distinct(s1: bool, w1: bool, s2: bool, w2: bool)
    requires
        (s1, w1) != (s2, w2),
    ensures
        endpoint_path(s1, w1) != endpoint_path(s2, w2),
        endpoint_label(s1, w1) != endpoint_label(s2, w2),
{
    reveal_strlit("/v1/text-to-dialogue/stream/with-timestamps");
    reveal_strlit("/v1/text-to-dialogue/stream");
    reveal_strlit("/v1/text-to-dialogue/with-timestamps");
    reveal_strlit("/v1/text-to-dialogue");
    reveal_strlit("stream+with-timestamps");
    reveal_strlit("stream");
    reveal_strlit("with-timestamps");
    reveal_strlit("convert");
    if endpoint_path(s1, w1) == endpoint_path(s2, w2) {
        assert(endpoint_path(s1, w1).len() == endpoint_path(s2, w2).len());
        let a = endpoint_path(s1, w1);
        assert(a[22] == endpoint_path(s2, w2)[22]);
    }
    if endpoint_label(s1, w1) == endpoint_label(s2, w2) {
        assert(endpoint_label(s1, w1).len() == endpoint_label(s2, w2).len());
    }
}

fn parse_triple(p: &str) -> (r: Option<DialogueInput>)
    ensures
        match r {
            Some(d) => triple_ok(p@) && is_triple_input(d, p@),
            None => !triple_ok(p@),
        },
{
    let (label, voice_id, text): (&str, &str, &str) = match split_once_char(p, ':') {
        None => (trim_str(p), "", ""),
        Some((a, rest)) => match split_once_char(rest, ':') {
            None => (trim_str(a), trim_str(rest), ""),
            Some((b, c)) => (trim_str(a), trim_str(b), c),
        },
    };
    proof {
        assert(""@ =~= Seq::<char>::empty()) by {
            reveal_strlit("");
        }
    }
    if label.unicode_len() == 0 || voice_id.unicode_len() == 0 || trim_str(text).unicode_len() == 0 {
        None
    } else {
        Some(
            DialogueInput {
                text: String::from_str(text),
                voice_id: String::from_str(voice_id),
                label: Some(String::from_str(label)),
            },
        )
    }
}

/// Parses every positional as a `label:voice_id:text` triple; the first
/// malformed one is reported with its index.
pub fn parse_triples(positionals: &Vec<String>) -> (r: Result<Vec<DialogueInput>, AppError>)
    ensures
        r is Ok <==> forall|i: int| 0 <= i < positionals@.len() ==> triple_ok(#[trigger] positionals@[i]@),
        r matches Ok(out) ==> out@.len() == positionals@.len() && forall|i: int|
            0 <= i < positionals@.len() ==> is_triple_input(#[trigger] out@[i], positionals@[i]@),
        r is Err ==> exists|i: int|
            0 <= i < positionals@.len() && !triple_ok(#[trigger] positionals@[i]@)
                && (forall|k: int| 0 <= k < i ==> triple_ok(positionals@[k]@))
                && crate::dict::is_bad_input(r, triple_error(i as nat, positionals@[i]@)),
{
    let mut out: Vec<DialogueInput> = Vec::new();
    let mut i: usize = 0;
    while i < positionals.len()
        invariant
            0 <= i <= positionals@.len(),
            out@.len() == i,
            forall|k: int| 0 <= k < i ==> triple_ok(#[trigger] positionals@[k]@),
            forall|k: int| 0 <= k < i ==> is_triple_input(#[trigger] out@[k], positionals@[k]@),
        decreases positionals@.len() - i,
    {
        let p = positionals[i].as_str();
        match parse_triple(p) {
            Some(d) => {
                out.push(d);
            },
            None => {
                let head = cat("dialogue positional[", decimal_string(i as u64).as_str());
                let mid = cat(cat(head.as_str(), "] '").as_str(), p);
                let msg = cat(
                    mid.as_str(),
                    "' must be `label:voice_id:text`. If this is a JSON file, ensure the path ends in `.json` and exists, or pass it via --input.",
                );
                let r = Err(AppError::bad_input(msg));
                proof {
                    assert(crate::dict::is_bad_input(r, triple_error(i as nat, positionals@[i as int]@)));
                }
                return r;
            },
        }
        i = i + 1;
    }
    Ok(out)
}

// ── JSON-file detection ─────────────────────────────────────────────────

/// The extension of the path's file name, as `Path::extension` reports it
/// with the path syntax of the target the program is built for (the text
/// after the last `.` of the final component, unless that `.` starts the
/// name), when it is valid UTF-8.
pub uninterp spec fn path_extension(p: Seq<char>) -> Option<Seq<char>>;

/// Calls `Path::new(p).extension()` and `OsStr::to_str`. Trusted claim: the
/// result is `path_extension(p)`.
#[verifier::external_body]
fn extension_of(p: &str) -> (r: Option<String>)
    ensures
        match r {
            Some(e) => path_extension(p@) == Some(e@),
            None => path_extension(p@) is None,
        },
{
    match std::path::Path::new(p).extension() {
        Some(e) => match e.to_str() {
            Some(s) => Some(s.to_string()),
            None => None,
        },
        None => None,
    }
}

/// The code of `c` with ASCII upper-case letters mapped to lower case.
pub open spec fn ascii_lower(c: char) -> u32 {
    if 'A' <= c && c <= 'Z' {
        ((c as u32) + 32) as u32
    } else {
        c as u32
    }
}

/// ASCII case-insensitive equality (`str::eq_ignore_ascii_case`).
pub open spec fn eq_ignore_ascii_case(a: Seq<char>, b: Seq<char>) -> bool {
    a.len() == b.len() && forall|i: int| 0 <= i < a.len() ==> ascii_lower(#[trigger] a[i]) == ascii_lower(b[i])
}

fn exec_ascii_lower(c: char) -> (r: u32)
    ensures
        r == ascii_lower(c),
{
    if 'A' <= c && c <= 'Z' {
        (c as u32) + 32
    } else {
        c as u32
    }
}

pub(crate) fn exec_eq_ignore_ascii_case(a: &str, b: &str) -> (r: bool)
    ensures
        r == eq_ignore_ascii_case(a@, b@),
{
    let n = a.unicode_len();
    if n != b.unicode_len() {
        return false;
    }
    let mut i: usize = 0;
    while i < n
        invariant
            n == a@.len(),
            n == b@.len(),
            0 <= i <= n,
            forall|k: int| 0 <= k < i ==> ascii_lower(#[trigger] a@[k]) == ascii_lower(b@[k]),
        decreases n - i,
    {
        if exec_ascii_lower(a.get_char(i)) != exec_ascii_lower(b.get_char(i)) {
            return false;
        }
        i = i + 1;
    }
    true
}

pub open spec fn has_json_extension(p: Seq<char>) -> bool {
    path_extension(p) matches Some(e) && eq_ignore_ascii_case(e, "json"@)
}

/// A positional names a JSON input file when its extension is `json` (any
/// ASCII case) and the path exists (`exists`, as the file system reports it).
pub fn looks_like_json_file(p: &str, exists: bool) -> (r: bool)
    ensures
        r == (has_json_extension(p@) && exists),
{
    let is_json_ext = match extension_of(p) {
        Some(e) => exec_eq_ignore_ascii_case(e.as_str(), "json"),
        None => false,
    };
    is_json_ext && exists
}

// ── Where the inputs come from ──────────────────────────────────────────

/// The source to read dialogue inputs from.
#[derive(Debug, Clone)]
pub enum InputSource {
    /// JSON read from standard input.
    Stdin,
    /// JSON read from this file.
    File(String),
    /// The positionals are `label:voice_id:text` triples.
    Triples,
}

pub open spec fn no_inputs_message() -> Seq<char> {
    "dialogue requires either --input <json_file>, `--input -` for stdin, or one or more `label:voice_id:text` positional triples"@
}

/// Chooses the input source: `--input` (`-` for stdin) wins; otherwise a
/// single positional that looks like a JSON file (`first_is_json_file`) or
/// is `-`; otherwise the positionals are triples.
pub fn choose_input_source(
    input: &Option<String>,
    positional: &Vec<String>,
    first_is_json_file: bool,
) -> (r: Result<InputSource, AppError>)
    ensures
        match input {
            Some(src) => if src@ == "-"@ {
                r matches Ok(InputSource::Stdin)
            } else {
                r matches Ok(InputSource::File(f)) && f@ == src@
            },
            None => if positional@.len() == 0 {
                crate::dict::is_bad_input(r, no_inputs_message())
            } else if positional@.len() == 1 && first_is_json_file {
                r matches Ok(InputSource::File(f)) && f@ == positional@[0]@
            } else if positional@.len() == 1 && positional@[0]@ == "-"@ {
                r matches Ok(InputSource::Stdin)
            } else {
                r matches Ok(InputSource::Triples)
            },
        },
{
    if let Some(src) = input {
        if str_eq(src.as_str(), "-") {
            return Ok(InputSource::Stdin);
        }
        return Ok(InputSource::File(src.clone()));
    }
    if positional.len() == 0 {
        return Err(
            AppError::bad_input(
                String::from_str(
                    "dialogue requires either --input <json_file>, `--input -` for stdin, or one or more `label:voice_id:text` positional triples",
                ),
            ),
        );
    }
    if positional.len() == 1 {
        let first = &positional[0];
        if first_is_json_file {
            return Ok(InputSource::File(first.clone()));
        }
        if str_eq(first.as_str(), "-") {
            return Ok(InputSource::Stdin);
        }
    }
    Ok(InputSource::Triples)
}


// ── JSON inputs ─────────────────────────────────────────────────────────

/// The items of a JSON input document: a top-level array, or the `inputs`
/// array of a top-level object.
pub open spec fn json_items(v: JsonValue) -> Option<Seq<JsonValue>> {
    match v {
        JsonValue::Array(a) => Some(a@),
        _ => array_field(v, "inputs"@),
    }
}

pub open spec fn json_shape_message() -> Seq<char> {
    "dialogue JSON must be either an array of {text, voice_id} objects or an object with an `inputs` array"@
}

/// Why JSON item `i` is refused, if it is.
pub open spec fn item_error(i: nat, item: JsonValue) -> Option<Seq<char>> {
    let pre = "dialogue input["@ + decimal(i);
    match (str_field(item, "text"@), str_field(item, "voice_id"@)) {
        (None, _) => Some(pre + "] missing string `text`"@),
        (Some(_), None) => Some(pre + "] missing string `voice_id`"@),
        (Some(t), Some(v)) => if is_blank(t) {
            Some(pre + "] has empty `text`"@)
        } else if is_blank(v) {
            Some(pre + "] has empty `voice_id`"@)
        } else {
            None
        },
    }
}

/// `d` carries the `text`, `voice_id` and optional `label` of `item`.
pub open spec fn is_json_input(d: DialogueInput, item: JsonValue) -> bool {
    &&& str_field(item, "text"@) == Some(d.text@)
    &&& str_field(item, "voice_id"@) == Some(d.voice_id@)
    &&& match str_field(item, "label"@) {
        Some(l) => d.label matches Some(x) && x@ == l,
        None => d.label is None,
    }
}

fn item_prefix(i: usize) -> (r: String)
    ensures
        r@ == "dialogue input["@ + decimal(i as nat),
{
    cat("dialogue input[", decimal_string(i as u64).as_str())
}

fn parse_json_item(i: usize, item: &JsonValue) -> (r: Result<DialogueInput, AppError>)
    ensures
        match item_error(i as nat, *item) {
            Some(m) => crate::dict::is_bad_input(r, m),
            None => r matches Ok(d) && is_json_input(d, *item),
        },
{
    let text = match item.get_str("text") {
        Some(t) => t,
        None => return Err(AppError::bad_input(cat(item_prefix(i).as_str(), "] missing string `text`"))),
    };
    let voice_id = match item.get_str("voice_id") {
        Some(t) => t,
        None => return Err(AppError::bad_input(cat(item_prefix(i).as_str(), "] missing string `voice_id`"))),
    };
    if trim_str(text).unicode_len() == 0 {
        return Err(AppError::bad_input(cat(item_prefix(i).as_str(), "] has empty `text`")));
    }
    if trim_str(voice_id).unicode_len() == 0 {
        return Err(AppError::bad_input(cat(item_prefix(i).as_str(), "] has empty `voice_id`")));
    }
    let label = match item.get_str("label") {
        Some(l) => Some(String::from_str(l)),
        None => None,
    };
    Ok(DialogueInput { text: String::from_str(text), voice_id: String::from_str(voice_id), label })
}

/// Turns a parsed JSON input document (or the parser's error text) into
/// dialogue inputs; the first refused item is reported with its index.
pub fn parse_json_inputs(parsed: Result<JsonValue, String>) -> (r: Result<Vec<DialogueInput>, AppError>)
    ensures
        match parsed {
            Err(e) => crate::dict::is_bad_input(r, "dialogue input is not valid JSON: "@ + e@),
            Ok(v) => match json_items(v) {
                None => crate::dict::is_bad_input(r, json_shape_message()),
                Some(items) => {
                    &&& (r is Ok <==> forall|i: int| 0 <= i < items.len() ==> item_error(i as nat, #[trigger] items[i]) is None)
                    &&& (r matches Ok(out) ==> out@.len() == items.len() && forall|i: int|
                        0 <= i < items.len() ==> is_json_input(#[trigger] out@[i], items[i]))
                    &&& (r is Err ==> exists|i: int|
                        0 <= i < items.len() && (forall|k: int| 0 <= k < i ==> item_error(k as nat, items[k]) is None)
                            && (#[trigger] item_error(i as nat, items[i]) matches Some(m)
                            && crate::dict::is_bad_input(r, m)))
                },
            },
        },
{
    let v = match parsed {
        Err(e) => return Err(AppError::bad_input(cat("dialogue input is not valid JSON: ", e.as_str()))),
        Ok(v) => v,
    };
    let items: &Vec<JsonValue> = match &v {
        JsonValue::Array(a) => a,
        _ => match v.get_array("inputs") {
            Some(a) => a,
            None => return Err(
                AppError::bad_input(
                    String::from_str(
                        "dialogue JSON must be either an array of {text, voice_id} objects or an object with an `inputs` array",
                    ),
                ),
            ),
        },
    };
    let ghost seq_items = items@;
    let mut out: Vec<DialogueInput> = Vec::new();
    let mut i: usize = 0;
    while i < items.len()
        invariant
            seq_items == items@,
            parsed matches Ok(pv) && pv == v,
            json_items(v) == Some(seq_items),
            0 <= i <= items@.len(),
            out@.len() == i,
            forall|k: int| 0 <= k < i ==> item_error(k as nat, #[trigger] items@[k]) is None,
            forall|k: int| 0 <= k < i ==> is_json_input(#[trigger] out@[k], items@[k]),
        decreases items@.len() - i,
    {
        match parse_json_item(i, &items[i]) {
            Ok(d) => out.push(d),
            Err(e) => {
                let r = Err(e);
                proof {
                    assert(item_error(i as nat, items@[i as int]) is Some);
                }
                return r;
            },
        }
        i = i + 1;
    }
    Ok(out)
}


// ── Pre-flight limits ───────────────────────────────────────────────────

/// At most this many distinct voice IDs per request (the API's limit).
pub const MAX_UNIQUE_VOICES: usize = 10;

/// Advisory limit on the total characters of all inputs.
pub const MAX_TOTAL_CHARS: usize = 2000;

/// Sizes of an accepted dialogue.
#[derive(Debug, Clone)]
pub struct DialogueStats {
    pub inputs: usize,
    pub unique_voices: usize,
    pub characters: usize,
}

pub open spec fn voice_view(d: DialogueInput) -> Seq<char> {
    d.voice_id@
}

/// The voice ID of each input, in order.
pub open spec fn voices_seq(inputs: Seq<DialogueInput>) -> Seq<Seq<char>> {
    inputs.map_values(|d: DialogueInput| voice_view(d))
}

/// The distinct voice IDs used.
pub open spec fn voice_ids(inputs: Seq<DialogueInput>) -> Set<Seq<char>> {
    voices_seq(inputs).to_set()
}

pub open spec fn string_views(s: Seq<String>) -> Seq<Seq<char>> {
    s.map_values(|x: String| x@)
}

proof fn lemma_push_to_set<A>(s: Seq<A>, x: A)
    ensures
        s.push(x).to_set() == s.to_set().insert(x),
{
    assert forall|a: A| s.push(x).to_set().contains(a) <==> s.to_set().insert(x).contains(a) by {
        if s.push(x).contains(a) {
            let i = choose|i: int| 0 <= i < s.push(x).len() && s.push(x)[i] == a;
            if i < s.len() {
                assert(s[i] == a);
            }
        }
        if s.contains(a) {
            let i = choose|i: int| 0 <= i < s.len() && s[i] == a;
            assert(s.push(x)[i] == a);
        }
        if a == x {
            assert(s.push(x)[s.len() as int] == x);
        }
    }
    assert(s.push(x).to_set() =~= s.to_set().insert(x));
}

/// Characters of all texts together.
pub open spec fn total_chars(inputs: Seq<DialogueInput>) -> nat
    decreases inputs.len(),
{
    if inputs.len() == 0 {
        0
    } else {
        total_chars(inputs.drop_last()) + inputs.last().text@.len()
    }
}

pub open spec fn empty_dialogue_message() -> Seq<char> {
    "dialogue has no inputs — provide a JSON file or label:voice_id:text triples"@
}

pub open spec fn too_many_voices_message(n: nat) -> Seq<char> {
    "dialogue has "@ + decimal(n)
        + " distinct voice IDs; the API accepts at most 10. Group lines by voice or drop speakers."@
}

pub open spec fn too_long_message(n: nat) -> Seq<char> {
    "dialogue is "@ + decimal(n) + " chars; the API accepts ~2000. Split into multiple calls."@
}

proof fn lemma_total_chars_prefix(s: Seq<DialogueInput>, i: int)
    requires
        0 <= i <= s.len(),
    ensures
        total_chars(s.take(i)) <= total_chars(s),
    decreases s.len() - i,
{
    if i < s.len() {
        lemma_total_chars_prefix(s, i + 1);
        assert(s.take(i + 1).drop_last() =~= s.take(i));
    } else {
        assert(s.take(i) =~= s);
    }
}

fn seen_contains(seen: &Vec<String>, v: &str) -> (r: bool)
    ensures
        r == string_views(seen@).contains(v@),
{
    let ghost sv = string_views(seen@);
    let mut k: usize = 0;
    while k < seen.len()
        invariant
            sv == string_views(seen@),
            0 <= k <= seen@.len(),
            forall|j: int| 0 <= j < k ==> sv[j] != v@,
        decreases seen@.len() - k,
    {
        if str_eq(seen[k].as_str(), v) {
            proof {
                assert(sv[k as int] == v@);
            }
            return true;
        }
        k = k + 1;
    }
    false
}

/// Checks the pre-flight limits before any request is made: at least one
/// input, at most 10 distinct voices, at most 2000 characters in all.
pub fn check_dialogue(inputs: &Vec<DialogueInput>) -> (r: Result<DialogueStats, AppError>)
    requires
        total_chars(inputs@) <= usize::MAX,
    ensures
        if inputs@.len() == 0 {
            crate::dict::is_bad_input(r, empty_dialogue_message())
        } else if voice_ids(inputs@).len() > 10 {
            crate::dict::is_bad_input(r, too_many_voices_message(voice_ids(inputs@).len()))
        } else if total_chars(inputs@) > 2000 {
            crate::dict::is_bad_input(r, too_long_message(total_chars(inputs@)))
        } else {
            r matches Ok(st) && st.inputs == inputs@.len() && st.unique_voices == voice_ids(inputs@).len()
                && st.characters == total_chars(inputs@)
        },
{
    if inputs.len() == 0 {
        return Err(AppError::bad_input(String::from_str(
            "dialogue has no inputs — provide a JSON file or label:voice_id:text triples",
        )));
    }
    let mut seen: Vec<String> = Vec::new();
    let mut chars: usize = 0;
    let mut i: usize = 0;
    proof {
        assert(inputs@.take(0) =~= Seq::<DialogueInput>::empty());
        assert(string_views(seen@).to_set() =~= voice_ids(inputs@.take(0)));
    }
    while i < inputs.len()
        invariant
            0 <= i <= inputs@.len(),
            total_chars(inputs@) <= usize::MAX,
            chars == total_chars(inputs@.take(i as int)),
            string_views(seen@).no_duplicates(),
            string_views(seen@).to_set() == voice_ids(inputs@.take(i as int)),
        decreases inputs@.len() - i,
    {
        let d = &inputs[i];
        proof {
            lemma_total_chars_prefix(inputs@, i + 1);
            assert(inputs@.take(i + 1).drop_last() =~= inputs@.take(i as int));
        }
        chars = chars + d.text.as_str().unicode_len();
        let ghost old_sv = string_views(seen@);
        let ghost tk = voices_seq(inputs@.take(i as int));
        let ghost tk1 = voices_seq(inputs@.take(i + 1));
        proof {
            assert(tk1 =~= tk.push(d.voice_id@));
            lemma_push_to_set(tk, d.voice_id@);
        }
        if !seen_contains(&seen, d.voice_id.as_str()) {
            seen.push(d.voice_id.clone());
            proof {
                assert(string_views(seen@) =~= old_sv.push(d.voice_id@));
                lemma_push_to_set(old_sv, d.voice_id@);
                assert forall|a: int, b: int| 0 <= a < b < string_views(seen@).len()
                    implies string_views(seen@)[a] != string_views(seen@)[b] by {
                    if b == old_sv.len() {
                        assert(old_sv.contains(old_sv[a]));
                    }
                }
            }
        } else {
            proof {
                assert(old_sv.to_set().contains(d.voice_id@));
                assert(old_sv.to_set().insert(d.voice_id@) =~= old_sv.to_set());
            }
        }
        i = i + 1;
    }
    proof {
        assert(inputs@.take(inputs@.len() as int) =~= inputs@);
        string_views(seen@).unique_seq_to_set();
    }
    let unique = seen.len();
    if unique > MAX_UNIQUE_VOICES {
        let m = cat(cat("dialogue has ", decimal_string(unique as u64).as_str()).as_str(),
            " distinct voice IDs; the API accepts at most 10. Group lines by voice or drop speakers.");
        return Err(AppError::bad_input(m));
    }
    if chars > MAX_TOTAL_CHARS {
        let m = cat(cat("dialogue is ", decimal_string(chars as u64).as_str()).as_str(),
            " chars; the API accepts ~2000. Split into multiple calls.");
        return Err(AppError::bad_input(m));
    }
    Ok(DialogueStats { inputs: inputs.len(), unique_voices: unique, characters: chars })
}


// ── The request ─────────────────────────────────────────────────────────

/// Command-line options of `dialogue`. The voice-setting numbers are held as
/// JSON number text.
#[derive(Debug, Clone)]
pub struct DialogueArgs {
    pub positional: Vec<String>,
    pub input: Option<String>,
    pub output: Option<String>,
    pub model: Option<String>,
    pub format: Option<String>,
    pub stream: bool,
    pub with_timestamps: bool,
    pub save_timestamps: Option<String>,
    pub stdout: bool,
    pub seed: Option<u32>,
    pub stability: Option<String>,
    pub similarity: Option<String>,
    pub style: Option<String>,
    pub speaker_boost: Option<bool>,
    pub language: Option<String>,
    pub apply_text_normalization: Option<String>,
    pub optimize_streaming_latency: Option<u32>,
    pub no_logging: bool,
}

pub open spec fn opt_member(k: Seq<char>, v: Option<Json>) -> Seq<(Seq<char>, Json)> {
    match v {
        Some(x) => seq![(k, x)],
        None => Seq::empty(),
    }
}

/// Looking up in an optional member.
pub proof fn lemma_obj_get_opt(k: Seq<char>, v: Option<Json>, key: Seq<char>)
    ensures
        obj_get(opt_member(k, v), key) == (if k == key {
            v
        } else {
            None::<Json>
        }),
{
    if let Some(x) = v {
        crate::json::lemma_obj_get_one((k, x), key);
    }
}

pub open spec fn num_of(s: Option<String>) -> Option<Json> {
    match s {
        Some(t) => Some(Json::Num(t@)),
        None => None,
    }
}

pub open spec fn str_of(s: Option<String>) -> Option<Json> {
    match s {
        Some(t) => Some(Json::Str(t@)),
        None => None,
    }
}

pub open spec fn bool_of(b: Option<bool>) -> Option<Json> {
    match b {
        Some(x) => Some(Json::Bool(x)),
        None => None,
    }
}

pub open spec fn uint_of(n: Option<u32>) -> Option<Json> {
    match n {
        Some(x) => Some(Json::Num(decimal(x as nat))),
        None => None,
    }
}

/// `{"text": ..., "voice_id": ...}` of one input.
pub open spec fn input_model(d: DialogueInput) -> Json {
    Json::Obj(seq![("text"@, Json::Str(d.text@)), ("voice_id"@, Json::Str(d.voice_id@))])
}

pub open spec fn inputs_model(inputs: Seq<DialogueInput>) -> Seq<Json> {
    inputs.map_values(|d: DialogueInput| input_model(d))
}

/// The voice settings given on the command line, in a fixed order.
pub open spec fn settings_model(a: DialogueArgs) -> Seq<(Seq<char>, Json)> {
    opt_member("stability"@, num_of(a.stability)) + opt_member("similarity_boost"@, num_of(a.similarity))
        + opt_member("style"@, num_of(a.style)) + opt_member("use_speaker_boost"@, bool_of(a.speaker_boost))
}

/// The request body: inputs, model, the settings object when any setting
/// is given, then seed, language code and text normalization when given.
pub open spec fn dialogue_body_model(a: DialogueArgs, inputs: Seq<DialogueInput>, model_id: Seq<char>) -> Json {
    let st = settings_model(a);
    Json::Obj(
        seq![("inputs"@, Json::Arr(inputs_model(inputs))), ("model_id"@, Json::Str(model_id))]
            + (if st.len() > 0 {
            seq![("settings"@, Json::Obj(st))]
        } else {
            Seq::empty()
        }) + opt_member("seed"@, uint_of(a.seed)) + opt_member("language_code"@, str_of(a.language))
            + opt_member("apply_text_normalization"@, str_of(a.apply_text_normalization)),
    )
}

/// Keys other than the trailing optional ones are found before them.
proof fn lemma_body_tail_misses(a: DialogueArgs, head: Seq<(Seq<char>, Json)>, k: Seq<char>)
    requires
        k != "seed"@,
        k != "language_code"@,
        k != "apply_text_normalization"@,
    ensures
        obj_get(
            head + opt_member("seed"@, uint_of(a.seed)) + opt_member("language_code"@, str_of(a.language))
                + opt_member("apply_text_normalization"@, str_of(a.apply_text_normalization)),
            k,
        ) == obj_get(head, k),
{
    let o1 = opt_member("seed"@, uint_of(a.seed));
    let o2 = opt_member("language_code"@, str_of(a.language));
    let o3 = opt_member("apply_text_normalization"@, str_of(a.apply_text_normalization));
    crate::json::lemma_obj_get_concat(head + o1 + o2, o3, k);
    crate::json::lemma_obj_get_concat(head + o1, o2, k);
    crate::json::lemma_obj_get_concat(head, o1, k);
    lemma_obj_get_opt("seed"@, uint_of(a.seed), k);
    lemma_obj_get_opt("language_code"@, str_of(a.language), k);
    lemma_obj_get_opt("apply_text_normalization"@, str_of(a.apply_text_normalization), k);
}

/// Each voice-setting flag lands under its own key of the body's
/// `settings` object, and nowhere else: `--stability` as `stability`,
/// `--similarity` as `similarity_boost`, `--style` as `style`,
/// `--speaker-boost` as `use_speaker_boost`; a flag that is not given has no
/// key, and with none given there is no `settings` at all. The model is the
/// given one.
pub proof fn lemma_body_settings(a: DialogueArgs, inputs: Seq<DialogueInput>, model_id: Seq<char>)
    ensures
        ({
            let body = dialogue_body_model(a, inputs, model_id);
            let st = json_get(body, "settings"@);
            &&& json_get(body, "model_id"@) == Some(Json::Str(model_id))
            &&& (st is None <==> (a.stability is None && a.similarity is None && a.style is None
                && a.speaker_boost is None))
            &&& (st is Some ==> json_at(st, "stability"@) == (match a.stability {
                Some(v) => Some(Json::Num(v@)),
                None => None,
            }))
            &&& (st is Some ==> json_at(st, "similarity_boost"@) == (match a.similarity {
                Some(v) => Some(Json::Num(v@)),
                None => None,
            }))
            &&& (st is Some ==> json_at(st, "style"@) == (match a.style {
                Some(v) => Some(Json::Num(v@)),
                None => None,
            }))
            &&& (st is Some ==> json_at(st, "use_speaker_boost"@) == (match a.speaker_boost {
                Some(b) => Some(Json::Bool(b)),
                None => None,
            }))
        }),
{
    reveal_strlit("inputs");
    reveal_strlit("model_id");
    reveal_strlit("settings");
    reveal_strlit("seed");
    reveal_strlit("language_code");
    reveal_strlit("apply_text_normalization");
    reveal_strlit("stability");
    reveal_strlit("similarity_boost");
    reveal_strlit("style");
    reveal_strlit("use_speaker_boost");
    assert("model_id"@[0] != "settings"@[0]);
    let h = seq![("inputs"@, Json::Arr(inputs_model(inputs))), ("model_id"@, Json::Str(model_id))];
    let stm = settings_model(a);
    let sw = if stm.len() > 0 {
        seq![("settings"@, Json::Obj(stm))]
    } else {
        Seq::<(Seq<char>, Json)>::empty()
    };
    let o1 = opt_member("seed"@, uint_of(a.seed));
    let o2 = opt_member("language_code"@, str_of(a.language));
    let o3 = opt_member("apply_text_normalization"@, str_of(a.apply_text_normalization));
    let all = h + sw + o1 + o2 + o3;
    assert(dialogue_body_model(a, inputs, model_id) == Json::Obj(all));
    assert("settings"@.len() == 8 && "seed"@.len() == 4 && "language_code"@.len() == 13);
    assert("apply_text_normalization"@.len() == 24 && "model_id"@.len() == 8);
    assert("settings"@ != "seed"@);
    lemma_body_tail_misses(a, h + sw, "model_id"@);
    lemma_body_tail_misses(a, h + sw, "settings"@);
    crate::json::lemma_obj_get_concat(seq![h[0]], seq![h[1]], "model_id"@);
    crate::json::lemma_obj_get_concat(seq![h[0]], seq![h[1]], "settings"@);
    assert(seq![h[0]] + seq![h[1]] =~= h);
    crate::json::lemma_obj_get_one(h[0], "model_id"@);
    crate::json::lemma_obj_get_one(h[1], "model_id"@);
    crate::json::lemma_obj_get_one(h[0], "settings"@);
    crate::json::lemma_obj_get_one(h[1], "settings"@);
    crate::json::lemma_obj_get_concat(h, sw, "model_id"@);
    crate::json::lemma_obj_get_concat(h, sw, "settings"@);
    if stm.len() > 0 {
        crate::json::lemma_obj_get_one(("settings"@, Json::Obj(stm)), "model_id"@);
        crate::json::lemma_obj_get_one(("settings"@, Json::Obj(stm)), "settings"@);
    }
    let a1 = opt_member("stability"@, num_of(a.stability));
    let a2 = opt_member("similarity_boost"@, num_of(a.similarity));
    let a3 = opt_member("style"@, num_of(a.style));
    let a4 = opt_member("use_speaker_boost"@, bool_of(a.speaker_boost));
    let sk = seq!["stability"@, "similarity_boost"@, "style"@, "use_speaker_boost"@];
    assert forall|i: int| 0 <= i < sk.len() implies obj_get(stm, #[trigger] sk[i]) == first_some(
        obj_get(a1, sk[i]),
        first_some(obj_get(a2, sk[i]), first_some(obj_get(a3, sk[i]), obj_get(a4, sk[i]))),
    ) by {
        let k = sk[i];
        crate::json::lemma_obj_get_concat(a1 + a2 + a3, a4, k);
        crate::json::lemma_obj_get_concat(a1 + a2, a3, k);
        crate::json::lemma_obj_get_concat(a1, a2, k);
    }
    assert forall|i: int, j: int| 0 <= i < sk.len() && 0 <= j < sk.len() && i != j implies #[trigger] sk[i] != #[trigger] sk[j] by {
        assert(sk[i].len() != sk[j].len());
    }
    assert forall|i: int| 0 <= i < sk.len() implies ({
        &&& obj_get(a1, #[trigger] sk[i]) == (if i == 0 { num_of(a.stability) } else { None::<Json> })
        &&& obj_get(a2, sk[i]) == (if i == 1 { num_of(a.similarity) } else { None::<Json> })
        &&& obj_get(a3, sk[i]) == (if i == 2 { num_of(a.style) } else { None::<Json> })
        &&& obj_get(a4, sk[i]) == (if i == 3 { bool_of(a.speaker_boost) } else { None::<Json> })
    }) by {
        lemma_obj_get_opt("stability"@, num_of(a.stability), sk[i]);
        lemma_obj_get_opt("similarity_boost"@, num_of(a.similarity), sk[i]);
        lemma_obj_get_opt("style"@, num_of(a.style), sk[i]);
        lemma_obj_get_opt("use_speaker_boost"@, bool_of(a.speaker_boost), sk[i]);
    }
    assert(sk[0] == "stability"@);
    assert(sk[1] == "similarity_boost"@);
    assert(sk[2] == "style"@);
    assert(sk[3] == "use_speaker_boost"@);
}

/// The rest of the dialogue body: every input in order with its own text
/// and voice, `seed`, `language_code` and `apply_text_normalization` under
/// their own keys exactly when their flags are given.
pub proof fn lemma_body_fields(a: DialogueArgs, inputs: Seq<DialogueInput>, model_id: Seq<char>)
    ensures
        ({
            let body = dialogue_body_model(a, inputs, model_id);
            &&& json_get(body, "inputs"@) matches Some(Json::Arr(xs)) && xs.len() == inputs.len() && forall|i: int|
                0 <= i < inputs.len() ==> json_get(#[trigger] xs[i], "text"@) == Some(Json::Str(inputs[i].text@))
                    && json_get(xs[i], "voice_id"@) == Some(Json::Str(inputs[i].voice_id@))
            &&& json_get(body, "seed"@) == (match a.seed {
                Some(n) => Some(Json::Num(decimal(n as nat))),
                None => None,
            })
            &&& json_get(body, "language_code"@) == (match a.language {
                Some(l) => Some(Json::Str(l@)),
                None => None,
            })
            &&& json_get(body, "apply_text_normalization"@) == (match a.apply_text_normalization {
                Some(t) => Some(Json::Str(t@)),
                None => None,
            })
        }),
{
    reveal_strlit("inputs");
    reveal_strlit("model_id");
    reveal_strlit("settings");
    reveal_strlit("seed");
    reveal_strlit("language_code");
    reveal_strlit("apply_text_normalization");
    reveal_strlit("text");
    reveal_strlit("voice_id");
    assert("inputs"@.len() == 6 && "model_id"@.len() == 8 && "settings"@.len() == 8 && "seed"@.len() == 4);
    assert("language_code"@.len() == 13 && "apply_text_normalization"@.len() == 24);
    assert("text"@.len() == 4 && "voice_id"@.len() == 8);
    let h = seq![("inputs"@, Json::Arr(inputs_model(inputs))), ("model_id"@, Json::Str(model_id))];
    let stm = settings_model(a);
    let sw = if stm.len() > 0 {
        seq![("settings"@, Json::Obj(stm))]
    } else {
        Seq::<(Seq<char>, Json)>::empty()
    };
    let o1 = opt_member("seed"@, uint_of(a.seed));
    let o2 = opt_member("language_code"@, str_of(a.language));
    let o3 = opt_member("apply_text_normalization"@, str_of(a.apply_text_normalization));
    let all = h + sw + o1 + o2 + o3;
    assert(dialogue_body_model(a, inputs, model_id) == Json::Obj(all));
    let ks = seq!["inputs"@, "seed"@, "language_code"@, "apply_text_normalization"@];
    assert forall|i: int| 0 <= i < 4 implies obj_get(all, #[trigger] ks[i]) == first_some(
        obj_get(h, ks[i]),
        first_some(obj_get(sw, ks[i]), first_some(obj_get(o1, ks[i]), first_some(obj_get(o2, ks[i]), obj_get(o3, ks[i])))),
    ) by {
        let k = ks[i];
        crate::json::lemma_obj_get_concat(h + sw + o1 + o2, o3, k);
        crate::json::lemma_obj_get_concat(h + sw + o1, o2, k);
        crate::json::lemma_obj_get_concat(h + sw, o1, k);
        crate::json::lemma_obj_get_concat(h, sw, k);
    }
    assert(ks[0] == "inputs"@ && ks[1] == "seed"@ && ks[2] == "language_code"@ && ks[3] == "apply_text_normalization"@);
    // `inputs` is found first.
    crate::json::lemma_obj_get_head(h, "inputs"@);
    // The optional members are found after the head and the settings.
    assert forall|i: int| 1 <= i < 4 implies obj_get(h, #[trigger] ks[i]) is None && obj_get(sw, ks[i]) is None by {
        let k = ks[i];
        crate::json::lemma_obj_get_skip(h, k);
        crate::json::lemma_obj_get_skip(h.drop_first(), k);
        assert(h.drop_first().drop_first() =~= Seq::<(Seq<char>, Json)>::empty());
        if stm.len() > 0 {
            crate::json::lemma_obj_get_one(("settings"@, Json::Obj(stm)), k);
        }
    }
    lemma_obj_get_opt("seed"@, uint_of(a.seed), "seed"@);
    lemma_obj_get_opt("language_code"@, str_of(a.language), "seed"@);
    lemma_obj_get_opt("apply_text_normalization"@, str_of(a.apply_text_normalization), "seed"@);
    lemma_obj_get_opt("seed"@, uint_of(a.seed), "language_code"@);
    lemma_obj_get_opt("language_code"@, str_of(a.language), "language_code"@);
    lemma_obj_get_opt("apply_text_normalization"@, str_of(a.apply_text_normalization), "language_code"@);
    lemma_obj_get_opt("seed"@, uint_of(a.seed), "apply_text_normalization"@);
    lemma_obj_get_opt("language_code"@, str_of(a.language), "apply_text_normalization"@);
    lemma_obj_get_opt("apply_text_normalization"@, str_of(a.apply_text_normalization), "apply_text_normalization"@);
    let xs = inputs_model(inputs);
    assert forall|i: int| 0 <= i < inputs.len() implies json_get(#[trigger] xs[i], "text"@) == Some(
        Json::Str(inputs[i].text@),
    ) && json_get(xs[i], "voice_id"@) == Some(Json::Str(inputs[i].voice_id@)) by {
        let m = input_model(inputs[i])->Obj_0;
        assert(xs[i] == input_model(inputs[i]));
        crate::json::lemma_obj_get_head(m, "text"@);
        crate::json::lemma_obj_get_skip(m, "voice_id"@);
        crate::json::lemma_obj_get_head(m.drop_first(), "voice_id"@);
    }
}

pub(crate) fn push_opt_member(m: &mut Vec<(String, JsonValue)>, k: &str, v: Option<JsonValue>)
    ensures
        members_model(final(m)@) == members_model(old(m)@) + opt_member(
            k@,
            match v {
                Some(x) => Some(x.model()),
                None => None,
            },
        ),
{
    match v {
        Some(x) => {
            push_member(m, k, x);
            proof {
                assert(members_model(old(m)@).push((k@, x.model())) =~= members_model(old(m)@) + seq![(k@, x.model())]);
            }
        },
        None => {
            proof {
                assert(members_model(m@) =~= members_model(m@) + Seq::<(Seq<char>, Json)>::empty());
            }
        },
    }
}

fn opt_number(s: &Option<String>) -> (r: Option<JsonValue>)
    ensures
        match r {
            Some(x) => Some(x.model()),
            None => None,
        } == num_of(*s),
{
    match s {
        Some(t) => Some(JsonValue::Number(t.clone())),
        None => None,
    }
}

fn opt_string(s: &Option<String>) -> (r: Option<JsonValue>)
    ensures
        match r {
            Some(x) => Some(x.model()),
            None => None,
        } == str_of(*s),
{
    match s {
        Some(t) => Some(json_str(t.as_str())),
        None => None,
    }
}

/// The JSON request body for these inputs and model.
pub fn build_body(args: &DialogueArgs, inputs: &Vec<DialogueInput>, model_id: &str) -> (r: JsonValue)
    ensures
        r.model() == dialogue_body_model(*args, inputs@, model_id@),
{
    let mut items: Vec<JsonValue> = Vec::new();
    let mut i: usize = 0;
    while i < inputs.len()
        invariant
            0 <= i <= inputs@.len(),
            items_model(items@) == inputs_model(inputs@.take(i as int)),
        decreases inputs@.len() - i,
    {
        let mut one: Vec<(String, JsonValue)> = Vec::new();
        push_member(&mut one, "text", json_str(inputs[i].text.as_str()));
        push_member(&mut one, "voice_id", json_str(inputs[i].voice_id.as_str()));
        proof {
            lemma_object_model(one);
            assert(members_model(one@) =~= seq![("text"@, Json::Str(inputs@[i as int].text@)), ("voice_id"@, Json::Str(inputs@[i as int].voice_id@))]);
        }
        push_item(&mut items, JsonValue::Object(one));
        proof {
            assert(inputs_model(inputs@.take(i + 1)) =~= inputs_model(inputs@.take(i as int)).push(input_model(inputs@[i as int])));
        }
        i = i + 1;
    }
    proof {
        assert(inputs@.take(inputs@.len() as int) =~= inputs@);
        lemma_array_model(items);
    }
    let mut settings: Vec<(String, JsonValue)> = Vec::new();
    push_opt_member(&mut settings, "stability", opt_number(&args.stability));
    push_opt_member(&mut settings, "similarity_boost", opt_number(&args.similarity));
    push_opt_member(&mut settings, "style", opt_number(&args.style));
    let boost = match args.speaker_boost {
        Some(b) => Some(JsonValue::Bool(b)),
        None => None,
    };
    push_opt_member(&mut settings, "use_speaker_boost", boost);
    proof {
        assert(members_model(settings@) =~= settings_model(*args));
        lemma_object_model(settings);
    }
    let mut body: Vec<(String, JsonValue)> = Vec::new();
    push_member(&mut body, "inputs", JsonValue::Array(items));
    push_member(&mut body, "model_id", json_str(model_id));
    let ghost head = members_model(body@);
    let has_settings = settings.len() > 0;
    if has_settings {
        push_member(&mut body, "settings", JsonValue::Object(settings));
    }
    proof {
        assert(head =~= seq![("inputs"@, Json::Arr(inputs_model(inputs@))), ("model_id"@, Json::Str(model_id@))]);
        if has_settings {
            assert(settings_model(*args).len() > 0);
        } else {
            assert(settings_model(*args).len() == 0);
        }
    }
    let ghost with_settings = members_model(body@);
    let seed = match args.seed {
        Some(n) => Some(json_uint(n as u64)),
        None => None,
    };
    push_opt_member(&mut body, "seed", seed);
    push_opt_member(&mut body, "language_code", opt_string(&args.language));
    push_opt_member(&mut body, "apply_text_normalization", opt_string(&args.apply_text_normalization));
    proof {
        lemma_object_model(body);
        assert(members_model(body@) =~= dialogue_body_model(*args, inputs@, model_id@)->Obj_0);
    }
    JsonValue::Object(body)
}

/// The query parameters: the output format, then `enable_logging=false`
/// with `--no-logging`, then the latency level when given.
pub open spec fn dialogue_query_model(a: DialogueArgs, output_format: Seq<char>) -> Seq<(Seq<char>, Seq<char>)> {
    seq![("output_format"@, output_format)]
        + (if a.no_logging { seq![("enable_logging"@, "false"@)] } else { Seq::empty() })
        + match a.optimize_streaming_latency {
            Some(o) => seq![("optimize_streaming_latency"@, decimal(o as nat))],
            None => Seq::empty(),
        }
}

pub open spec fn pairs_view(q: Seq<(String, String)>) -> Seq<(Seq<char>, Seq<char>)> {
    q.map_values(|p: (String, String)| (p.0@, p.1@))
}

/// `[(k, v)]` when `v` is given, else nothing.
pub open spec fn opt_pair(k: Seq<char>, v: Option<String>) -> Seq<(Seq<char>, Seq<char>)> {
    match v {
        Some(t) => seq![(k, t@)],
        None => Seq::empty(),
    }
}

fn push_pair(q: &mut Vec<(String, String)>, k: &str, v: String)
    ensures
        pairs_view(final(q)@) == pairs_view(old(q)@).push((k@, v@)),
{
    q.push((String::from_str(k), v));
    proof {
        assert(pairs_view(q@) =~= pairs_view(old(q)@).push((k@, v@)));
    }
}

/// Everything the `dialogue` request is made of.
#[derive(Debug)]
pub struct DialogueRequest {
    pub path: &'static str,
    pub endpoint_label: &'static str,
    pub model_id: String,
    pub output_format: String,
    pub query: Vec<(String, String)>,
    pub body: JsonValue,
}

/// The request for these inputs: model `eleven_v3` unless `--model` is
/// given, the config's output format unless `--format` is given, the
/// endpoint chosen by `--stream` / `--with-timestamps`.
pub fn plan_request(args: &DialogueArgs, inputs: &Vec<DialogueInput>, cfg: &AppConfig) -> (r: DialogueRequest)
    ensures
        r.model_id@ == (match args.model {
            Some(m) => m@,
            None => "eleven_v3"@,
        }),
        r.output_format@ == (match args.format {
            Some(f) => f@,
            None => match cfg.defaults.output_format {
                Some(v) => v@,
                None => "mp3_44100_128"@,
            },
        }),
        r.path@ == endpoint_path(args.stream, args.with_timestamps),
        r.endpoint_label@ == endpoint_label(args.stream, args.with_timestamps),
        pairs_view(r.query@) == dialogue_query_model(*args, r.output_format@),
        r.body.model() == dialogue_body_model(*args, inputs@, r.model_id@),
{
    let model_id = match &args.model {
        Some(m) => m.clone(),
        None => String::from_str("eleven_v3"),
    };
    let output_format = match &args.format {
        Some(f) => f.clone(),
        None => cfg.default_output_format(),
    };
    let body = build_body(args, inputs, model_id.as_str());
    let mut query: Vec<(String, String)> = Vec::new();
    push_pair(&mut query, "output_format", output_format.clone());
    let ghost q1 = pairs_view(query@);
    if args.no_logging {
        push_pair(&mut query, "enable_logging", String::from_str("false"));
    }
    let ghost q2 = pairs_view(query@);
    if let Some(o) = args.optimize_streaming_latency {
        push_pair(&mut query, "optimize_streaming_latency", decimal_string(o as u64));
    }
    proof {
        assert(q1 =~= seq![("output_format"@, output_format@)]);
        assert(pairs_view(query@) =~= dialogue_query_model(*args, output_format@));
    }
    let (path, label) = endpoint_for(args.stream, args.with_timestamps);
    DialogueRequest { path, endpoint_label: label, model_id, output_format, query, body }
}


/// How the endpoint answers.
#[derive(Debug, PartialEq, Eq, Structural, Clone, Copy)]
pub enum ResponseShape {
    /// Raw audio bytes (`convert`).
    RawAudio,
    /// Newline-delimited JSON chunks carrying `audio_base64` (`stream`).
    NdjsonAudio,
    /// One JSON object with `audio_base64` and the alignment
    /// (`with-timestamps`).
    TimestampsJson,
    /// Newline-delimited JSON chunks carrying audio and alignment
    /// (`stream+with-timestamps`); the alignment is saved one line per chunk.
    NdjsonTimestamps,
}

/// The response shape of the endpoint chosen by the two flags.
pub fn response_shape(stream: bool, with_timestamps: bool) -> (r: ResponseShape)
    ensures
        r == (if stream && with_timestamps {
            ResponseShape::NdjsonTimestamps
        } else if stream {
            ResponseShape::NdjsonAudio
        } else if with_timestamps {
            ResponseShape::TimestampsJson
        } else {
            ResponseShape::RawAudio
        }),
{
    if stream && with_timestamps {
        ResponseShape::NdjsonTimestamps
    } else if stream {
        ResponseShape::NdjsonAudio
    } else if with_timestamps {
        ResponseShape::TimestampsJson
    } else {
        ResponseShape::RawAudio
    }
}

// ── The result ──────────────────────────────────────────────────────────

/// What `dialogue` reports on success.
#[derive(Debug, Clone)]
pub struct DialogueResult {
    pub endpoint: String,
    pub model_id: String,
    pub inputs: usize,
    pub unique_voices: usize,
    pub characters: usize,
    pub output_format: String,
    pub output_path: Option<String>,
    pub alignment_path: Option<String>,
    pub bytes_written: usize,
}

pub open spec fn str_or_null(s: Option<String>) -> Json {
    match s {
        Some(t) => Json::Str(t@),
        None => Json::Null,
    }
}

pub open spec fn dialogue_result_model(r: DialogueResult) -> Json {
    Json::Obj(
        seq![
            ("endpoint"@, Json::Str(r.endpoint@)),
            ("model_id"@, Json::Str(r.model_id@)),
            ("inputs"@, Json::Num(decimal(r.inputs as nat))),
            ("unique_voices"@, Json::Num(decimal(r.unique_voices as nat))),
            ("characters"@, Json::Num(decimal(r.characters as nat))),
            ("output_format"@, Json::Str(r.output_format@)),
            ("output_path"@, str_or_null(r.output_path)),
            ("alignment_path"@, str_or_null(r.alignment_path)),
            ("bytes_written"@, Json::Num(decimal(r.bytes_written as nat))),
        ],
    )
}

fn opt_str_or_null(s: &Option<String>) -> (r: JsonValue)
    ensures
        r.model() == str_or_null(*s),
{
    match s {
        Some(t) => json_str(t.as_str()),
        None => JsonValue::Null,
    }
}

impl DialogueResult {
    /// The result as a JSON object, fields in declaration order.
    pub fn to_json(&self) -> (r: JsonValue)
        ensures
            r.model() == dialogue_result_model(*self),
    {
        let mut m: Vec<(String, JsonValue)> = Vec::new();
        push_member(&mut m, "endpoint", json_str(self.endpoint.as_str()));
        push_member(&mut m, "model_id", json_str(self.model_id.as_str()));
        push_member(&mut m, "inputs", json_uint(self.inputs as u64));
        push_member(&mut m, "unique_voices", json_uint(self.unique_voices as u64));
        push_member(&mut m, "characters", json_uint(self.characters as u64));
        push_member(&mut m, "output_format", json_str(self.output_format.as_str()));
        push_member(&mut m, "output_path", opt_str_or_null(&self.output_path));
        push_member(&mut m, "alignment_path", opt_str_or_null(&self.alignment_path));
        push_member(&mut m, "bytes_written", json_uint(self.bytes_written as u64));
        proof {
            lemma_object_model(m);
            assert(members_model(m@) =~= dialogue_result_model(*self)->Obj_0);
        }
        JsonValue::Object(m)
    }
}

/// Where the alignment is saved: `--save-timestamps` when given, else the
/// audio path followed by `.timings.json`.
pub fn alignment_path(save_timestamps: &Option<String>, audio_path: &str) -> (r: String)
    ensures
        r@ == (match save_timestamps {
            Some(p) => p@,
            None => audio_path@ + ".timings.json"@,
        }),
{
    match save_timestamps {
        Some(p) => p.clone(),
        None => cat(audio_path, ".timings.json"),
    }
}

} // verus!
