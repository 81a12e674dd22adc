//! Audio payloads inside JSON responses: base64 decoding, chunked and
//! newline-delimited (NDJSON) responses, and removal of the audio from the
//! metadata that is saved next to it.

use base64::Engine;
use vstd::prelude::*;

use crate::error::AppError;
use crate::json::{
    array_field, items_model, lemma_array_model, lemma_object_model, members_model, push_item, remove_key,
    str_field, without_key, Json, JsonValue, obj_get, json_get,
};
use crate::text::{cat, decimal, decimal_string, has_prefix};

verus! {

/// `base64::DecodeError`, the decoder's refusal, carried through opaque.
#[verifier::external_type_specification]
#[verifier::external_body]
pub struct ExDecodeError(base64::DecodeError);

/// The bytes the standard base64 engine (RFC 4648 alphabet, padded) decodes
/// from a text, or `None` when it refuses the text.
pub uninterp spec fn base64_standard_decode(text: Seq<char>) -> Option<Seq<u8>>;

/// Calls `base64::engine::general_purpose::STANDARD.decode` on the text.
/// Trusted claim: the bytes it returns are `base64_standard_decode(text)`,
/// and it fails exactly when that is `None`.
#[verifier::external_body]
pub(crate) fn base64_decode(text: &str) -> (r: Result<Vec<u8>, base64::DecodeError>)
    ensures
        match r {
            Ok(v) => base64_standard_decode(text@) == Some(v@),
            Err(_) => base64_standard_decode(text@) is None,
        },
{
    base64::engine::general_purpose::STANDARD.decode(text)
}

/// Decodes, reporting a refusal as an HTTP-class error whose message is
/// `prefix` followed by the decoder's explanation.
fn decode_or_report(text: &str, prefix: &str) -> (r: Result<Vec<u8>, AppError>)
    ensures
        match base64_standard_decode(text@) {
            Some(v) => r matches Ok(out) && out@ == v,
            None => r matches Err(AppError::Http(m)) && has_prefix(m@, prefix@),
        },
{
    match base64_decode(text) {
        Ok(v) => Ok(v),
        Err(e) => {
            let m = cat(prefix, e.to_string().as_str());
            proof {
                assert(m@.take(prefix@.len() as int) =~= prefix@);
            }
            Err(AppError::Http(m))
        },
    }
}

/// The decoded `audio_base64` of one chunk.
pub open spec fn chunk_audio(c: JsonValue) -> Option<Seq<u8>> {
    match str_field(c, "audio_base64"@) {
        Some(t) => base64_standard_decode(t),
        None => None,
    }
}

/// The decoded audio of all chunks, in order, concatenated.
pub open spec fn joined_audio(cs: Seq<JsonValue>) -> Option<Seq<u8>>
    decreases cs.len(),
{
    if cs.len() == 0 {
        Some(Seq::empty())
    } else {
        match (joined_audio(cs.drop_last()), chunk_audio(cs.last())) {
            (Some(a), Some(b)) => Some(a + b),
            _ => None,
        }
    }
}

/// The chunks' audio joins exactly when every chunk has decodable audio.
pub proof fn lemma_joined_audio_some(cs: Seq<JsonValue>)
    ensures
        joined_audio(cs) is Some <==> forall|i: int| 0 <= i < cs.len() ==> chunk_audio(#[trigger] cs[i]) is Some,
    decreases cs.len(),
{
    if cs.len() > 0 {
        lemma_joined_audio_some(cs.drop_last());
        if joined_audio(cs) is Some {
            assert forall|i: int| 0 <= i < cs.len() implies chunk_audio(#[trigger] cs[i]) is Some by {
                if i < cs.len() - 1 {
                    assert(cs[i] == cs.drop_last()[i]);
                }
            }
        }
        if forall|i: int| 0 <= i < cs.len() ==> chunk_audio(#[trigger] cs[i]) is Some {
            assert forall|i: int| 0 <= i < cs.drop_last().len() implies chunk_audio(#[trigger] cs.drop_last()[i]) is Some by {
                assert(cs.drop_last()[i] == cs[i]);
            }
            assert(chunk_audio(cs[cs.len() - 1]) is Some);
        }
    }
}

/// The error for the first chunk without decodable audio.
pub open spec fn chunk_error_ok(i: nat, c: JsonValue, r: AppError) -> bool {
    match str_field(c, "audio_base64"@) {
        None => r matches AppError::Http(m) && m@ == "dialogue response chunk["@ + decimal(i)
            + "] missing audio_base64"@,
        Some(_) => r matches AppError::Http(m) && has_prefix(
            m@,
            "decode chunk["@ + decimal(i) + "] audio base64: "@,
        ),
    }
}

/// Decodes and concatenates the audio of every chunk, in order.
pub fn decode_chunks(chunks: &Vec<JsonValue>) -> (r: Result<Vec<u8>, AppError>)
    ensures
        r is Ok <==> joined_audio(chunks@) is Some,
        r matches Ok(v) ==> joined_audio(chunks@) == Some(v@),
        r matches Err(e) ==> exists|i: int|
            0 <= i < chunks@.len() && chunk_audio(#[trigger] chunks@[i]) is None && (forall|k: int|
                0 <= k < i ==> chunk_audio(chunks@[k]) is Some) && chunk_error_ok(i as nat, chunks@[i], e),
{
    let mut all: Vec<u8> = Vec::new();
    let mut i: usize = 0;
    proof {
        assert(chunks@.take(0) =~= Seq::<JsonValue>::empty());
    }
    while i < chunks.len()
        invariant
            0 <= i <= chunks@.len(),
            joined_audio(chunks@.take(i as int)) == Some(all@),
            forall|k: int| 0 <= k < i ==> chunk_audio(#[trigger] chunks@[k]) is Some,
        decreases chunks@.len() - i,
    {
        let c = &chunks[i];
        let text = match c.get_str("audio_base64") {
            Some(t) => t,
            None => {
                let m = cat(cat("dialogue response chunk[", decimal_string(i as u64).as_str()).as_str(), "] missing audio_base64");
                let e = AppError::Http(m);
                proof {
                    lemma_joined_audio_some(chunks@);
                    assert(chunk_error_ok(i as nat, chunks@[i as int], e));
                }
                return Err(e);
            },
        };
        let prefix = cat(cat("decode chunk[", decimal_string(i as u64).as_str()).as_str(), "] audio base64: ");
        let mut decoded = match decode_or_report(text, prefix.as_str()) {
            Ok(d) => d,
            Err(e) => {
                proof {
                    lemma_joined_audio_some(chunks@);
                    assert(chunk_error_ok(i as nat, chunks@[i as int], e));
                }
                return Err(e);
            },
        };
        let ghost before = all@;
        all.append(&mut decoded);
        proof {
            assert(chunks@.take(i + 1).drop_last() =~= chunks@.take(i as int));
            assert(chunks@.take(i + 1).last() == chunks@[i as int]);
        }
        i = i + 1;
    }
    proof {
        assert(chunks@.take(chunks@.len() as int) =~= chunks@);
    }
    Ok(all)
}

pub open spec fn no_audio_payload_message() -> Seq<char> {
    "dialogue with-timestamps response had no audio payload (expected `audio_base64` or `chunks[]`)"@
}

/// The audio of a with-timestamps response: its own `audio_base64`, or the
/// concatenated audio of its `chunks`.
pub fn decode_timestamp_audio(resp: &JsonValue) -> (r: Result<Vec<u8>, AppError>)
    ensures
        match str_field(*resp, "audio_base64"@) {
            Some(t) => match base64_standard_decode(t) {
                Some(v) => r matches Ok(out) && out@ == v,
                None => r matches Err(AppError::Http(m)) && has_prefix(m@, "decode audio base64: "@),
            },
            None => match array_field(*resp, "chunks"@) {
                Some(cs) => (r is Ok <==> joined_audio(cs) is Some) && (r matches Ok(v) ==> joined_audio(cs)
                    == Some(v@)) && (r matches Err(e) ==> exists|i: int|
                    0 <= i < cs.len() && chunk_audio(#[trigger] cs[i]) is None && (forall|k: int|
                        0 <= k < i ==> chunk_audio(cs[k]) is Some) && chunk_error_ok(i as nat, cs[i], e)),
                None => r matches Err(AppError::Http(m)) && m@ == no_audio_payload_message(),
            },
        },
{
    if let Some(text) = resp.get_str("audio_base64") {
        return decode_or_report(text, "decode audio base64: ");
    }
    if let Some(chunks) = resp.get_array("chunks") {
        return decode_chunks(chunks);
    }
    Err(
        AppError::Http(
            String::from_str(
                "dialogue with-timestamps response had no audio payload (expected `audio_base64` or `chunks[]`)",
            ),
        ),
    )
}

// ── Removing audio from metadata ────────────────────────────────────────

/// The members left once every member named `k` is dropped.
pub open spec fn drop_member(ms: Seq<(Seq<char>, Json)>, k: Seq<char>) -> Seq<(Seq<char>, Json)>
    decreases ms.len(),
{
    if ms.len() == 0 {
        ms
    } else if ms[0].0 == k {
        drop_member(ms.drop_first(), k)
    } else {
        seq![ms[0]] + drop_member(ms.drop_first(), k)
    }
}

/// An object without its `audio_base64` member; other values unchanged.
pub open spec fn strip_audio(j: Json) -> Json {
    match j {
        Json::Obj(ms) => Json::Obj(drop_member(ms, "audio_base64"@)),
        _ => j,
    }
}

pub open spec fn strip_chunk_member(e: (Seq<char>, Json)) -> (Seq<char>, Json) {
    if e.0 == "chunks"@ {
        (
            e.0,
            match e.1 {
                Json::Arr(xs) => Json::Arr(xs.map_values(|x: Json| strip_audio(x))),
                other => other,
            },
        )
    } else {
        e
    }
}

/// A response without audio: no top-level `audio_base64`, and no
/// `audio_base64` in the objects of its `chunks` array.
pub open spec fn stripped_response(j: Json) -> Json {
    match j {
        Json::Obj(ms) => Json::Obj(
            drop_member(ms, "audio_base64"@).map_values(|e: (Seq<char>, Json)| strip_chunk_member(e)),
        ),
        _ => j,
    }
}

/// Dropping members by key commutes with taking the model.
pub proof fn lemma_drop_member_model(m: Seq<(String, JsonValue)>, k: Seq<char>)
    ensures
        members_model(without_key(m, k)) == drop_member(members_model(m), k),
    decreases m.len(),
{
    if m.len() > 0 {
        lemma_drop_member_model(m.drop_first(), k);
        assert(members_model(m).drop_first() =~= members_model(m.drop_first()));
        if m[0].0@ != k {
            assert(members_model(seq![m[0]] + without_key(m.drop_first(), k)) =~= seq![members_model(m)[0]]
                + members_model(without_key(m.drop_first(), k)));
        }
    }
}

/// `v` without its `audio_base64` member when it is an object.
pub fn strip_audio_field(v: JsonValue) -> (r: JsonValue)
    ensures
        r.model() == strip_audio(v.model()),
{
    match v {
        JsonValue::Object(m) => {
            let ghost old_m = m;
            let mut m = m;
            remove_key(&mut m, "audio_base64");
            proof {
                lemma_object_model(old_m);
                lemma_object_model(m);
                lemma_drop_member_model(old_m@, "audio_base64"@);
            }
            JsonValue::Object(m)
        },
        other => other,
    }
}

/// Strips `audio_base64` from every chunk, keeping their order.
pub fn strip_audio_chunks(chunks: Vec<JsonValue>) -> (r: Vec<JsonValue>)
    ensures
        items_model(r@) == items_model(chunks@).map_values(|x: Json| strip_audio(x)),
{
    let ghost orig = chunks@;
    let mut src = chunks;
    let mut out: Vec<JsonValue> = Vec::new();
    let mut i: usize = 0;
    proof {
        assert(orig.len() == src.len());
    }
    while src.len() > 0
        invariant
            orig.len() == i + src@.len(),
            orig.len() <= usize::MAX,
            src@ == orig.skip(i as int),
            items_model(out@) == items_model(orig.take(i as int)).map_values(|x: Json| strip_audio(x)),
        decreases src@.len(),
    {
        let ghost before = src@;
        let c = src.remove(0);
        proof {
            assert(c == orig[i as int]);
        }
        push_item(&mut out, strip_audio_field(c));
        proof {
            assert(src@ =~= orig.skip(i + 1));
            assert(items_model(orig.take(i + 1)).map_values(|x: Json| strip_audio(x)) =~= items_model(
                orig.take(i as int),
            ).map_values(|x: Json| strip_audio(x)).push(strip_audio(orig[i as int].model())));
        }
        i = i + 1;
    }
    proof {
        assert(orig.take(i as int) =~= orig);
    }
    out
}

/// The response with its audio removed, for the alignment/metadata file:
/// the top-level `audio_base64` member and the `audio_base64` member of
/// each object in `chunks` are dropped; everything else is kept.
pub fn strip_audio_from_response(resp: JsonValue) -> (r: JsonValue)
    ensures
        r.model() == stripped_response(resp.model()),
{
    match resp {
        JsonValue::Object(m) => {
            let ghost m0 = m;
            let mut m = m;
            remove_key(&mut m, "audio_base64");
            proof {
                lemma_drop_member_model(m0@, "audio_base64"@);
                lemma_object_model(m0);
            }
            let ghost mid = m@;
            proof {
                assert(mid.len() == m.len());
            }
            let mut out: Vec<(String, JsonValue)> = Vec::new();
            let mut i: usize = 0;
            while m.len() > 0
                invariant
                    mid.len() == i + m@.len(),
                    mid.len() <= usize::MAX,
                    m@ == mid.skip(i as int),
                    members_model(out@) == members_model(mid.take(i as int)).map_values(
                        |e: (Seq<char>, Json)| strip_chunk_member(e),
                    ),
                decreases m@.len(),
            {
                let e = m.remove(0);
                proof {
                    assert(e == mid[i as int]);
                    assert(m@ =~= mid.skip(i + 1));
                }
                let (k, v) = e;
                let nv = if crate::text::str_eq(k.as_str(), "chunks") {
                    match v {
                        JsonValue::Array(items) => {
                            let ghost it = items;
                            let stripped = strip_audio_chunks(items);
                            proof {
                                lemma_array_model(it);
                                lemma_array_model(stripped);
                            }
                            JsonValue::Array(stripped)
                        },
                        other => other,
                    }
                } else {
                    v
                };
                let ghost before = out@;
                out.push((k, nv));
                proof {
                    assert(members_model(mid.take(i + 1)) =~= members_model(mid.take(i as int)).push(
                        crate::json::member_model(mid[i as int]),
                    ));
                    assert(members_model(out@) =~= members_model(before).push(crate::json::member_model((k, nv))));
                    assert(members_model(mid.take(i + 1)).map_values(|e: (Seq<char>, Json)| strip_chunk_member(e))
                        =~= members_model(mid.take(i as int)).map_values(|e: (Seq<char>, Json)| strip_chunk_member(e)).push(
                        strip_chunk_member(crate::json::member_model(mid[i as int])),
                    ));
                }
                i = i + 1;
            }
            proof {
                assert(mid.take(i as int) =~= mid);
                lemma_object_model(out);
            }
            JsonValue::Object(out)
        },
        other => other,
    }
}


/// Looking up a key after dropping `k`: nothing for `k`, unchanged otherwise.
pub proof fn lemma_obj_get_drop(ms: Seq<(Seq<char>, Json)>, k: Seq<char>, o: Seq<char>)
    ensures
        obj_get(drop_member(ms, k), o) == (if o == k {
            None::<Json>
        } else {
            obj_get(ms, o)
        }),
    decreases ms.len(),
{
    if ms.len() > 0 {
        lemma_obj_get_drop(ms.drop_first(), k, o);
        if ms[0].0 != k {
            let d = seq![ms[0]] + drop_member(ms.drop_first(), k);
            assert(d.drop_first() =~= drop_member(ms.drop_first(), k));
        }
    }
}

/// Stripping removes `audio_base64` and leaves every other member as it was.
pub proof fn lemma_strip_audio_removes_audio(j: Json)
    ensures
        json_get(strip_audio(j), "audio_base64"@) is None,
        forall|k: Seq<char>| k != "audio_base64"@ ==> #[trigger] json_get(strip_audio(j), k) == json_get(j, k),
{
    if let Json::Obj(ms) = j {
        lemma_obj_get_drop(ms, "audio_base64"@, "audio_base64"@);
        assert forall|k: Seq<char>| k != "audio_base64"@ implies #[trigger] json_get(strip_audio(j), k) == json_get(j, k) by {
            lemma_obj_get_drop(ms, "audio_base64"@, k);
        }
    }
}

proof fn lemma_obj_get_map_chunks(ms: Seq<(Seq<char>, Json)>, k: Seq<char>)
    ensures
        obj_get(ms.map_values(|e: (Seq<char>, Json)| strip_chunk_member(e)), k) == (match obj_get(ms, k) {
            Some(v) => Some(strip_chunk_member((k, v)).1),
            None => None,
        }),
    decreases ms.len(),
{
    if ms.len() > 0 {
        let mm = ms.map_values(|e: (Seq<char>, Json)| strip_chunk_member(e));
        assert(mm.drop_first() =~= ms.drop_first().map_values(|e: (Seq<char>, Json)| strip_chunk_member(e)));
        assert(mm[0] == strip_chunk_member(ms[0]));
        lemma_obj_get_map_chunks(ms.drop_first(), k);
    }
}

/// What is saved of a with-timestamps response: no top-level
/// `audio_base64`; every other member unchanged except `chunks`, whose
/// objects each lose their `audio_base64` (and keep the rest).
pub proof fn lemma_stripped_response_members(j: Json)
    ensures
        json_get(stripped_response(j), "audio_base64"@) is None,
        forall|k: Seq<char>| k != "audio_base64"@ && k != "chunks"@ ==> #[trigger] json_get(stripped_response(j), k) == json_get(j, k),
        json_get(j, "chunks"@) matches Some(Json::Arr(xs)) ==> json_get(stripped_response(j), "chunks"@) == Some(
            Json::Arr(xs.map_values(|x: Json| strip_audio(x))),
        ),
{
    if let Json::Obj(ms) = j {
        let d = drop_member(ms, "audio_base64"@);
        lemma_obj_get_map_chunks(d, "audio_base64"@);
        lemma_obj_get_drop(ms, "audio_base64"@, "audio_base64"@);
        assert forall|k: Seq<char>| k != "audio_base64"@ && k != "chunks"@ implies #[trigger] json_get(stripped_response(j), k) == json_get(j, k) by {
            lemma_obj_get_map_chunks(d, k);
            lemma_obj_get_drop(ms, "audio_base64"@, k);
        }
        reveal_strlit("chunks");
        reveal_strlit("audio_base64");
        assert("chunks"@.len() != "audio_base64"@.len());
        lemma_obj_get_map_chunks(d, "chunks"@);
        lemma_obj_get_drop(ms, "audio_base64"@, "chunks"@);
        if let Some(Json::Arr(xs)) = json_get(j, "chunks"@) {
            assert(obj_get(d, "chunks"@) == Some(Json::Arr(xs)));
            assert(strip_chunk_member(("chunks"@, Json::Arr(xs))).1 == Json::Arr(xs.map_values(|x: Json| strip_audio(x))));
        }
    }
}

// ── Newline-delimited JSON ──────────────────────────────────────────────

/// Space, tab or carriage return.
pub open spec fn is_blank_byte(b: u8) -> bool {
    b == 32 || b == 9 || b == 13
}

pub open spec fn blank_line(l: Seq<u8>) -> bool {
    forall|k: int| 0 <= k < l.len() ==> is_blank_byte(#[trigger] l[k])
}

pub open spec fn keep_line(l: Seq<u8>) -> Seq<Seq<u8>> {
    if blank_line(l) {
        Seq::empty()
    } else {
        seq![l]
    }
}

/// The non-blank lines of `cur` followed by `rest`, split at each `\n`.
pub open spec fn lines_from(cur: Seq<u8>, rest: Seq<u8>) -> Seq<Seq<u8>>
    decreases rest.len(),
{
    if rest.len() == 0 {
        keep_line(cur)
    } else if rest[0] == 10 {
        keep_line(cur) + lines_from(Seq::empty(), rest.drop_first())
    } else {
        lines_from(cur.push(rest[0]), rest.drop_first())
    }
}

/// The records of an NDJSON body: its lines, without the blank ones (a
/// trailing newline leaves no record).
pub open spec fn ndjson_lines(body: Seq<u8>) -> Seq<Seq<u8>> {
    lines_from(Seq::empty(), body)
}

pub open spec fn byte_lines(v: Seq<Vec<u8>>) -> Seq<Seq<u8>> {
    v.map_values(|l: Vec<u8>| l@)
}

fn is_blank_line(l: &Vec<u8>) -> (r: bool)
    ensures
        r == blank_line(l@),
{
    let mut k: usize = 0;
    while k < l.len()
        invariant
            0 <= k <= l@.len(),
            forall|j: int| 0 <= j < k ==> is_blank_byte(#[trigger] l@[j]),
        decreases l@.len() - k,
    {
        let b = l[k];
        if !(b == 32 || b == 9 || b == 13) {
            return false;
        }
        k = k + 1;
    }
    true
}

fn push_line(out: &mut Vec<Vec<u8>>, line: Vec<u8>)
    ensures
        byte_lines(final(out)@) == byte_lines(old(out)@) + keep_line(line@),
{
    if is_blank_line(&line) {
        proof {
            assert(byte_lines(out@) =~= byte_lines(out@) + Seq::<Seq<u8>>::empty());
        }
    } else {
        let ghost l = line@;
        out.push(line);
        proof {
            assert(byte_lines(out@) =~= byte_lines(old(out)@) + seq![l]);
        }
    }
}

/// Splits an NDJSON body into its records (see [`ndjson_lines`]).
pub fn split_ndjson(body: &[u8]) -> (r: Vec<Vec<u8>>)
    ensures
        byte_lines(r@) == ndjson_lines(body@),
{
    let mut out: Vec<Vec<u8>> = Vec::new();
    let mut cur: Vec<u8> = Vec::new();
    let mut i: usize = 0;
    proof {
        assert(body@.skip(0) =~= body@);
        assert(byte_lines(out@) =~= Seq::<Seq<u8>>::empty());
        assert(cur@ =~= Seq::<u8>::empty());
    }
    while i < body.len()
        invariant
            0 <= i <= body@.len(),
            byte_lines(out@) + lines_from(cur@, body@.skip(i as int)) == ndjson_lines(body@),
        decreases body@.len() - i,
    {
        let b = body[i];
        proof {
            assert(body@.skip(i as int)[0] == b);
            assert(body@.skip(i as int).drop_first() =~= body@.skip(i + 1));
        }
        if b == 10 {
            let ghost before = byte_lines(out@);
            let ghost c = cur@;
            let mut line: Vec<u8> = Vec::new();
            core::mem::swap(&mut line, &mut cur);
            push_line(&mut out, line);
            proof {
                assert(cur@ =~= Seq::<u8>::empty());
                assert(before + (keep_line(c) + lines_from(Seq::empty(), body@.skip(i + 1))) =~= byte_lines(out@)
                    + lines_from(cur@, body@.skip(i + 1)));
            }
        } else {
            cur.push(b);
        }
        i = i + 1;
    }
    push_line(&mut out, cur);
    proof {
        assert(byte_lines(out@) =~= ndjson_lines(body@));
    }
    out
}

pub open spec fn clean_lines(ls: Seq<Seq<u8>>) -> bool {
    forall|i: int| 0 <= i < ls.len() ==> !blank_line(#[trigger] ls[i]) && !ls[i].contains(10)
}

/// Every line produced by the splitter is non-blank and holds no newline.
pub proof fn lemma_lines_from_clean(cur: Seq<u8>, rest: Seq<u8>)
    requires
        !cur.contains(10),
    ensures
        clean_lines(lines_from(cur, rest)),
    decreases rest.len(),
{
    assert(clean_lines(keep_line(cur))) by {
        if !blank_line(cur) {
            assert(keep_line(cur) =~= seq![cur]);
        }
    }
    if rest.len() == 0 {
    } else if rest[0] == 10 {
        assert(!Seq::<u8>::empty().contains(10));
        lemma_lines_from_clean(Seq::empty(), rest.drop_first());
        let a = keep_line(cur);
        let b = lines_from(Seq::<u8>::empty(), rest.drop_first());
        assert(lines_from(cur, rest) == a + b);
        assert forall|i: int| 0 <= i < (a + b).len() implies !blank_line(#[trigger] (a + b)[i]) && !(a
            + b)[i].contains(10) by {
            if i >= a.len() {
                assert((a + b)[i] == b[i - a.len()]);
            } else {
                assert((a + b)[i] == a[i]);
            }
        }
    } else {
        let c2 = cur.push(rest[0]);
        assert forall|k: int| 0 <= k < c2.len() implies c2[k] != 10 by {
            if k < cur.len() {
                assert(c2[k] == cur[k]);
                assert(cur.contains(cur[k]));
            }
        }
        lemma_lines_from_clean(c2, rest.drop_first());
        assert(lines_from(cur, rest) == lines_from(c2, rest.drop_first()));
    }
}

/// Every NDJSON record is non-blank and holds no newline.
pub proof fn lemma_ndjson_records_clean(body: Seq<u8>)
    ensures
        clean_lines(ndjson_lines(body)),
{
    lemma_lines_from_clean(Seq::empty(), body);
}

/// The records written one per line, each followed by `\n`.
pub open spec fn joined_lines(rs: Seq<Seq<u8>>) -> Seq<u8>
    decreases rs.len(),
{
    if rs.len() == 0 {
        Seq::empty()
    } else {
        rs[0] + seq![10u8] + joined_lines(rs.drop_first())
    }
}

/// Splitting after a line without `\n` that ends at a `\n`: the line is
/// finished, and splitting goes on after it.
proof fn lemma_lines_from_line(cur: Seq<u8>, l: Seq<u8>, rest: Seq<u8>)
    requires
        !l.contains(10),
    ensures
        lines_from(cur, l + seq![10u8] + rest) == keep_line(cur + l) + lines_from(Seq::empty(), rest),
    decreases l.len(),
{
    let s = l + seq![10u8] + rest;
    if l.len() == 0 {
        assert(s =~= seq![10u8] + rest);
        assert(s.drop_first() =~= rest);
        assert(cur + l =~= cur);
    } else {
        assert(s[0] == l[0]);
        assert(l[0] != 10) by {
            assert(l.contains(l[0]));
        }
        let l2 = l.drop_first();
        assert(!l2.contains(10)) by {
            if l2.contains(10) {
                let k = choose|k: int| 0 <= k < l2.len() && l2[k] == 10;
                assert(l[k + 1] == 10);
            }
        }
        assert(s.drop_first() =~= l2 + seq![10u8] + rest);
        lemma_lines_from_line(cur.push(l[0]), l2, rest);
        assert(cur.push(l[0]) + l2 =~= cur + l);
    }
}

/// Records that are non-blank and hold no newline, each written on a line
/// of its own, are split back into exactly those records, in order.
pub proof fn lemma_ndjson_of_records(rs: Seq<Seq<u8>>)
    requires
        clean_lines(rs),
    ensures
        ndjson_lines(joined_lines(rs)) == rs,
    decreases rs.len(),
{
    if rs.len() == 0 {
        assert(blank_line(Seq::<u8>::empty()));
        assert(keep_line(Seq::<u8>::empty()) =~= Seq::<Seq<u8>>::empty());
    } else {
        let r0 = rs[0];
        let tail = rs.drop_first();
        assert(!blank_line(r0) && !r0.contains(10));
        assert(clean_lines(tail)) by {
            assert forall|i: int| 0 <= i < tail.len() implies !blank_line(#[trigger] tail[i]) && !tail[i].contains(10) by {
                assert(tail[i] == rs[i + 1]);
            }
        }
        lemma_ndjson_of_records(tail);
        lemma_lines_from_line(Seq::empty(), r0, joined_lines(tail));
        assert(Seq::<u8>::empty() + r0 =~= r0);
        assert(keep_line(r0) =~= seq![r0]);
        assert(seq![r0] + tail =~= rs);
    }
}

proof fn lemma_drop_member_absent(ms: Seq<(Seq<char>, Json)>, k: Seq<char>)
    ensures
        forall|i: int| 0 <= i < drop_member(ms, k).len() ==> #[trigger] drop_member(ms, k)[i].0 != k,
    decreases ms.len(),
{
    if ms.len() > 0 {
        lemma_drop_member_absent(ms.drop_first(), k);
        if ms[0].0 == k {
            assert(drop_member(ms, k) == drop_member(ms.drop_first(), k));
        } else {
            let d = drop_member(ms.drop_first(), k);
            assert(drop_member(ms, k) == seq![ms[0]] + d);
            assert forall|i: int| 0 <= i < (seq![ms[0]] + d).len() implies #[trigger] (seq![ms[0]] + d)[i].0 != k by {
                if i > 0 {
                    assert((seq![ms[0]] + d)[i] == d[i - 1]);
                }
            }
        }
    }
}

proof fn lemma_drop_member_noop(ms: Seq<(Seq<char>, Json)>, k: Seq<char>)
    requires
        forall|i: int| 0 <= i < ms.len() ==> #[trigger] ms[i].0 != k,
    ensures
        drop_member(ms, k) == ms,
    decreases ms.len(),
{
    if ms.len() > 0 {
        assert(ms[0].0 != k);
        assert forall|i: int| 0 <= i < ms.drop_first().len() implies #[trigger] ms.drop_first()[i].0 != k by {
            assert(ms.drop_first()[i] == ms[i + 1]);
        }
        lemma_drop_member_noop(ms.drop_first(), k);
        assert(seq![ms[0]] + ms.drop_first() =~= ms);
    }
}

/// Dropping a key twice is dropping it once.
proof fn lemma_drop_member_idempotent(ms: Seq<(Seq<char>, Json)>, k: Seq<char>)
    ensures
        drop_member(drop_member(ms, k), k) == drop_member(ms, k),
{
    lemma_drop_member_absent(ms, k);
    lemma_drop_member_noop(drop_member(ms, k), k);
}

/// Stripping a value twice is stripping it once.
pub proof fn lemma_strip_audio_idempotent(j: Json)
    ensures
        strip_audio(strip_audio(j)) == strip_audio(j),
{
    if let Json::Obj(ms) = j {
        lemma_drop_member_idempotent(ms, "audio_base64"@);
    }
}

proof fn lemma_strip_chunk_member_idempotent(e: (Seq<char>, Json))
    ensures
        strip_chunk_member(strip_chunk_member(e)) == strip_chunk_member(e),
{
    if e.0 == "chunks"@ {
        if let Json::Arr(xs) = e.1 {
            let once = xs.map_values(|x: Json| strip_audio(x));
            let twice = once.map_values(|x: Json| strip_audio(x));
            assert forall|i: int| 0 <= i < once.len() implies #[trigger] twice[i] == once[i] by {
                lemma_strip_audio_idempotent(xs[i]);
            }
            assert(twice =~= once);
        }
    }
}

/// Stripping the audio from a response that was already stripped changes
/// nothing: the saved alignment/metadata is a fixed point.
pub proof fn lemma_stripped_response_idempotent(j: Json)
    ensures
        stripped_response(stripped_response(j)) == stripped_response(j),
{
    if let Json::Obj(ms) = j {
        let k = "audio_base64"@;
        let d = drop_member(ms, k);
        let m1 = d.map_values(|e: (Seq<char>, Json)| strip_chunk_member(e));
        lemma_drop_member_absent(ms, k);
        assert forall|i: int| 0 <= i < m1.len() implies #[trigger] m1[i].0 != k by {
            assert(m1[i] == strip_chunk_member(d[i]));
            assert(d[i].0 != k);
        }
        lemma_drop_member_noop(m1, k);
        let m2 = m1.map_values(|e: (Seq<char>, Json)| strip_chunk_member(e));
        assert forall|i: int| 0 <= i < m1.len() implies #[trigger] m2[i] == m1[i] by {
            lemma_strip_chunk_member_idempotent(d[i]);
        }
        assert(m2 =~= m1);
    }
}

} // verus!
