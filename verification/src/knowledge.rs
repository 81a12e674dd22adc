//! `agents add-knowledge`: create a knowledge-base document and attach it to
//! an agent's `conversation_config.agent.prompt.knowledge_base`.
//!
//! The application shell performs the three calls (create the document, read
//! the agent, PATCH it); the steps between them are decided here.

use vstd::prelude::*;
use vstd::string::StringSliceAdditionalSpecFns;
use vstd::utf8::encode_utf8;

use crate::error::{append_to_message, appended, AppError};
use crate::json::{json_at, 
    into_field, json_get, json_str, lemma_array_model, lemma_object_model, members_model, push_item, push_member,
    str_field, items_model, Json, JsonValue,
};
use crate::text::cat;

verus! {

/// Where the document's content comes from.
#[derive(Debug, Clone)]
pub enum KnowledgeSource {
    Url(String),
    File(String),
    Text(String),
}

pub open spec fn count_some(url: Option<String>, file: Option<String>, text: Option<String>) -> nat {
    (if url is Some { 1nat } else { 0nat }) + (if file is Some { 1nat } else { 0nat }) + (if text is Some {
        1nat
    } else {
        0nat
    })
}

/// Exactly one of `--url`, `--file`, `--text` must be given.
pub fn choose_source(url: Option<String>, file: Option<String>, text: Option<String>) -> (r: Result<KnowledgeSource, AppError>)
    ensures
        count_some(url, file, text) == 0 ==> crate::dict::is_bad_input(r, "provide one of --url, --file, or --text"@),
        count_some(url, file, text) > 1 ==> crate::dict::is_bad_input(r, "provide only one of --url, --file, or --text"@),
        count_some(url, file, text) == 1 ==> match (url, file, text) {
            (Some(u), _, _) => r matches Ok(KnowledgeSource::Url(x)) && x == u,
            (_, Some(f), _) => r matches Ok(KnowledgeSource::File(x)) && x == f,
            (_, _, Some(t)) => r matches Ok(KnowledgeSource::Text(x)) && x == t,
            _ => false,
        },
{
    let n: usize = (if url.is_some() { 1 } else { 0 }) + (if file.is_some() { 1 } else { 0 }) + (if text.is_some() {
        1
    } else {
        0
    });
    if n == 0 {
        return Err(AppError::bad_input(String::from_str("provide one of --url, --file, or --text")));
    }
    if n > 1 {
        return Err(AppError::bad_input(String::from_str("provide only one of --url, --file, or --text")));
    }
    match (url, file, text) {
        (Some(u), _, _) => Ok(KnowledgeSource::Url(u)),
        (_, Some(f), _) => Ok(KnowledgeSource::File(f)),
        (_, _, Some(t)) => Ok(KnowledgeSource::Text(t)),
        _ => Err(AppError::bad_input(String::from_str("provide one of --url, --file, or --text"))),
    }
}

/// The document-creating call.
#[derive(Debug)]
pub struct CreateDocument {
    /// Endpoint to POST to.
    pub path: &'static str,
    /// The document type recorded on the agent (`url`, `text` or `file`).
    pub doc_type: &'static str,
    /// JSON body for `url` and `text`; `None` for the multipart file upload,
    /// whose form carries `name` and the file.
    pub body: Option<JsonValue>,
}

pub open spec fn create_document_ok(src: KnowledgeSource, name: Seq<char>, r: CreateDocument) -> bool {
    match src {
        KnowledgeSource::Url(u) => r.path@ == "/v1/convai/knowledge-base/url"@ && r.doc_type@ == "url"@
            && (r.body matches Some(b) && b.model() == Json::Obj(
            seq![("name"@, Json::Str(name)), ("url"@, Json::Str(u@))],
        )),
        KnowledgeSource::Text(t) => r.path@ == "/v1/convai/knowledge-base/text"@ && r.doc_type@ == "text"@
            && (r.body matches Some(b) && b.model() == Json::Obj(
            seq![("name"@, Json::Str(name)), ("text"@, Json::Str(t@))],
        )),
        KnowledgeSource::File(_) => r.path@ == "/v1/convai/knowledge-base/file"@ && r.doc_type@ == "file"@
            && r.body is None,
    }
}

/// The call that creates the document from `src`, named `name`.
pub fn create_document(src: &KnowledgeSource, name: &str) -> (r: CreateDocument)
    ensures
        create_document_ok(*src, name@, r),
{
    match src {
        KnowledgeSource::Url(u) => {
            let mut m: Vec<(String, JsonValue)> = Vec::new();
            push_member(&mut m, "name", json_str(name));
            push_member(&mut m, "url", json_str(u.as_str()));
            proof {
                lemma_object_model(m);
                assert(members_model(m@) =~= seq![("name"@, Json::Str(name@)), ("url"@, Json::Str(u@))]);
            }
            CreateDocument { path: "/v1/convai/knowledge-base/url", doc_type: "url", body: Some(JsonValue::Object(m)) }
        },
        KnowledgeSource::Text(t) => {
            let mut m: Vec<(String, JsonValue)> = Vec::new();
            push_member(&mut m, "name", json_str(name));
            push_member(&mut m, "text", json_str(t.as_str()));
            proof {
                lemma_object_model(m);
                assert(members_model(m@) =~= seq![("name"@, Json::Str(name@)), ("text"@, Json::Str(t@))]);
            }
            CreateDocument { path: "/v1/convai/knowledge-base/text", doc_type: "text", body: Some(JsonValue::Object(m)) }
        },
        KnowledgeSource::File(_) => CreateDocument { path: "/v1/convai/knowledge-base/file", doc_type: "file", body: None },
    }
}

/// The largest character boundary of `bytes` at or before byte `n`.
pub open spec fn last_boundary(bytes: Seq<u8>, n: int) -> int
    decreases n,
{
    if n <= 0 {
        0
    } else if vstd::utf8::is_char_boundary(bytes, n) {
        n
    } else {
        last_boundary(bytes, n - 1)
    }
}

/// `s`'s byte length fits in `usize`, as any in-memory text's does.
pub open spec fn in_memory(s: &str) -> bool {
    s.spec_bytes().len() <= usize::MAX
}

/// `red` is `s` shortened for display: `s` itself when it has at most 400
/// bytes, else its longest prefix of at most 400 bytes that ends on a
/// character boundary, followed by `…`.
pub open spec fn redacted(s: &str, red: Seq<char>) -> bool {
    &&& s.spec_bytes().len() <= 400 ==> red == s@
    &&& s.spec_bytes().len() > 400 ==> red.len() > 0 && red.last() == '…' && encode_utf8(red.drop_last())
        == s.spec_bytes().take(last_boundary(s.spec_bytes(), 400))
}

/// Shortens a serialized response for an error message: texts over 400
/// bytes are cut at the last character boundary at or before byte 400 and
/// end with `…`.
pub fn redact(s: &str) -> (r: String)
    requires
        in_memory(s),
    ensures
        redacted(s, r@),
{
    if s.len() > 400 {
        let ghost bytes = s.spec_bytes();
        proof {
            vstd::utf8::encode_utf8_valid_utf8(s@);
        }
        let mut cut: usize = 400;
        while cut > 0 && !s.is_char_boundary(cut)
            invariant
                bytes == s.spec_bytes(),
                vstd::utf8::valid_utf8(bytes),
                bytes.len() > 400,
                0 <= cut <= 400,
                last_boundary(bytes, cut as int) == last_boundary(bytes, 400),
            decreases cut,
        {
            cut = cut - 1;
        }
        proof {
            assert(vstd::utf8::is_char_boundary(bytes, cut as int));
            assert(last_boundary(bytes, cut as int) == cut);
        }
        let (head, _tail) = s.split_at(cut);
        let r = cat(head, "…");
        proof {
            reveal_strlit("…");
            assert("…"@.len() == 1);
            assert("…"@[0] == '…');
            assert(r@.drop_last() =~= head@);
            assert(r@.last() == '…');
            assert(head.spec_bytes() =~= bytes.take(cut as int));
            assert(encode_utf8(r@.drop_last()) == head.spec_bytes());
        }
        r
    } else {
        String::from_str(s)
    }
}

pub open spec fn missing_id_message(redacted: Seq<char>) -> Seq<char> {
    "KB document response missing 'id' field; raw response: "@ + redacted
}

/// The created document's id and name: the response's `id` (required) and
/// its `name`, or the requested name when the response has none. `doc_text`
/// is the response serialized, quoted (shortened) when the id is missing.
pub fn document_identity(doc: &JsonValue, doc_text: &str, requested_name: &str) -> (r: Result<(String, String), AppError>)
    requires
        in_memory(doc_text),
    ensures
        match str_field(*doc, "id"@) {
            Some(id) => r matches Ok((i, n)) && i@ == id && n@ == (match str_field(*doc, "name"@) {
                Some(x) => x,
                None => requested_name@,
            }),
            None => r matches Err(AppError::Api { status, message }) && status == 200 && message@.take(
                missing_id_message(Seq::empty()).len() as int,
            ) == missing_id_message(Seq::empty()) && redacted(
                doc_text,
                message@.skip(missing_id_message(Seq::empty()).len() as int),
            ),
        },
{
    let id = match doc.get_str("id") {
        Some(i) => String::from_str(i),
        None => {
            let red = redact(doc_text);
            let message = cat("KB document response missing 'id' field; raw response: ", red.as_str());
            proof {
                let pre = "KB document response missing 'id' field; raw response: "@;
                assert(missing_id_message(Seq::empty()) =~= pre);
                assert(message@.take(pre.len() as int) =~= pre);
                assert(message@.skip(pre.len() as int) =~= red@);
            }
            return Err(AppError::Api { status: 200, message });
        },
    };
    let name = match doc.get_str("name") {
        Some(n) => String::from_str(n),
        None => String::from_str(requested_name),
    };
    Ok((id, name))
}

/// The retry hint appended when a step after document creation fails.
pub open spec fn retry_hint_text(doc_id: Seq<char>, stage: Seq<char>) -> Seq<char> {
    " — KB doc '"@ + doc_id + "' was created but "@ + stage
        + " failed; retry with: elevenlabs agents update <agent_id> --patch <json containing conversation_config.agent.prompt.knowledge_base entry with id '"@
        + doc_id + "'>"@
}

/// Adds the freshly created document's id to the error so that only the
/// attach step needs retrying.
pub fn retry_hint(err: AppError, doc_id: &str, stage: &str) -> (r: AppError)
    ensures
        appended(err, r, retry_hint_text(doc_id@, stage@)),
{
    let a = cat(cat(cat(" — KB doc '", doc_id).as_str(), "' was created but ").as_str(), stage);
    let b = cat(
        a.as_str(),
        " failed; retry with: elevenlabs agents update <agent_id> --patch <json containing conversation_config.agent.prompt.knowledge_base entry with id '",
    );
    let hint = cat(cat(b.as_str(), doc_id).as_str(), "'>");
    append_to_message(err, hint.as_str())
}

/// `j.conversation_config.agent.prompt.knowledge_base` when it is an array.
pub open spec fn current_knowledge_base(j: Json) -> Seq<Json> {
    match json_get(j, "conversation_config"@) {
        Some(c) => match json_get(c, "agent"@) {
            Some(a) => match json_get(a, "prompt"@) {
                Some(p) => match json_get(p, "knowledge_base"@) {
                    Some(Json::Arr(xs)) => xs,
                    _ => Seq::empty(),
                },
                None => Seq::empty(),
            },
            None => Seq::empty(),
        },
        None => Seq::empty(),
    }
}

pub open spec fn kb_entry_model(doc_id: Seq<char>, doc_type: Seq<char>, doc_name: Seq<char>) -> Json {
    Json::Obj(
        seq![
            ("id"@, Json::Str(doc_id)),
            ("type"@, Json::Str(doc_type)),
            ("name"@, Json::Str(doc_name)),
            ("usage_mode"@, Json::Str("auto"@)),
        ],
    )
}

/// `{"conversation_config": {"agent": {"prompt": {"knowledge_base": kb}}}}`.
pub open spec fn kb_patch_model(kb: Seq<Json>) -> Json {
    Json::Obj(
        seq![
            (
                "conversation_config"@,
                Json::Obj(
                    seq![("agent"@, Json::Obj(seq![("prompt"@, Json::Obj(seq![("knowledge_base"@, Json::Arr(kb))]))]))],
                ),
            ),
        ],
    )
}

fn single(k: &str, v: JsonValue) -> (r: JsonValue)
    ensures
        r.model() == Json::Obj(seq![(k@, v.model())]),
{
    let mut m: Vec<(String, JsonValue)> = Vec::new();
    push_member(&mut m, k, v);
    proof {
        lemma_object_model(m);
        assert(members_model(m@) =~= seq![(k@, v.model())]);
    }
    JsonValue::Object(m)
}

fn knowledge_base_of(current: JsonValue) -> (r: Vec<JsonValue>)
    ensures
        items_model(r@) == current_knowledge_base(current.model()),
{
    let empty: Vec<JsonValue> = Vec::new();
    proof {
        assert(items_model(empty@) =~= Seq::<Json>::empty());
    }
    let c = match into_field(current, "conversation_config") {
        Some(c) => c,
        None => return empty,
    };
    let a = match into_field(c, "agent") {
        Some(a) => a,
        None => return empty,
    };
    let p = match into_field(a, "prompt") {
        Some(p) => p,
        None => return empty,
    };
    match into_field(p, "knowledge_base") {
        Some(JsonValue::Array(xs)) => {
            proof {
                lemma_array_model(xs);
            }
            xs
        },
        _ => empty,
    }
}

/// The PATCH body that attaches the new document: the agent's current
/// knowledge-base list (empty when it has none) followed by the new entry
/// `{id, type, name, usage_mode: "auto"}`.
pub fn knowledge_patch(current: JsonValue, doc_id: &str, doc_type: &str, doc_name: &str) -> (r: JsonValue)
    ensures
        r.model() == kb_patch_model(
            current_knowledge_base(current.model()).push(kb_entry_model(doc_id@, doc_type@, doc_name@)),
        ),
{
    let mut kb = knowledge_base_of(current);
    let mut e: Vec<(String, JsonValue)> = Vec::new();
    push_member(&mut e, "id", json_str(doc_id));
    push_member(&mut e, "type", json_str(doc_type));
    push_member(&mut e, "name", json_str(doc_name));
    push_member(&mut e, "usage_mode", json_str("auto"));
    proof {
        lemma_object_model(e);
        assert(members_model(e@) =~= kb_entry_model(doc_id@, doc_type@, doc_name@)->Obj_0);
    }
    push_item(&mut kb, JsonValue::Object(e));
    proof {
        lemma_array_model(kb);
    }
    let prompt = single("knowledge_base", JsonValue::Array(kb));
    let agent = single("prompt", prompt);
    let cc = single("agent", agent);
    single("conversation_config", cc)
}

/// `j.conversation_config.agent.prompt.knowledge_base`, read key by key.
pub open spec fn kb_at(j: Json) -> Option<Json> {
    json_at(json_at(json_at(json_get(j, "conversation_config"@), "agent"@), "prompt"@), "knowledge_base"@)
}

/// Attaching a document keeps the agent's knowledge base: the PATCH body's
/// `conversation_config.agent.prompt.knowledge_base` is the agent's current
/// list (when it has one), every entry in order, followed by exactly one
/// new entry that names the document by id, type and name, in `auto` mode.
pub proof fn lemma_patch_keeps_knowledge_base(current: Json, doc_id: Seq<char>, doc_type: Seq<char>, doc_name: Seq<char>)
    ensures
        ({
            let r = kb_patch_model(current_knowledge_base(current).push(kb_entry_model(doc_id, doc_type, doc_name)));
            &&& kb_at(r) matches Some(Json::Arr(xs))
            &&& kb_at(r) matches Some(Json::Arr(xs)) ==> match kb_at(current) {
                Some(Json::Arr(c)) => xs.len() == c.len() + 1 && xs.take(c.len() as int) == c,
                _ => xs.len() == 1,
            }
            &&& kb_at(r) matches Some(Json::Arr(xs)) ==> {
                &&& json_get(xs.last(), "id"@) == Some(Json::Str(doc_id))
                &&& json_get(xs.last(), "type"@) == Some(Json::Str(doc_type))
                &&& json_get(xs.last(), "name"@) == Some(Json::Str(doc_name))
                &&& json_get(xs.last(), "usage_mode"@) == Some(Json::Str("auto"@))
            }
        }),
{
    reveal_with_fuel(crate::json::obj_get, 5);
    reveal_strlit("id");
    reveal_strlit("type");
    reveal_strlit("name");
    reveal_strlit("usage_mode");
    reveal_strlit("conversation_config");
    reveal_strlit("agent");
    reveal_strlit("prompt");
    reveal_strlit("knowledge_base");
    assert("type"@[0] != "name"@[0]);
    let cur = current_knowledge_base(current);
    let xs = cur.push(kb_entry_model(doc_id, doc_type, doc_name));
    assert(kb_at(kb_patch_model(xs)) == Some(Json::Arr(xs)));
    assert(xs.take(cur.len() as int) =~= cur);
    assert(cur == (match kb_at(current) {
        Some(Json::Arr(c)) => c,
        _ => Seq::<Json>::empty(),
    }));
    let e = kb_entry_model(doc_id, doc_type, doc_name);
    assert(xs.last() == e);
    assert(json_get(e, "id"@) == Some(Json::Str(doc_id)));
    assert(json_get(e, "type"@) == Some(Json::Str(doc_type)));
    assert(json_get(e, "name"@) == Some(Json::Str(doc_name)));
    let m = e->Obj_0;
    assert(m.drop_first() =~= seq![m[1], m[2], m[3]]);
    assert(m.drop_first().drop_first() =~= seq![m[2], m[3]]);
    assert(m.drop_first().drop_first().drop_first() =~= seq![m[3]]);
    crate::json::lemma_obj_get_one(m[3], "usage_mode"@);
    let k = "usage_mode"@;
    assert(k.len() == 10);
    assert(m[0].0 != k && m[1].0 != k && m[2].0 != k);
    assert(m[3] == ("usage_mode"@, Json::Str("auto"@)));
    assert(crate::json::obj_get(m.drop_first().drop_first().drop_first(), k) == Some(Json::Str("auto"@)));
    assert(crate::json::obj_get(m.drop_first().drop_first(), k) == Some(Json::Str("auto"@)));
    assert(crate::json::obj_get(m.drop_first(), k) == Some(Json::Str("auto"@)));
    assert(crate::json::obj_get(m, k) == Some(Json::Str("auto"@)));
    assert(json_get(e, "usage_mode"@) == Some(Json::Str("auto"@)));
}

/// What `agents add-knowledge` reports.
pub open spec fn knowledge_result_model(agent_id: Seq<char>, name: Seq<char>, doc: Json, doc_id: Seq<char>, agent: Json) -> Json {
    Json::Obj(
        seq![
            ("agent_id"@, Json::Str(agent_id)),
            ("name"@, Json::Str(name)),
            ("document"@, doc),
            ("doc_id"@, Json::Str(doc_id)),
            ("attached"@, Json::Bool(true)),
            ("agent"@, agent),
        ],
    )
}

/// The success result: the agent, the document's name, the created
/// document, its id, and the updated agent.
pub fn knowledge_result(agent_id: &str, name: &str, doc: JsonValue, doc_id: &str, updated: JsonValue) -> (r: JsonValue)
    ensures
        r.model() == knowledge_result_model(agent_id@, name@, doc.model(), doc_id@, updated.model()),
{
    let mut m: Vec<(String, JsonValue)> = Vec::new();
    push_member(&mut m, "agent_id", json_str(agent_id));
    push_member(&mut m, "name", json_str(name));
    push_member(&mut m, "document", doc);
    push_member(&mut m, "doc_id", json_str(doc_id));
    push_member(&mut m, "attached", JsonValue::Bool(true));
    push_member(&mut m, "agent", updated);
    proof {
        lemma_object_model(m);
        assert(members_model(m@) =~= knowledge_result_model(agent_id@, name@, doc.model(), doc_id@, updated.model())->Obj_0);
    }
    JsonValue::Object(m)
}

/// The step after reading the agent: the PATCH body that attaches the new
/// document, or, when the read failed, its error with the retry hint for
/// the `fetch agent` stage.
pub fn attach_step(fetched: Result<JsonValue, AppError>, doc_id: &str, doc_type: &str, doc_name: &str) -> (r: Result<JsonValue, AppError>)
    ensures
        match fetched {
            Ok(cur) => r matches Ok(p) && p.model() == kb_patch_model(
                current_knowledge_base(cur.model()).push(kb_entry_model(doc_id@, doc_type@, doc_name@)),
            ),
            Err(e) => r matches Err(e2) && appended(e, e2, retry_hint_text(doc_id@, "fetch agent"@)),
        },
{
    match fetched {
        Ok(cur) => Ok(knowledge_patch(cur, doc_id, doc_type, doc_name)),
        Err(e) => Err(retry_hint(e, doc_id, "fetch agent")),
    }
}

/// The step after the PATCH: the success result, or, when the PATCH failed,
/// its error with the retry hint for the `attach to agent` stage.
pub fn finish_step(
    patched: Result<JsonValue, AppError>,
    agent_id: &str,
    name: &str,
    doc: JsonValue,
    doc_id: &str,
) -> (r: Result<JsonValue, AppError>)
    ensures
        match patched {
            Ok(u) => r matches Ok(v) && v.model() == knowledge_result_model(agent_id@, name@, doc.model(), doc_id@, u.model()),
            Err(e) => r matches Err(e2) && appended(e, e2, retry_hint_text(doc_id@, "attach to agent"@)),
        },
{
    match patched {
        Ok(u) => Ok(knowledge_result(agent_id, name, doc, doc_id, u)),
        Err(e) => Err(retry_hint(e, doc_id, "attach to agent")),
    }
}

} // verus!
