use elevenlabs_cli::error::AppError;
use elevenlabs_cli::json::JsonValue;
use elevenlabs_cli::knowledge::{
    attach_step, choose_source, create_document, document_identity, finish_step, knowledge_patch, knowledge_result,
    redact, retry_hint,
    KnowledgeSource,
};
use serde_json::Value;

fn to_serde(v: &JsonValue) -> Value {
    match v {
        JsonValue::Null => Value::Null,
        JsonValue::Bool(b) => Value::Bool(*b),
        JsonValue::Number(n) => serde_json::from_str(n).unwrap(),
        JsonValue::Str(s) => Value::String(s.clone()),
        JsonValue::Array(a) => Value::Array(a.iter().map(to_serde).collect()),
        JsonValue::Object(m) => {
            let mut o = serde_json::Map::new();
            for (k, x) in m {
                o.insert(k.clone(), to_serde(x));
            }
            Value::Object(o)
        }
    }
}

fn from_serde(v: &Value) -> JsonValue {
    match v {
        Value::Null => JsonValue::Null,
        Value::Bool(b) => JsonValue::Bool(*b),
        Value::Number(n) => JsonValue::Number(n.to_string()),
        Value::String(s) => JsonValue::Str(s.clone()),
        Value::Array(a) => JsonValue::Array(a.iter().map(from_serde).collect()),
        Value::Object(m) => JsonValue::Object(m.iter().map(|(k, x)| (k.clone(), from_serde(x))).collect()),
    }
}

fn j(s: &str) -> Value {
    serde_json::from_str(s).unwrap()
}

fn bad_input_msg<T: std::fmt::Debug>(r: Result<T, AppError>) -> String {
    match r {
        Err(AppError::InvalidInput { msg, suggestion: None }) => msg,
        other => panic!("expected bad input, got {other:?}"),
    }
}

#[test]
fn exactly_one_source_required() {
    assert_eq!(bad_input_msg(choose_source(None, None, None)), "provide one of --url, --file, or --text");
    assert_eq!(
        bad_input_msg(choose_source(Some("u".into()), None, Some("t".into()))),
        "provide only one of --url, --file, or --text"
    );
    assert!(matches!(choose_source(Some("u".into()), None, None), Ok(KnowledgeSource::Url(u)) if u == "u"));
    assert!(matches!(choose_source(None, Some("f".into()), None), Ok(KnowledgeSource::File(f)) if f == "f"));
    assert!(matches!(choose_source(None, None, Some("t".into())), Ok(KnowledgeSource::Text(t)) if t == "t"));
}

#[test]
fn document_creation_calls() {
    let d = create_document(&KnowledgeSource::Url("https://x".into()), "Doc");
    assert_eq!(d.path, "/v1/convai/knowledge-base/url");
    assert_eq!(d.doc_type, "url");
    assert_eq!(to_serde(d.body.as_ref().unwrap()), j(r#"{"name":"Doc","url":"https://x"}"#));
    let d = create_document(&KnowledgeSource::Text("hello".into()), "Doc");
    assert_eq!(d.path, "/v1/convai/knowledge-base/text");
    assert_eq!(d.doc_type, "text");
    assert_eq!(to_serde(d.body.as_ref().unwrap()), j(r#"{"name":"Doc","text":"hello"}"#));
    let d = create_document(&KnowledgeSource::File("a.pdf".into()), "Doc");
    assert_eq!(d.path, "/v1/convai/knowledge-base/file");
    assert_eq!(d.doc_type, "file");
    assert!(d.body.is_none());
}

#[test]
fn redact_short_and_long() {
    assert_eq!(redact("short"), "short");
    let exact = "x".repeat(400);
    assert_eq!(redact(&exact), exact);
    let long = "y".repeat(401);
    assert_eq!(redact(&long), format!("{}…", "y".repeat(400)));
}

#[test]
fn identity_prefers_response_values() {
    let doc = from_serde(&j(r#"{"id":"doc_1","name":"Server Name"}"#));
    assert_eq!(document_identity(&doc, "", "Requested").unwrap(), ("doc_1".to_string(), "Server Name".to_string()));
    let doc = from_serde(&j(r#"{"id":"doc_2"}"#));
    assert_eq!(document_identity(&doc, "", "Requested").unwrap(), ("doc_2".to_string(), "Requested".to_string()));
}

#[test]
fn identity_without_id_is_api_error() {
    let doc = from_serde(&j(r#"{"name":"n"}"#));
    match document_identity(&doc, r#"{"name":"n"}"#, "Requested") {
        Err(AppError::Api { status, message }) => {
            assert_eq!(status, 200);
            assert_eq!(message, r#"KB document response missing 'id' field; raw response: {"name":"n"}"#);
        }
        other => panic!("unexpected {other:?}"),
    }
}

#[test]
fn retry_hint_appends_doc_id() {
    let e = retry_hint(AppError::Api { status: 500, message: "boom".into() }, "doc_9", "attach to agent");
    match e {
        AppError::Api { status, message } => {
            assert_eq!(status, 500);
            assert_eq!(
                message,
                "boom — KB doc 'doc_9' was created but attach to agent failed; retry with: elevenlabs agents update <agent_id> --patch <json containing conversation_config.agent.prompt.knowledge_base entry with id 'doc_9'>"
            );
        }
        other => panic!("unexpected {other:?}"),
    }
    assert!(matches!(retry_hint(AppError::Io("disk".into()), "d", "s"), AppError::Io(m) if m == "disk"));
}

#[test]
fn patch_appends_to_existing_knowledge_base() {
    let current = from_serde(&j(
        r#"{"agent_id":"a","conversation_config":{"agent":{"prompt":{"knowledge_base":[{"id":"old"}],"llm":"x"}}}}"#,
    ));
    let p = knowledge_patch(current, "new", "url", "Doc");
    assert_eq!(
        to_serde(&p),
        j(r#"{"conversation_config":{"agent":{"prompt":{"knowledge_base":[
            {"id":"old"},{"id":"new","type":"url","name":"Doc","usage_mode":"auto"}]}}}}"#)
    );
}

#[test]
fn patch_starts_new_knowledge_base() {
    let p = knowledge_patch(from_serde(&j(r#"{"conversation_config":{}}"#)), "n", "text", "T");
    assert_eq!(
        to_serde(&p),
        j(r#"{"conversation_config":{"agent":{"prompt":{"knowledge_base":[
            {"id":"n","type":"text","name":"T","usage_mode":"auto"}]}}}}"#)
    );
}

#[test]
fn result_shape() {
    let r = knowledge_result("ag", "Doc", from_serde(&j(r#"{"id":"d"}"#)), "d", from_serde(&j(r#"{"ok":true}"#)));
    assert_eq!(
        to_serde(&r),
        j(r#"{"agent_id":"ag","name":"Doc","document":{"id":"d"},"doc_id":"d","attached":true,"agent":{"ok":true}}"#)
    );
}

#[test]
fn redact_cuts_at_a_character_boundary() {
    // 399 ASCII bytes then a two-byte character straddling byte 400.
    let s = format!("{}é{}", "a".repeat(399), "b".repeat(10));
    assert_eq!(redact(&s), format!("{}…", "a".repeat(399)));
    let t = "é".repeat(300);
    assert_eq!(redact(&t), format!("{}…", "é".repeat(200)));
}

#[test]
fn identity_without_id_shortens_non_ascii_response() {
    let doc = from_serde(&j(r#"{"name":"n"}"#));
    let text = format!("{{\"name\":\"{}\"}}", "€".repeat(200));
    match document_identity(&doc, &text, "R") {
        Err(AppError::Api { message, .. }) => {
            assert!(message.starts_with("KB document response missing 'id' field; raw response: "));
            assert!(message.ends_with('…'));
        }
        other => panic!("unexpected {other:?}"),
    }
}

#[test]
fn attach_and_finish_steps() {
    let p = attach_step(Ok(from_serde(&j(r#"{"x":1}"#))), "d1", "url", "Doc").unwrap();
    assert_eq!(
        to_serde(&p),
        j(r#"{"conversation_config":{"agent":{"prompt":{"knowledge_base":[{"id":"d1","type":"url","name":"Doc","usage_mode":"auto"}]}}}}"#)
    );
    match attach_step(Err(AppError::Http("down".into())), "d1", "url", "Doc") {
        Err(AppError::Http(m)) => assert!(m.starts_with("down — KB doc 'd1' was created but fetch agent failed")),
        other => panic!("unexpected {other:?}"),
    }
    let r = finish_step(Ok(JsonValue::Null), "ag", "Doc", JsonValue::Null, "d1").unwrap();
    assert_eq!(to_serde(&r)["attached"], true);
    match finish_step(Err(AppError::Transient("503".into())), "ag", "Doc", JsonValue::Null, "d1") {
        Err(AppError::Transient(m)) => assert!(m.starts_with("503 — KB doc 'd1' was created but attach to agent failed")),
        other => panic!("unexpected {other:?}"),
    }
}
