use elevenlabs_cli::error::AppError;
use elevenlabs_cli::json::JsonValue;
use elevenlabs_cli::json::{int_of, is_i64_text, text_of};
use elevenlabs_cli::phone::{
    batch_items, batch_list_query, batch_row, next_cursor, call_body, call_result, check_dynamic_variables, dynamic_variables_file_missing,
    dynamic_variables_source, outbound_call_path, phone_provider, val_kind, whatsapp_call_body, whatsapp_call_result,
    whatsapp_message_body, whatsapp_message_result, DynamicVariablesSource, MAX_PAGE_SIZE,
};
use serde_json::Value;

fn to_serde(v: &JsonValue) -> Value {
    match v {
        JsonValue::Null => Value::Null,
        JsonValue::Bool(b) => Value::Bool(*b),
        JsonValue::Number(n) => serde_json::from_str(n).unwrap(),
        JsonValue::Str(s) => Value::String(s.clone()),
        JsonValue::Array(a) => Value::Array(a.iter().map(to_serde).collect()),
        JsonValue::Object(m) => {
            let mut o = serde_json::Map::new();
            for (k, x) in m {
                o.insert(k.clone(), to_serde(x));
            }
            Value::Object(o)
        }
    }
}

fn from_serde(v: &Value) -> JsonValue {
    match v {
        Value::Null => JsonValue::Null,
        Value::Bool(b) => JsonValue::Bool(*b),
        Value::Number(n) => JsonValue::Number(n.to_string()),
        Value::String(s) => JsonValue::Str(s.clone()),
        Value::Array(a) => JsonValue::Array(a.iter().map(from_serde).collect()),
        Value::Object(m) => JsonValue::Object(m.iter().map(|(k, x)| (k.clone(), from_serde(x))).collect()),
    }
}

fn j(s: &str) -> Value {
    serde_json::from_str(s).unwrap()
}

fn pairs(v: &[(&str, &str)]) -> Vec<(String, String)> {
    v.iter().map(|(a, b)| (a.to_string(), b.to_string())).collect()
}

#[test]
fn provider_lookup_in_array_or_object() {
    let list = from_serde(&j(r#"[{"phone_number_id":"p1","provider":"Twilio"},{"phone_number_id":"p2","provider":"sip_trunk"}]"#));
    assert_eq!(phone_provider(&list, "p1"), "twilio");
    assert_eq!(phone_provider(&list, "p2"), "sip_trunk");
    assert_eq!(phone_provider(&list, "p3"), "");
    let obj = from_serde(&j(r#"{"phone_numbers":[{"phone_number_id":"p9","provider":"SIP_TRUNK"}]}"#));
    assert_eq!(phone_provider(&obj, "p9"), "sip_trunk");
    assert_eq!(phone_provider(&from_serde(&j(r#"{"x":1}"#)), "p9"), "");
    let no_provider = from_serde(&j(r#"[{"phone_number_id":"p1"}]"#));
    assert_eq!(phone_provider(&no_provider, "p1"), "");
}

#[test]
fn call_paths_by_provider() {
    assert_eq!(outbound_call_path("twilio", "p").unwrap(), "/v1/convai/twilio/outbound-call");
    assert_eq!(outbound_call_path("sip_trunk", "p").unwrap(), "/v1/convai/sip-trunk/outbound-call");
    match outbound_call_path("", "p7") {
        Err(AppError::InvalidInput { msg, suggestion: None }) => {
            assert_eq!(msg, "phone number p7 not found in your account")
        }
        other => panic!("unexpected {other:?}"),
    }
    match outbound_call_path("vonage", "p7") {
        Err(AppError::InvalidInput { msg, suggestion: None }) => assert_eq!(msg, "unsupported phone provider: vonage"),
        other => panic!("unexpected {other:?}"),
    }
}

#[test]
fn call_body_with_and_without_variables() {
    let b = call_body("ag", "p1", "+100", None);
    assert_eq!(to_serde(&b), j(r#"{"agent_id":"ag","agent_phone_number_id":"p1","to_number":"+100"}"#));
    let b = call_body("ag", "p1", "+100", Some(from_serde(&j(r#"{"name":"Alex"}"#))));
    assert_eq!(
        to_serde(&b),
        j(r#"{"agent_id":"ag","agent_phone_number_id":"p1","to_number":"+100",
              "conversation_initiation_client_data":{"dynamic_variables":{"name":"Alex"}}}"#)
    );
}

#[test]
fn dynamic_variables_file_or_literal() {
    assert!(matches!(dynamic_variables_source("@vars.json"), DynamicVariablesSource::File(p) if p == "vars.json"));
    assert!(matches!(dynamic_variables_source("{\"a\":1}"), DynamicVariablesSource::Literal(t) if t == "{\"a\":1}"));
    assert!(matches!(dynamic_variables_source(""), DynamicVariablesSource::Literal(t) if t.is_empty()));
}

#[test]
fn dynamic_variables_missing_file_error() {
    match dynamic_variables_file_missing("v.json") {
        AppError::InvalidInput { msg, suggestion: Some(s) } => {
            assert_eq!(msg, "dynamic-variables file does not exist: v.json");
            assert_eq!(
                s,
                "Either drop the leading `@` to pass a literal JSON string, or point at an existing file: --dynamic-variables @v.json"
            );
        }
        other => panic!("unexpected {other:?}"),
    }
}

#[test]
fn value_kinds() {
    assert_eq!(val_kind(&JsonValue::Null), "null");
    assert_eq!(val_kind(&JsonValue::Bool(true)), "bool");
    assert_eq!(val_kind(&JsonValue::Number("1".into())), "number");
    assert_eq!(val_kind(&JsonValue::Str("s".into())), "string");
    assert_eq!(val_kind(&JsonValue::Array(vec![])), "array");
    assert_eq!(val_kind(&JsonValue::Object(vec![])), "object");
}

#[test]
fn dynamic_variables_must_be_object() {
    let ok = check_dynamic_variables(Ok(from_serde(&j(r#"{"name":"Alex"}"#)))).unwrap();
    assert_eq!(to_serde(&ok), j(r#"{"name":"Alex"}"#));
    match check_dynamic_variables(Ok(from_serde(&j("[1,2]")))) {
        Err(AppError::InvalidInput { msg, suggestion: Some(s) }) => {
            assert_eq!(msg, "--dynamic-variables must be a JSON object (got array)");
            assert_eq!(
                s,
                "Dynamic variables interpolate {{key}} placeholders in the agent prompt, so the top level must be an object: --dynamic-variables '{\"name\":\"Alex\",\"plan\":\"pro\"}'"
            );
        }
        other => panic!("unexpected {other:?}"),
    }
    match check_dynamic_variables(Err("expected value at line 1 column 1".into())) {
        Err(AppError::InvalidInput { msg, suggestion: Some(s) }) => {
            assert_eq!(msg, "--dynamic-variables is not valid JSON: expected value at line 1 column 1");
            assert!(s.starts_with("Pass a JSON object like --dynamic-variables"));
        }
        other => panic!("unexpected {other:?}"),
    }
}

#[test]
fn call_result_shape() {
    let r = call_result("twilio", "ag", "p1", "+1", from_serde(&j(r#"{"ok":true}"#)));
    assert_eq!(
        to_serde(&r),
        j(r#"{"provider":"twilio","agent_id":"ag","from_phone_number_id":"p1","to":"+1","response":{"ok":true}}"#)
    );
}

#[test]
fn whatsapp_message_needs_exactly_one_of_text_or_template() {
    match whatsapp_message_body("a", "w", "r", Some("t".into()), Some("tpl".into())) {
        Err(AppError::InvalidInput { msg, .. }) => assert_eq!(msg, "pass only one of --text or --template, not both"),
        other => panic!("unexpected {other:?}"),
    }
    match whatsapp_message_body("a", "w", "r", None, None) {
        Err(AppError::InvalidInput { msg, .. }) => assert_eq!(msg, "either --text <str> or --template <name> is required"),
        other => panic!("unexpected {other:?}"),
    }
    let b = whatsapp_message_body("a", "w", "r", Some("hello".into()), None).unwrap();
    assert_eq!(
        to_serde(&b),
        j(r#"{"agent_id":"a","whatsapp_account_id":"w","recipient_phone_number":"r","text":"hello"}"#)
    );
    let b = whatsapp_message_body("a", "w", "r", None, Some("welcome".into())).unwrap();
    assert_eq!(
        to_serde(&b),
        j(r#"{"agent_id":"a","whatsapp_account_id":"w","recipient_phone_number":"r","template_name":"welcome"}"#)
    );
}

#[test]
fn whatsapp_results_and_call_body() {
    let r = whatsapp_message_result("+1", JsonValue::Null);
    assert_eq!(to_serde(&r), j(r#"{"recipient":"+1","response":null}"#));
    let b = whatsapp_call_body("a", "w", "r");
    assert_eq!(to_serde(&b), j(r#"{"agent_id":"a","whatsapp_account_id":"w","recipient_phone_number":"r"}"#));
    let r = whatsapp_call_result("a", "w", "r", JsonValue::Bool(true));
    let v = to_serde(&r);
    assert_eq!(v["response"], Value::Bool(true));
}

#[test]
fn batch_list_query_caps_page_size() {
    assert_eq!(MAX_PAGE_SIZE, 100);
    assert_eq!(batch_list_query(Some(500), None, None, None), pairs(&[("page_size", "100")]));
    assert_eq!(batch_list_query(Some(20), None, None, None), pairs(&[("page_size", "20")]));
    assert_eq!(
        batch_list_query(None, Some("c1".into()), Some("done".into()), Some("ag".into())),
        pairs(&[("cursor", "c1"), ("status", "done"), ("agent_id", "ag")])
    );
    assert!(batch_list_query(None, None, None, None).is_empty());
}

#[test]
fn batch_items_from_listing() {
    let v = from_serde(&j(r#"{"batch_calls":[{"id":"b1"}]}"#));
    assert_eq!(batch_items(&v).map(|a| a.len()), Some(1));
    let v = from_serde(&j(r#"{"batches":[{"id":"b1"},{"id":"b2"}]}"#));
    assert_eq!(batch_items(&v).map(|a| a.len()), Some(2));
    let v = from_serde(&j(r#"[{"id":"b1"}]"#));
    assert_eq!(batch_items(&v).map(|a| a.len()), Some(1));
    assert!(batch_items(&from_serde(&j(r#"{"x":1}"#))).is_none());
}

#[test]
fn i64_number_text() {
    assert!(is_i64_text("0"));
    assert!(is_i64_text("42"));
    assert!(is_i64_text("-7"));
    assert!(is_i64_text("9223372036854775807"));
    assert!(!is_i64_text("9223372036854775808"));
    assert!(is_i64_text("-9223372036854775808"));
    assert!(!is_i64_text("-9223372036854775809"));
    assert!(!is_i64_text("1.5"));
    assert!(!is_i64_text("1e5"));
    assert!(!is_i64_text("-"));
    assert!(!is_i64_text(""));
    assert!(!is_i64_text("18446744073709551615"));
}

#[test]
fn display_text_of_values() {
    let s = JsonValue::Str("x".into());
    assert_eq!(text_of(Some(&s)), "x");
    assert_eq!(text_of(Some(&JsonValue::Null)), "");
    assert_eq!(text_of(None), "");
    assert_eq!(int_of(Some(&JsonValue::Number("12".into()))), "12");
    assert_eq!(int_of(Some(&JsonValue::Number("12.5".into()))), "");
    assert_eq!(int_of(Some(&s)), "");
    assert_eq!(int_of(None), "");
}

#[test]
fn batch_row_cells_with_fallbacks() {
    let b = from_serde(&j(r#"{"batch_id":"b1","name":"N","status":"done","agent_id":"ag","total":5,"total_calls_completed":3,"created_at_unix":1700000000}"#));
    assert_eq!(batch_row(&b), vec!["b1", "N", "done", "ag", "5", "3", "1700000000"]);
    let b = from_serde(&j(r#"{"id":7,"batch_id":"b2","total_calls_dispatched":1.5}"#));
    assert_eq!(batch_row(&b), vec!["", "", "", "", "", "", ""]);
}

#[test]
fn next_cursor_only_when_non_empty() {
    assert_eq!(next_cursor(&from_serde(&j(r#"{"next_cursor":"c2"}"#))).as_deref(), Some("c2"));
    assert_eq!(next_cursor(&from_serde(&j(r#"{"next_cursor":""}"#))), None);
    assert_eq!(next_cursor(&from_serde(&j(r#"{"next_cursor":null}"#))), None);
    assert_eq!(next_cursor(&JsonValue::Null), None);
}

#[test]
fn unknown_or_providerless_number_is_refused() {
    let list = from_serde(&j(r#"[{"phone_number_id":"p1","provider":""},{"phone_number_id":"p2"}]"#));
    for id in ["p1", "p2", "nope"] {
        let prov = phone_provider(&list, id);
        assert_eq!(prov, "");
        match outbound_call_path(&prov, id) {
            Err(AppError::InvalidInput { msg, suggestion: None }) => {
                assert_eq!(msg, format!("phone number {id} not found in your account"))
            }
            other => panic!("unexpected {other:?}"),
        }
    }
}
