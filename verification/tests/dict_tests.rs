use elevenlabs_cli::dict::{add_rules_body, collect_rules, parse_alias_rule, parse_rule, split_once_colon};
use elevenlabs_cli::error::AppError;
use elevenlabs_cli::json::JsonValue;
use serde_json::Value;

fn to_serde(v: &JsonValue) -> Value {
    match v {
        JsonValue::Null => Value::Null,
        JsonValue::Bool(b) => Value::Bool(*b),
        JsonValue::Number(n) => serde_json::from_str(n).unwrap(),
        JsonValue::Str(s) => Value::String(s.clone()),
        JsonValue::Array(a) => Value::Array(a.iter().map(to_serde).collect()),
        JsonValue::Object(m) => {
            let mut o = serde_json::Map::new();
            for (k, x) in m {
                o.insert(k.clone(), to_serde(x));
            }
            Value::Object(o)
        }
    }
}

fn j(s: &str) -> Value {
    serde_json::from_str(s).unwrap()
}

fn bad_input_msg<T: std::fmt::Debug>(r: Result<T, AppError>) -> String {
    match r {
        Err(AppError::InvalidInput { msg, suggestion: None }) => msg,
        other => panic!("expected bad input, got {other:?}"),
    }
}

fn strings(v: &[&str]) -> Vec<String> {
    v.iter().map(|s| s.to_string()).collect()
}

#[test]
fn phoneme_rule_body() {
    let r = parse_rule(" tomato : təˈmɑːtoʊ ").unwrap();
    assert_eq!(
        to_serde(&r),
        j(r#"{"string_to_replace":"tomato","type":"phoneme","phoneme":"təˈmɑːtoʊ","alphabet":"ipa"}"#)
    );
}

#[test]
fn phoneme_with_colons_survives() {
    let r = parse_rule("word:a:b:c").unwrap();
    assert_eq!(r.get_str("phoneme"), Some("a:b:c"));
    assert_eq!(r.get_str("string_to_replace"), Some("word"));
}

#[test]
fn alias_rule_body() {
    let r = parse_alias_rule("SCUBA:scoo-buh").unwrap();
    assert_eq!(to_serde(&r), j(r#"{"string_to_replace":"SCUBA","type":"alias","alias":"scoo-buh"}"#));
}

#[test]
fn rule_without_colon() {
    assert_eq!(
        bad_input_msg(parse_rule("tomato")),
        "--rule must be WORD:PHONEME (got 'tomato'). Example: --rule tomato:təˈmɑːtoʊ"
    );
    assert_eq!(
        bad_input_msg(parse_alias_rule("scuba")),
        "--alias-rule must be WORD:ALIAS (got 'scuba'). Example: --alias-rule SCUBA:scoo-buh"
    );
}

#[test]
fn rule_with_empty_sides() {
    assert_eq!(bad_input_msg(parse_rule("  :x")), "--rule missing WORD before ':' (got '  :x')");
    assert_eq!(bad_input_msg(parse_rule("w: ")), "--rule missing PHONEME after ':' (got 'w: ')");
    assert_eq!(bad_input_msg(parse_alias_rule(":x")), "--alias-rule missing WORD before ':' (got ':x')");
    assert_eq!(bad_input_msg(parse_alias_rule("w:")), "--alias-rule missing ALIAS after ':' (got 'w:')");
}

#[test]
fn collect_rules_orders_phonemes_then_aliases() {
    let out = collect_rules(strings(&["a:x", "b:y"]), strings(&["C:see"])).unwrap();
    assert_eq!(out.len(), 3);
    assert_eq!(out[0].get_str("string_to_replace"), Some("a"));
    assert_eq!(out[1].get_str("phoneme"), Some("y"));
    assert_eq!(out[2].get_str("type"), Some("alias"));
    assert_eq!(out[2].get_str("alias"), Some("see"));
}

#[test]
fn collect_rules_needs_at_least_one() {
    match collect_rules(vec![], vec![]) {
        Err(AppError::InvalidInput { msg, suggestion: Some(s) }) => {
            assert_eq!(msg, "at least one --rule WORD:PHONEME or --alias-rule WORD:ALIAS is required");
            assert_eq!(
                s,
                "elevenlabs dict add-rules NAME --rule word:phoneme  (repeat --rule or --alias-rule as needed)"
            );
        }
        other => panic!("unexpected {other:?}"),
    }
}

#[test]
fn collect_rules_reports_first_bad_value() {
    assert_eq!(
        bad_input_msg(collect_rules(strings(&["a:x", "bad", "also bad"]), strings(&["c:d"]))),
        "--rule must be WORD:PHONEME (got 'bad'). Example: --rule tomato:təˈmɑːtoʊ"
    );
    assert_eq!(
        bad_input_msg(collect_rules(strings(&["a:x"]), strings(&["c:"]))),
        "--alias-rule missing ALIAS after ':' (got 'c:')"
    );
}

#[test]
fn split_once_colon_first_only() {
    assert_eq!(split_once_colon("a:b:c"), Some(("a", "b:c")));
    assert_eq!(split_once_colon("abc"), None);
}

#[test]
fn add_rules_body_shape() {
    let rules = collect_rules(strings(&["tomato:təˈmɑːtoʊ"]), vec![]).unwrap();
    let b = add_rules_body("Dict", rules, &Some("desc".into()), &None);
    assert_eq!(
        to_serde(&b),
        j(r#"{"name":"Dict","rules":[{"string_to_replace":"tomato","type":"phoneme","phoneme":"təˈmɑːtoʊ","alphabet":"ipa"}],"description":"desc"}"#)
    );
    let b = add_rules_body("D", vec![], &None, &Some("admin".into()));
    assert_eq!(to_serde(&b), j(r#"{"name":"D","rules":[],"workspace_access":"admin"}"#));
}
