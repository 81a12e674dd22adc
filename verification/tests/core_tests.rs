use elevenlabs_cli::error::{append_to_message, error_for_status, AppError};
use elevenlabs_cli::json::{into_field, json_str, json_uint, member, push_item, push_member, remove_key, JsonValue};
use elevenlabs_cli::output::{exit_code, extension_for_format, mime_for_extension, resolve_output_path, success_envelope};
use elevenlabs_cli::text::{cat, contains, decimal_string, is_whitespace, split_once_char, starts_with, str_eq, trim_str};
use serde_json::Value;

fn to_serde(v: &JsonValue) -> Value {
    match v {
        JsonValue::Null => Value::Null,
        JsonValue::Bool(b) => Value::Bool(*b),
        JsonValue::Number(n) => serde_json::from_str(n).unwrap(),
        JsonValue::Str(s) => Value::String(s.clone()),
        JsonValue::Array(a) => Value::Array(a.iter().map(to_serde).collect()),
        JsonValue::Object(m) => {
            let mut o = serde_json::Map::new();
            for (k, x) in m {
                o.insert(k.clone(), to_serde(x));
            }
            Value::Object(o)
        }
    }
}

fn j(s: &str) -> Value {
    serde_json::from_str(s).unwrap()
}

fn keys(v: &JsonValue) -> Vec<String> {
    match v {
        JsonValue::Object(m) => m.iter().map(|(k, _)| k.clone()).collect(),
        _ => vec![],
    }
}

#[test]
fn trim_removes_surrounding_whitespace_only() {
    assert_eq!(trim_str("  a b \t\n"), "a b");
    assert_eq!(trim_str(""), "");
    assert_eq!(trim_str(" \t "), "");
    assert_eq!(trim_str("\u{3000}x\u{3000}"), "x");
}

#[test]
fn whitespace_classification() {
    assert!(is_whitespace(' '));
    assert!(is_whitespace('\n'));
    assert!(is_whitespace('\u{3000}'));
    assert!(!is_whitespace('a'));
    assert!(!is_whitespace(':'));
}

#[test]
fn split_once_char_splits_at_first() {
    assert_eq!(split_once_char("a:b:c", ':'), Some(("a", "b:c")));
    assert_eq!(split_once_char(":x", ':'), Some(("", "x")));
    assert_eq!(split_once_char("abc", ':'), None);
}

#[test]
fn decimal_text_of_integers() {
    assert_eq!(decimal_string(0), "0");
    assert_eq!(decimal_string(7), "7");
    assert_eq!(decimal_string(1234567890), "1234567890");
    assert_eq!(decimal_string(u64::MAX), "18446744073709551615");
}

#[test]
fn string_helpers() {
    assert_eq!(cat("ab", "cd"), "abcd");
    assert!(starts_with("hello", "he"));
    assert!(!starts_with("he", "hello"));
    assert!(contains("a/b", "/"));
    assert!(!contains("ab", "/"));
    assert!(str_eq("x", "x"));
    assert!(!str_eq("x", "y"));
}

#[test]
fn json_field_access() {
    let v = JsonValue::Object(vec![
        member("a", json_str("x")),
        member("n", json_uint(3)),
        member("arr", JsonValue::Array(vec![JsonValue::Null])),
    ]);
    assert!(matches!(v.get("a"), Some(JsonValue::Str(s)) if s == "x"));
    assert_eq!(v.get_str("a"), Some("x"));
    assert_eq!(v.get_str("n"), None);
    assert_eq!(v.get_array("arr").map(|a| a.len()), Some(1));
    assert!(v.get("missing").is_none());
    assert!(JsonValue::Null.get("a").is_none());
}

#[test]
fn json_uint_is_decimal_number() {
    assert!(matches!(json_uint(42), JsonValue::Number(n) if n == "42"));
}

#[test]
fn into_field_moves_value_out() {
    let v = JsonValue::Object(vec![member("a", json_str("x")), member("b", json_str("y"))]);
    let got = into_field(v, "b").unwrap();
    assert_eq!(to_serde(&got), j("\"y\""));
    assert!(into_field(JsonValue::Null, "b").is_none());
}

#[test]
fn remove_key_drops_every_copy() {
    let mut m = vec![member("a", json_str("1")), member("b", json_str("2")), member("a", json_str("3"))];
    remove_key(&mut m, "a");
    assert_eq!(m.len(), 1);
    assert_eq!(m[0].0, "b");
}

#[test]
fn push_helpers_append() {
    let mut m = Vec::new();
    push_member(&mut m, "k", JsonValue::Bool(true));
    assert_eq!(m.len(), 1);
    assert_eq!(m[0].0, "k");
    let mut a = Vec::new();
    push_item(&mut a, JsonValue::Null);
    assert_eq!(a.len(), 1);
}

#[test]
fn success_envelope_shape() {
    let e = success_envelope(JsonValue::Object(vec![member("x", json_uint(1))]));
    assert_eq!(keys(&e), vec!["version", "status", "data"]);
    assert_eq!(to_serde(&e), j(r#"{"version":"1","status":"success","data":{"x":1}}"#));
}

#[test]
fn exit_codes_by_class() {
    assert_eq!(exit_code(&AppError::Transient("x".into())), 1);
    assert_eq!(exit_code(&AppError::Http("x".into())), 1);
    assert_eq!(exit_code(&AppError::Io("x".into())), 1);
    assert_eq!(exit_code(&AppError::Api { status: 500, message: "x".into() }), 1);
    assert_eq!(exit_code(&AppError::AuthFailed("x".into())), 2);
    assert_eq!(exit_code(&AppError::Config("x".into())), 2);
    assert_eq!(exit_code(&AppError::bad_input("x".into())), 3);
    assert_eq!(exit_code(&AppError::RateLimited("x".into())), 4);
}

#[test]
fn append_to_message_keeps_class_and_status() {
    match append_to_message(AppError::Api { status: 404, message: "nope".into() }, "!") {
        AppError::Api { status, message } => {
            assert_eq!(status, 404);
            assert_eq!(message, "nope!");
        }
        e => panic!("wrong variant {e:?}"),
    }
    match append_to_message(AppError::bad_input_with("m".into(), "s".into()), "+h") {
        AppError::InvalidInput { msg, suggestion } => {
            assert_eq!(msg, "m+h");
            assert_eq!(suggestion.as_deref(), Some("s"));
        }
        e => panic!("wrong variant {e:?}"),
    }
    assert!(matches!(append_to_message(AppError::Http("a".into()), "b"), AppError::Http(m) if m == "ab"));
    assert!(matches!(append_to_message(AppError::Config("a".into()), "b"), AppError::Config(m) if m == "a"));
    assert!(matches!(append_to_message(AppError::Io("a".into()), "b"), AppError::Io(m) if m == "a"));
}

#[test]
fn extension_is_codec_prefix() {
    assert_eq!(extension_for_format("mp3_44100_128"), "mp3");
    assert_eq!(extension_for_format("pcm_16000"), "pcm");
    assert_eq!(extension_for_format("opus"), "opus");
}

#[test]
fn output_path_flag_or_generated_name() {
    assert_eq!(resolve_output_path(&Some("my.mp3".into()), "dialogue", "20240101", "mp3"), "my.mp3");
    assert_eq!(resolve_output_path(&None, "dialogue", "20240101-120000", "mp3"), "dialogue_20240101-120000.mp3");
}

#[test]
fn http_status_classes() {
    assert!(matches!(error_for_status(401, "k".into()), AppError::AuthFailed(m) if m == "k"));
    assert!(matches!(error_for_status(403, "k".into()), AppError::AuthFailed(_)));
    assert!(matches!(error_for_status(429, "slow".into()), AppError::RateLimited(m) if m == "slow"));
    assert!(matches!(error_for_status(503, "x".into()), AppError::Transient(_)));
    assert!(matches!(error_for_status(404, "nf".into()), AppError::Api { status: 404, message } if message == "nf"));
    assert_eq!(exit_code(&error_for_status(401, String::new())), 2);
    assert_eq!(exit_code(&error_for_status(422, String::new())), 1);
}

#[test]
fn mime_types_by_extension() {
    assert_eq!(mime_for_extension("mp3"), "audio/mpeg");
    assert_eq!(mime_for_extension("MP4"), "video/mp4");
    assert_eq!(mime_for_extension("Json"), "application/json");
    assert_eq!(mime_for_extension("xyz"), "application/octet-stream");
    assert_eq!(mime_for_extension(""), "application/octet-stream");
}
