use base64::Engine;
use elevenlabs_cli::audio::{
    decode_chunks, decode_timestamp_audio, split_ndjson, strip_audio_chunks, strip_audio_field,
    strip_audio_from_response,
};
use elevenlabs_cli::dialogue::endpoint_for;
use elevenlabs_cli::error::AppError;
use elevenlabs_cli::json::JsonValue;
use elevenlabs_cli::output::success_envelope;
use serde_json::Value;

fn to_serde(v: &JsonValue) -> Value {
    match v {
        JsonValue::Null => Value::Null,
        JsonValue::Bool(b) => Value::Bool(*b),
        JsonValue::Number(n) => serde_json::from_str(n).unwrap(),
        JsonValue::Str(s) => Value::String(s.clone()),
        JsonValue::Array(a) => Value::Array(a.iter().map(to_serde).collect()),
        JsonValue::Object(m) => {
            let mut o = serde_json::Map::new();
            for (k, x) in m {
                o.insert(k.clone(), to_serde(x));
            }
            Value::Object(o)
        }
    }
}

fn from_serde(v: &Value) -> JsonValue {
    match v {
        Value::Null => JsonValue::Null,
        Value::Bool(b) => JsonValue::Bool(*b),
        Value::Number(n) => JsonValue::Number(n.to_string()),
        Value::String(s) => JsonValue::Str(s.clone()),
        Value::Array(a) => JsonValue::Array(a.iter().map(from_serde).collect()),
        Value::Object(m) => JsonValue::Object(m.iter().map(|(k, x)| (k.clone(), from_serde(x))).collect()),
    }
}

fn j(s: &str) -> Value {
    serde_json::from_str(s).unwrap()
}

fn b64(bytes: &[u8]) -> String {
    base64::engine::general_purpose::STANDARD.encode(bytes)
}

fn ndjson_body(with_timestamps: bool) -> Vec<u8> {
    let mut s = String::new();
    for (i, p) in [&b"CHUNK1"[..], &b"CHUNK2_LONGER"[..], &b"END"[..]].iter().enumerate() {
        if with_timestamps {
            s.push_str(&format!(
                r#"{{"audio_base64":"{}","alignment":{{"chars":["c"],"char_start_times_ms":[{}],"char_durations_ms":[10]}}}}"#,
                b64(p),
                i * 10
            ));
        } else {
            s.push_str(&format!(r#"{{"audio_base64":"{}"}}"#, b64(p)));
        }
        s.push('\n');
    }
    s.into_bytes()
}

fn parse_records(body: &[u8]) -> Vec<JsonValue> {
    split_ndjson(body)
        .iter()
        .map(|l| from_serde(&serde_json::from_slice::<Value>(l).unwrap()))
        .collect()
}

fn expected_audio() -> Vec<u8> {
    let mut e = Vec::new();
    e.extend_from_slice(b"CHUNK1");
    e.extend_from_slice(b"CHUNK2_LONGER");
    e.extend_from_slice(b"END");
    e
}

#[test]
fn stream_ndjson_decodes_audio_chunks() {
    let records = parse_records(&ndjson_body(false));
    assert_eq!(records.len(), 3);
    let audio = decode_chunks(&records).unwrap();
    assert_eq!(audio, expected_audio());
    let (_, label) = endpoint_for(true, false);
    let data = JsonValue::Object(vec![
        ("endpoint".into(), JsonValue::Str(label.into())),
        ("bytes_written".into(), JsonValue::Number(audio.len().to_string())),
    ]);
    let env = to_serde(&success_envelope(data));
    assert_eq!(env["status"], "success");
    assert_eq!(env["data"]["endpoint"], "stream");
    assert_eq!(env["data"]["bytes_written"], expected_audio().len());
}

#[test]
fn stream_with_timestamps_ndjson_writes_alignment_jsonl() {
    let records = parse_records(&ndjson_body(true));
    let audio = decode_chunks(&records).unwrap();
    assert_eq!(audio, expected_audio());
    let stripped = strip_audio_chunks(records);
    assert_eq!(stripped.len(), 3);
    for line in &stripped {
        let v = to_serde(line);
        assert!(v.get("audio_base64").is_none());
        assert!(v.get("alignment").is_some());
    }
}

#[test]
fn split_ndjson_skips_blank_lines() {
    let lines = split_ndjson(b"{\"a\":1}\r\n\n  \n{\"b\":2}");
    assert_eq!(lines, vec![b"{\"a\":1}\r".to_vec(), b"{\"b\":2}".to_vec()]);
    assert!(split_ndjson(b"").is_empty());
    assert!(split_ndjson(b"\n\n").is_empty());
}

#[test]
fn decode_chunks_reports_missing_audio() {
    let chunks = vec![from_serde(&j(&format!(r#"{{"audio_base64":"{}"}}"#, b64(b"ok")))), from_serde(&j(r#"{"x":1}"#))];
    match decode_chunks(&chunks) {
        Err(AppError::Http(m)) => assert_eq!(m, "dialogue response chunk[1] missing audio_base64"),
        other => panic!("unexpected {other:?}"),
    }
}

#[test]
fn decode_chunks_reports_bad_base64() {
    let chunks = vec![from_serde(&j(r#"{"audio_base64":"!!!not base64"}"#))];
    match decode_chunks(&chunks) {
        Err(AppError::Http(m)) => assert!(m.starts_with("decode chunk[0] audio base64: "), "{m}"),
        other => panic!("unexpected {other:?}"),
    }
}

#[test]
fn timestamp_audio_from_top_level_or_chunks() {
    let one = from_serde(&j(&format!(r#"{{"audio_base64":"{}","alignment":{{}}}}"#, b64(b"hello"))));
    assert_eq!(decode_timestamp_audio(&one).unwrap(), b"hello".to_vec());
    let chunked = from_serde(&j(&format!(
        r#"{{"chunks":[{{"audio_base64":"{}"}},{{"audio_base64":"{}"}}]}}"#,
        b64(b"ab"),
        b64(b"cd")
    )));
    assert_eq!(decode_timestamp_audio(&chunked).unwrap(), b"abcd".to_vec());
}

#[test]
fn timestamp_audio_errors() {
    match decode_timestamp_audio(&from_serde(&j(r#"{"alignment":{}}"#))) {
        Err(AppError::Http(m)) => assert_eq!(
            m,
            "dialogue with-timestamps response had no audio payload (expected `audio_base64` or `chunks[]`)"
        ),
        other => panic!("unexpected {other:?}"),
    }
    match decode_timestamp_audio(&from_serde(&j(r#"{"audio_base64":"@@@"}"#))) {
        Err(AppError::Http(m)) => assert!(m.starts_with("decode audio base64: "), "{m}"),
        other => panic!("unexpected {other:?}"),
    }
}

#[test]
fn strip_removes_top_level_and_chunk_audio() {
    let resp = from_serde(&j(
        r#"{"audio_base64":"AAAA","alignment":{"chars":["a"]},"chunks":[{"audio_base64":"BB","alignment":1},{"x":2}]}"#,
    ));
    let s = strip_audio_from_response(resp);
    assert_eq!(to_serde(&s), j(r#"{"alignment":{"chars":["a"]},"chunks":[{"alignment":1},{"x":2}]}"#));
}

#[test]
fn strip_audio_field_leaves_non_objects() {
    assert_eq!(to_serde(&strip_audio_field(JsonValue::Null)), Value::Null);
    let v = strip_audio_field(from_serde(&j(r#"{"audio_base64":"x","k":1}"#)));
    assert_eq!(to_serde(&v), j(r#"{"k":1}"#));
}

#[test]
fn stripping_twice_is_stripping_once() {
    let resp = from_serde(&j(r#"{"audio_base64":"A","alignment":{"c":1},"chunks":[{"audio_base64":"B","x":2}]}"#));
    let once = strip_audio_from_response(resp);
    let once_v = to_serde(&once);
    let twice = strip_audio_from_response(once);
    assert_eq!(to_serde(&twice), once_v);
}
