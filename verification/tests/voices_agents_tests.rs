use elevenlabs_cli::agents::{agent_path, create_agent_body, delete_agent_result, delete_needs_confirmation, CreateAgentArgs};
use elevenlabs_cli::config::AppConfig;
use elevenlabs_cli::error::AppError;
use elevenlabs_cli::json::JsonValue;
use elevenlabs_cli::voices::{pick_voice_id, similar_form_fields, similar_row, voice_search_query, SimilarArgs};
use serde_json::Value;

fn to_serde(v: &JsonValue) -> Value {
    match v {
        JsonValue::Null => Value::Null,
        JsonValue::Bool(b) => Value::Bool(*b),
        JsonValue::Number(n) => serde_json::from_str(n).unwrap(),
        JsonValue::Str(s) => Value::String(s.clone()),
        JsonValue::Array(a) => Value::Array(a.iter().map(to_serde).collect()),
        JsonValue::Object(m) => {
            let mut o = serde_json::Map::new();
            for (k, x) in m {
                o.insert(k.clone(), to_serde(x));
            }
            Value::Object(o)
        }
    }
}

fn from_serde(v: &Value) -> JsonValue {
    match v {
        Value::Null => JsonValue::Null,
        Value::Bool(b) => JsonValue::Bool(*b),
        Value::Number(n) => JsonValue::Number(n.to_string()),
        Value::String(s) => JsonValue::Str(s.clone()),
        Value::Array(a) => JsonValue::Array(a.iter().map(from_serde).collect()),
        Value::Object(m) => JsonValue::Object(m.iter().map(|(k, x)| (k.clone(), from_serde(x))).collect()),
    }
}

fn j(s: &str) -> Value {
    serde_json::from_str(s).unwrap()
}

fn voices() -> JsonValue {
    from_serde(&j(r#"{"voices":[
        {"name":"Rachel Longname","voice_id":"v_sub"},
        {"name":"Rach","voice_id":"v_prefix"},
        {"name":"RACHEL","voice_id":"v_exact"},
        {"name":"Bob","voice_id":"v_bob"}
    ]}"#))
}

#[test]
fn exact_match_wins_case_insensitively() {
    assert_eq!(pick_voice_id(&voices(), "rachel").unwrap(), "v_exact");
}

#[test]
fn prefix_match_beats_substring() {
    let vs = from_serde(&j(r#"{"voices":[{"name":"My Bobby","voice_id":"v_sub"},{"name":"Bobby","voice_id":"v_pre"}]}"#));
    assert_eq!(pick_voice_id(&vs, "bob").unwrap(), "v_pre");
}

#[test]
fn substring_match_used_last() {
    let vs = from_serde(&j(r#"{"voices":[{"name":"Old Alice","voice_id":"v_a"},{"name":"Zed","voice_id":"v_z"}]}"#));
    assert_eq!(pick_voice_id(&vs, "ALICE").unwrap(), "v_a");
}

#[test]
fn no_match_is_an_error_not_the_first_voice() {
    match pick_voice_id(&voices(), "zzz") {
        Err(AppError::InvalidInput { msg, suggestion: None }) => {
            assert_eq!(msg, "no voice in your library matches 'zzz'. List voices with: elevenlabs voices list")
        }
        other => panic!("unexpected {other:?}"),
    }
    assert!(pick_voice_id(&from_serde(&j(r#"{"x":1}"#)), "a").is_err());
}

#[test]
fn voice_search_request() {
    let (path, q) = voice_search_query("Rachel");
    assert_eq!(path, "/v2/voices");
    assert_eq!(q, vec![("search".to_string(), "Rachel".to_string())]);
}

fn agent_args(voice: Option<&str>) -> CreateAgentArgs {
    CreateAgentArgs {
        name: "Support".into(),
        system_prompt: "Be kind".into(),
        first_message: None,
        voice_id: voice.map(|s| s.to_string()),
        language: "en".into(),
        llm: "gemini-2.0-flash-001".into(),
        temperature: "0.5".into(),
        model_id: "eleven_turbo_v2".into(),
    }
}

#[test]
fn agent_body_full_scaffold() {
    let b = create_agent_body(&agent_args(Some("v1")), &AppConfig::default());
    let expected = j(r##"{
      "name": "Support",
      "conversation_config": {
        "agent": {
          "language": "en",
          "prompt": {
            "prompt": "Be kind",
            "llm": "gemini-2.0-flash-001",
            "tools": [{"type": "system", "name": "end_call", "description": ""}],
            "knowledge_base": [],
            "temperature": 0.5
          },
          "first_message": null,
          "dynamic_variables": { "dynamic_variable_placeholders": {} }
        },
        "asr": {
          "quality": "high",
          "provider": "elevenlabs",
          "user_input_audio_format": "pcm_16000",
          "keywords": []
        },
        "tts": {
          "voice_id": "v1",
          "model_id": "eleven_turbo_v2",
          "agent_output_audio_format": "pcm_16000",
          "optimize_streaming_latency": 3,
          "stability": 0.5,
          "similarity_boost": 0.8
        },
        "turn": { "turn_timeout": 7, "turn_model": "turn_v2", "disable_first_message_interruptions": true },
        "conversation": {
          "max_duration_seconds": 300,
          "client_events": ["audio", "interruption", "user_transcript", "agent_response", "agent_response_correction"]
        },
        "language_presets": {},
        "is_blocked_ivc": false,
        "is_blocked_non_ivc": false
      },
      "platform_settings": {
        "widget": {
          "variant": "full",
          "avatar": { "type": "orb", "color_1": "#6DB035", "color_2": "#F5CABB" },
          "feedback_mode": "during"
        },
        "evaluation": {},
        "auth": { "allowlist": [] },
        "overrides": {},
        "call_limits": { "agent_concurrency_limit": -1, "daily_limit": 100000 },
        "privacy": {
          "record_voice": true,
          "retention_days": 730,
          "delete_transcript_and_pii": true,
          "delete_audio": true,
          "apply_to_existing_conversations": false
        },
        "data_collection": {}
      }
    }"##);
    assert_eq!(to_serde(&b), expected);
}

#[test]
fn agent_body_defaults_voice_and_keeps_first_message() {
    let mut a = agent_args(None);
    a.first_message = Some("Hello!".into());
    let b = to_serde(&create_agent_body(&a, &AppConfig::default()));
    assert_eq!(b["conversation_config"]["tts"]["voice_id"], "cgSgspJ2msm6clMCkdW9");
    assert_eq!(b["conversation_config"]["agent"]["first_message"], "Hello!");
}

#[test]
fn agent_paths_and_delete_result() {
    assert_eq!(agent_path("ag_1"), "/v1/convai/agents/ag_1");
    assert_eq!(to_serde(&delete_agent_result("ag_1")), j(r#"{"agent_id":"ag_1","deleted":true}"#));
}

#[test]
fn similar_voice_form_fields() {
    let a = SimilarArgs {
        audio_file: "x.mp3".into(),
        similarity_threshold: Some("0.5".into()),
        top_k: Some(5),
        gender: Some("female".into()),
        age: None,
        accent: Some("british".into()),
        language: None,
        use_case: Some("narration".into()),
    };
    let got = similar_form_fields(&a);
    let want: Vec<(String, String)> = [
        ("similarity_threshold", "0.5"),
        ("top_k", "5"),
        ("gender", "female"),
        ("accent", "british"),
        ("use_case", "narration"),
    ]
    .iter()
    .map(|(k, v)| (k.to_string(), v.to_string()))
    .collect();
    assert_eq!(got, want);
    let empty = SimilarArgs {
        audio_file: "x.mp3".into(),
        similarity_threshold: None,
        top_k: None,
        gender: None,
        age: None,
        accent: None,
        language: None,
        use_case: None,
    };
    assert!(similar_form_fields(&empty).is_empty());
}

#[test]
fn agent_delete_needs_yes() {
    assert!(delete_needs_confirmation("ag_1", true).is_ok());
    match delete_needs_confirmation("ag_1", false) {
        Err(AppError::InvalidInput { msg, suggestion: Some(s) }) => {
            assert_eq!(msg, "refusing to delete agent ag_1 without --yes (deletion is irreversible)");
            assert_eq!(s, "elevenlabs agents delete ag_1 --yes");
        }
        other => panic!("unexpected {other:?}"),
    }
}

#[test]
fn similar_row_cuts_description_at_sixty_chars() {
    let long = "é".repeat(70);
    let v = from_serde(&j(&format!(r#"{{"voice_id":"v1","name":"Ann","description":"{long}"}}"#)));
    let row = similar_row(&v);
    assert_eq!(row[0], "v1");
    assert_eq!(row[1], "Ann");
    assert_eq!(row[2], "");
    assert_eq!(row[3], "é".repeat(60));
    let short = similar_row(&from_serde(&j(r#"{"description":"short","category":"premade"}"#)));
    assert_eq!(short, vec!["", "", "premade", "short"]);
}
