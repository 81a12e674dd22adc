use elevenlabs_cli::config::AppConfig;
use elevenlabs_cli::dialogue::{
    alignment_path, build_body, check_dialogue, choose_input_source, endpoint_for, looks_like_json_file,
    parse_json_inputs, parse_triples, plan_request, response_shape, DialogueArgs, DialogueInput, DialogueResult,
    InputSource, ResponseShape, MAX_TOTAL_CHARS, MAX_UNIQUE_VOICES,
};
use elevenlabs_cli::error::AppError;
use elevenlabs_cli::json::JsonValue;
use serde_json::Value;

fn to_serde(v: &JsonValue) -> Value {
    match v {
        JsonValue::Null => Value::Null,
        JsonValue::Bool(b) => Value::Bool(*b),
        JsonValue::Number(n) => serde_json::from_str(n).unwrap(),
        JsonValue::Str(s) => Value::String(s.clone()),
        JsonValue::Array(a) => Value::Array(a.iter().map(to_serde).collect()),
        JsonValue::Object(m) => {
            let mut o = serde_json::Map::new();
            for (k, x) in m {
                o.insert(k.clone(), to_serde(x));
            }
            Value::Object(o)
        }
    }
}

fn from_serde(v: &Value) -> JsonValue {
    match v {
        Value::Null => JsonValue::Null,
        Value::Bool(b) => JsonValue::Bool(*b),
        Value::Number(n) => JsonValue::Number(n.to_string()),
        Value::String(s) => JsonValue::Str(s.clone()),
        Value::Array(a) => JsonValue::Array(a.iter().map(from_serde).collect()),
        Value::Object(m) => JsonValue::Object(m.iter().map(|(k, x)| (k.clone(), from_serde(x))).collect()),
    }
}

fn j(s: &str) -> Value {
    serde_json::from_str(s).unwrap()
}

fn bad_input_msg<T: std::fmt::Debug>(r: Result<T, AppError>) -> String {
    match r {
        Err(AppError::InvalidInput { msg, suggestion: None }) => msg,
        other => panic!("expected bad input, got {other:?}"),
    }
}

fn strings(v: &[&str]) -> Vec<String> {
    v.iter().map(|s| s.to_string()).collect()
}

fn input(text: &str, voice: &str) -> DialogueInput {
    DialogueInput { text: text.to_string(), voice_id: voice.to_string(), label: None }
}

fn args() -> DialogueArgs {
    DialogueArgs {
        positional: vec![],
        input: None,
        output: None,
        model: None,
        format: None,
        stream: false,
        with_timestamps: false,
        save_timestamps: None,
        stdout: false,
        seed: None,
        stability: None,
        similarity: None,
        style: None,
        speaker_boost: None,
        language: None,
        apply_text_normalization: None,
        optimize_streaming_latency: None,
        no_logging: false,
    }
}

#[test]
fn endpoints_for_each_flag_combination() {
    assert_eq!(endpoint_for(false, false), ("/v1/text-to-dialogue", "convert"));
    assert_eq!(endpoint_for(true, false), ("/v1/text-to-dialogue/stream", "stream"));
    assert_eq!(endpoint_for(false, true), ("/v1/text-to-dialogue/with-timestamps", "with-timestamps"));
    assert_eq!(
        endpoint_for(true, true),
        ("/v1/text-to-dialogue/stream/with-timestamps", "stream+with-timestamps")
    );
}

#[test]
fn response_shapes() {
    assert_eq!(response_shape(false, false), ResponseShape::RawAudio);
    assert_eq!(response_shape(true, false), ResponseShape::NdjsonAudio);
    assert_eq!(response_shape(false, true), ResponseShape::TimestampsJson);
    assert_eq!(response_shape(true, true), ResponseShape::NdjsonTimestamps);
}

#[test]
fn triples_parse_label_voice_and_text() {
    let out = parse_triples(&strings(&[" Alice : v_alice :Hi there", "Bob:v_bob:time is 10:30"])).unwrap();
    assert_eq!(out.len(), 2);
    assert_eq!(out[0].label.as_deref(), Some("Alice"));
    assert_eq!(out[0].voice_id, "v_alice");
    assert_eq!(out[0].text, "Hi there");
    assert_eq!(out[1].text, "time is 10:30");
}

#[test]
fn malformed_triple_reports_its_index() {
    let msg = bad_input_msg(parse_triples(&strings(&["A:v:ok", "no-colons"])));
    assert_eq!(
        msg,
        "dialogue positional[1] 'no-colons' must be `label:voice_id:text`. If this is a JSON file, ensure the path ends in `.json` and exists, or pass it via --input."
    );
    let msg = bad_input_msg(parse_triples(&strings(&["A:v:   "])));
    assert!(msg.starts_with("dialogue positional[0] 'A:v:   '"));
    let msg = bad_input_msg(parse_triples(&strings(&[":v:text"])));
    assert!(msg.starts_with("dialogue positional[0]"));
}

#[test]
fn json_file_detection() {
    assert!(looks_like_json_file("inputs.json", true));
    assert!(looks_like_json_file("dir/INPUTS.JSON", true));
    assert!(!looks_like_json_file("inputs.json", false));
    assert!(!looks_like_json_file("Alice:v:hi", true));
    assert!(!looks_like_json_file("notes.txt", true));
}

#[test]
fn input_source_choice() {
    assert!(matches!(choose_input_source(&Some("-".into()), &vec![], false), Ok(InputSource::Stdin)));
    assert!(matches!(choose_input_source(&Some("f.json".into()), &vec![], false), Ok(InputSource::File(f)) if f == "f.json"));
    assert!(matches!(choose_input_source(&None, &strings(&["x.json"]), true), Ok(InputSource::File(f)) if f == "x.json"));
    assert!(matches!(choose_input_source(&None, &strings(&["-"]), false), Ok(InputSource::Stdin)));
    assert!(matches!(choose_input_source(&None, &strings(&["A:v:t"]), false), Ok(InputSource::Triples)));
    assert!(matches!(choose_input_source(&None, &strings(&["a", "b"]), true), Ok(InputSource::Triples)));
    let msg = bad_input_msg(choose_input_source(&None, &vec![], false));
    assert_eq!(
        msg,
        "dialogue requires either --input <json_file>, `--input -` for stdin, or one or more `label:voice_id:text` positional triples"
    );
}

#[test]
fn json_inputs_accept_array_and_inputs_object() {
    let a = parse_json_inputs(Ok(from_serde(&j(r#"[{"text":"Hi","voice_id":"v1","label":"A"}]"#)))).unwrap();
    assert_eq!(a.len(), 1);
    assert_eq!(a[0].text, "Hi");
    assert_eq!(a[0].voice_id, "v1");
    assert_eq!(a[0].label.as_deref(), Some("A"));
    let b = parse_json_inputs(Ok(from_serde(&j(r#"{"inputs":[{"text":"x","voice_id":"v"},{"text":"y","voice_id":"w"}]}"#))))
        .unwrap();
    assert_eq!(b.len(), 2);
    assert_eq!(b[1].voice_id, "w");
    assert_eq!(b[1].label, None);
}

#[test]
fn json_inputs_errors() {
    assert_eq!(
        bad_input_msg(parse_json_inputs(Err("EOF while parsing".into()))),
        "dialogue input is not valid JSON: EOF while parsing"
    );
    assert_eq!(
        bad_input_msg(parse_json_inputs(Ok(from_serde(&j(r#"{"x":1}"#))))),
        "dialogue JSON must be either an array of {text, voice_id} objects or an object with an `inputs` array"
    );
    assert_eq!(
        bad_input_msg(parse_json_inputs(Ok(from_serde(&j(r#"[{"text":"a","voice_id":"v"},{"voice_id":"v"}]"#))))),
        "dialogue input[1] missing string `text`"
    );
    assert_eq!(
        bad_input_msg(parse_json_inputs(Ok(from_serde(&j(r#"[{"text":"a"}]"#))))),
        "dialogue input[0] missing string `voice_id`"
    );
    assert_eq!(
        bad_input_msg(parse_json_inputs(Ok(from_serde(&j(r#"[{"text":"  ","voice_id":"v"}]"#))))),
        "dialogue input[0] has empty `text`"
    );
    assert_eq!(
        bad_input_msg(parse_json_inputs(Ok(from_serde(&j(r#"[{"text":"a","voice_id":" "}]"#))))),
        "dialogue input[0] has empty `voice_id`"
    );
}

#[test]
fn limits_constants() {
    assert_eq!(MAX_UNIQUE_VOICES, 10);
    assert_eq!(MAX_TOTAL_CHARS, 2000);
}

#[test]
fn check_dialogue_counts() {
    let st = check_dialogue(&vec![input("héllo", "a"), input("bye", "b"), input("x", "a")]).unwrap();
    assert_eq!(st.inputs, 3);
    assert_eq!(st.unique_voices, 2);
    assert_eq!(st.characters, 9);
}

#[test]
fn check_dialogue_refuses_empty() {
    let msg = bad_input_msg(check_dialogue(&vec![]));
    assert_eq!(msg, "dialogue has no inputs — provide a JSON file or label:voice_id:text triples");
}

#[test]
fn check_dialogue_refuses_eleven_voices() {
    let ins: Vec<DialogueInput> = (0..11).map(|i| input("t", &format!("v{i}"))).collect();
    let msg = bad_input_msg(check_dialogue(&ins));
    assert_eq!(
        msg,
        "dialogue has 11 distinct voice IDs; the API accepts at most 10. Group lines by voice or drop speakers."
    );
    let ten: Vec<DialogueInput> = (0..10).map(|i| input("t", &format!("v{i}"))).collect();
    assert_eq!(check_dialogue(&ten).unwrap().unique_voices, 10);
}

#[test]
fn check_dialogue_refuses_too_many_chars() {
    let ok = vec![input(&"a".repeat(2000), "v")];
    assert_eq!(check_dialogue(&ok).unwrap().characters, 2000);
    let long = vec![input(&"a".repeat(1000), "v"), input(&"b".repeat(1001), "w")];
    let msg = bad_input_msg(check_dialogue(&long));
    assert_eq!(msg, "dialogue is 2001 chars; the API accepts ~2000. Split into multiple calls.");
}

#[test]
fn body_has_inputs_model_and_given_settings() {
    let mut a = args();
    a.stability = Some("0.5".into());
    a.speaker_boost = Some(true);
    a.seed = Some(42);
    a.language = Some("en".into());
    a.apply_text_normalization = Some("auto".into());
    let mut ins = vec![input("Hi", "v1")];
    ins[0].label = Some("A".into());
    let body = build_body(&a, &ins, "eleven_v3");
    assert_eq!(
        to_serde(&body),
        j(r#"{"inputs":[{"text":"Hi","voice_id":"v1"}],"model_id":"eleven_v3",
              "settings":{"stability":0.5,"use_speaker_boost":true},
              "seed":42,"apply_text_normalization":"auto","language_code":"en"}"#)
    );
}

#[test]
fn body_without_options_has_no_settings() {
    let body = build_body(&args(), &vec![input("Hi", "v1")], "m");
    assert_eq!(to_serde(&body), j(r#"{"inputs":[{"text":"Hi","voice_id":"v1"}],"model_id":"m"}"#));
}

#[test]
fn plan_request_defaults_and_query() {
    let mut a = args();
    a.stream = true;
    a.no_logging = true;
    a.optimize_streaming_latency = Some(3);
    let req = plan_request(&a, &vec![input("Hi", "v1")], &AppConfig::default());
    assert_eq!(req.path, "/v1/text-to-dialogue/stream");
    assert_eq!(req.endpoint_label, "stream");
    assert_eq!(req.model_id, "eleven_v3");
    assert_eq!(req.output_format, "mp3_44100_128");
    assert_eq!(
        req.query,
        vec![
            ("output_format".to_string(), "mp3_44100_128".to_string()),
            ("enable_logging".to_string(), "false".to_string()),
            ("optimize_streaming_latency".to_string(), "3".to_string()),
        ]
    );
    assert_eq!(req.body.get_str("model_id"), Some("eleven_v3"));
}

#[test]
fn plan_request_flags_override_config() {
    let mut a = args();
    a.model = Some("m2".into());
    a.format = Some("pcm_16000".into());
    let mut cfg = AppConfig::default();
    cfg.defaults.output_format = Some("opus".into());
    let req = plan_request(&a, &vec![input("Hi", "v1")], &cfg);
    assert_eq!(req.model_id, "m2");
    assert_eq!(req.output_format, "pcm_16000");
    assert_eq!(req.query, vec![("output_format".to_string(), "pcm_16000".to_string())]);
    let req = plan_request(&args(), &vec![input("Hi", "v1")], &cfg);
    assert_eq!(req.output_format, "opus");
}

#[test]
fn alignment_path_default_and_explicit() {
    assert_eq!(alignment_path(&None, "out.mp3"), "out.mp3.timings.json");
    assert_eq!(alignment_path(&Some("t.jsonl".into()), "out.mp3"), "t.jsonl");
}

#[test]
fn dialogue_result_json() {
    let r = DialogueResult {
        endpoint: "stream".into(),
        model_id: "eleven_v3".into(),
        inputs: 1,
        unique_voices: 1,
        characters: 2,
        output_format: "mp3_44100_128".into(),
        output_path: Some("d.mp3".into()),
        alignment_path: None,
        bytes_written: 22,
    };
    assert_eq!(
        to_serde(&r.to_json()),
        j(r#"{"endpoint":"stream","model_id":"eleven_v3","inputs":1,"unique_voices":1,"characters":2,
              "output_format":"mp3_44100_128","output_path":"d.mp3","alignment_path":null,"bytes_written":22}"#)
    );
}
