use base64::Engine;
use elevenlabs_cli::cli::{DetailedArgs, StemSeparationArgs, UploadArgs, VideoToMusicArgs};
use elevenlabs_cli::config::AppConfig;
use elevenlabs_cli::error::AppError;
use elevenlabs_cli::json::JsonValue;
use elevenlabs_cli::music::{
    check_composition_plan, compose_body, compose_result, ComposeOptions, decode_stems, detailed_audio, detailed_metadata, detailed_result,
    file_does_not_exist, metadata_path, music_body, output_format_query, song_id_of, stem_file_name,
    stem_form_fields, stem_result, stem_source, stems_dir, upload_form_fields, upload_result, video_file_does_not_exist,
    video_form_fields, video_result, StemSource, WrittenStem,
};
use serde_json::Value;

fn to_serde(v: &JsonValue) -> Value {
    match v {
        JsonValue::Null => Value::Null,
        JsonValue::Bool(b) => Value::Bool(*b),
        JsonValue::Number(n) => serde_json::from_str(n).unwrap(),
        JsonValue::Str(s) => Value::String(s.clone()),
        JsonValue::Array(a) => Value::Array(a.iter().map(to_serde).collect()),
        JsonValue::Object(m) => {
            let mut o = serde_json::Map::new();
            for (k, x) in m {
                o.insert(k.clone(), to_serde(x));
            }
            Value::Object(o)
        }
    }
}

fn from_serde(v: &Value) -> JsonValue {
    match v {
        Value::Null => JsonValue::Null,
        Value::Bool(b) => JsonValue::Bool(*b),
        Value::Number(n) => JsonValue::Number(n.to_string()),
        Value::String(s) => JsonValue::Str(s.clone()),
        Value::Array(a) => JsonValue::Array(a.iter().map(from_serde).collect()),
        Value::Object(m) => JsonValue::Object(m.iter().map(|(k, x)| (k.clone(), from_serde(x))).collect()),
    }
}

fn j(s: &str) -> Value {
    serde_json::from_str(s).unwrap()
}

fn b64(bytes: &[u8]) -> String {
    base64::engine::general_purpose::STANDARD.encode(bytes)
}

fn pairs(v: &[(&str, &str)]) -> Vec<(String, String)> {
    v.iter().map(|(a, b)| (a.to_string(), b.to_string())).collect()
}

fn bad_input_msg<T: std::fmt::Debug>(r: Result<T, AppError>) -> String {
    match r {
        Err(AppError::InvalidInput { msg, suggestion: None }) => msg,
        other => panic!("expected bad input, got {other:?}"),
    }
}

fn stem_args(source: &str) -> StemSeparationArgs {
    StemSeparationArgs { source: source.to_string(), output_dir: None, stems: vec![] }
}

#[test]
fn music_body_prompt_and_length() {
    assert_eq!(to_serde(&music_body("lofi", Some(30000)).unwrap()), j(r#"{"prompt":"lofi","music_length_ms":30000}"#));
    assert_eq!(to_serde(&music_body(" lofi ", None).unwrap()), j(r#"{"prompt":" lofi "}"#));
    assert_eq!(bad_input_msg(music_body("   ", None)), "prompt is empty");
}

#[test]
fn output_format_from_flag_or_config() {
    let (f, q) = output_format_query(&None, &AppConfig::default());
    assert_eq!(f, "mp3_44100_128");
    assert_eq!(q, pairs(&[("output_format", "mp3_44100_128")]));
    let (f, q) = output_format_query(&Some("pcm_16000".into()), &AppConfig::default());
    assert_eq!(f, "pcm_16000");
    assert_eq!(q, pairs(&[("output_format", "pcm_16000")]));
}

#[test]
fn compose_result_shape() {
    let r = compose_result("p", None, "out.mp3", 12);
    assert_eq!(to_serde(&r), j(r#"{"prompt":"p","length_ms":null,"output":"out.mp3","bytes_written":12}"#));
    let r = compose_result("p", Some(5), "o", 0);
    assert_eq!(to_serde(&r)["length_ms"], 5);
}

#[test]
fn detailed_audio_field_choice() {
    let r = from_serde(&j(&format!(r#"{{"audio_base64":"{}","metadata":{{}}}}"#, b64(b"song"))));
    assert_eq!(detailed_audio(&r).unwrap(), b"song".to_vec());
    let r = from_serde(&j(&format!(r#"{{"audio":"{}"}}"#, b64(b"alt"))));
    assert_eq!(detailed_audio(&r).unwrap(), b"alt".to_vec());
    match detailed_audio(&from_serde(&j(r#"{"metadata":{}}"#))) {
        Err(AppError::Http(m)) => assert_eq!(m, "music/detailed response missing audio_base64 field"),
        other => panic!("unexpected {other:?}"),
    }
    match detailed_audio(&from_serde(&j(r#"{"audio_base64":"%%%"}"#))) {
        Err(AppError::Http(m)) => assert!(m.starts_with("decode audio base64: ")),
        other => panic!("unexpected {other:?}"),
    }
}

#[test]
fn detailed_metadata_drops_audio() {
    let m = detailed_metadata(from_serde(&j(r#"{"audio_base64":"x","audio":"y","metadata":{"bpm":90}}"#)));
    assert_eq!(to_serde(&m), j(r#"{"metadata":{"bpm":90}}"#));
}

#[test]
fn metadata_path_default_and_explicit() {
    assert_eq!(metadata_path(&None, "song.mp3"), "song.mp3.metadata.json");
    assert_eq!(metadata_path(&Some("m.json".into()), "song.mp3"), "m.json");
}

#[test]
fn stem_source_file_or_song_id() {
    assert!(matches!(stem_source(&stem_args(" song_123 "), false), Ok(StemSource::SongId(s)) if s == "song_123"));
    assert!(matches!(stem_source(&stem_args("track.mp3"), true), Ok(StemSource::File(s)) if s == "track.mp3"));
    assert!(matches!(stem_source(&stem_args("song.abc123"), false), Ok(StemSource::SongId(s)) if s == "song.abc123"));
    assert!(matches!(stem_source(&stem_args("dir\\track"), false), Ok(StemSource::File(s)) if s == "dir\\track"));
    assert!(matches!(stem_source(&stem_args("dir/track"), false), Ok(StemSource::File(s)) if s == "dir/track"));
    assert!(matches!(stem_source(&stem_args("trackfile"), true), Ok(StemSource::File(s)) if s == "trackfile"));
    assert_eq!(bad_input_msg(stem_source(&stem_args("  "), false)), "provide a local audio file or a song_id");
}

#[test]
fn stem_form_fields_list() {
    let stems = vec!["vocals".to_string(), "drums".to_string()];
    assert_eq!(
        stem_form_fields(&StemSource::SongId("s1".into()), &stems),
        pairs(&[("song_id", "s1"), ("stems", "vocals"), ("stems", "drums")])
    );
    assert_eq!(stem_form_fields(&StemSource::File("f".into()), &vec![]), pairs(&[]));
}

#[test]
fn decode_stems_from_object() {
    let r = from_serde(&j(&format!(r#"{{"stems":{{"vocals":"{}","drums":"{}","meta":1}}}}"#, b64(b"V"), b64(b"D"))));
    let out = decode_stems(&r).unwrap();
    assert_eq!(out.len(), 2);
    assert!(out.iter().any(|(n, b)| n == "vocals" && b == b"V"));
    assert!(out.iter().any(|(n, b)| n == "drums" && b == b"D"));
    let flat = from_serde(&j(&format!(r#"{{"bass":"{}"}}"#, b64(b"B"))));
    assert_eq!(decode_stems(&flat).unwrap(), vec![("bass".to_string(), b"B".to_vec())]);
    match decode_stems(&from_serde(&j("[1]"))) {
        Err(AppError::Http(m)) => assert_eq!(m, "stem-separation response is not an object of base64 stems"),
        other => panic!("unexpected {other:?}"),
    }
    match decode_stems(&from_serde(&j(r#"{"vocals":"***"}"#))) {
        Err(AppError::Http(m)) => assert!(m.starts_with("decode stem 'vocals' base64: ")),
        other => panic!("unexpected {other:?}"),
    }
}

#[test]
fn stem_file_names_and_result() {
    assert_eq!(stem_file_name("vocals"), "vocals.mp3");
    let written = vec![WrittenStem { stem: "vocals".into(), path: "out/vocals.mp3".into(), bytes: 3 }];
    let r = stem_result("song", "out", &vec!["vocals".to_string()], &written);
    assert_eq!(
        to_serde(&r),
        j(r#"{"source":"song","output_dir":"out","stems_requested":["vocals"],
              "stems_written":[{"stem":"vocals","path":"out/vocals.mp3","bytes":3}]}"#)
    );
}

#[test]
fn missing_file_errors() {
    assert_eq!(bad_input_msg::<()>(Err(file_does_not_exist("a.mp3"))), "file does not exist: a.mp3");
    assert_eq!(bad_input_msg::<()>(Err(video_file_does_not_exist("v.mp4"))), "video file does not exist: v.mp4");
}

#[test]
fn composition_plan_check() {
    assert_eq!(check_composition_plan("{}".into(), None).unwrap(), "{}");
    assert_eq!(
        bad_input_msg(check_composition_plan("{".into(), Some("EOF".into()))),
        "--composition-plan is not valid JSON: EOF"
    );
}

#[test]
fn upload_fields_and_result() {
    let a = UploadArgs { file: "s.mp3".into(), name: Some("Song".into()), composition_plan: None };
    assert_eq!(upload_form_fields(&a, Some("{}".into())), pairs(&[("name", "Song"), ("composition_plan", "{}")]));
    let a2 = UploadArgs { file: "s.mp3".into(), name: None, composition_plan: None };
    assert_eq!(upload_form_fields(&a2, None), pairs(&[]));
    let resp = from_serde(&j(r#"{"song_id":"sid"}"#));
    let sid = song_id_of(&resp);
    assert_eq!(sid.as_deref(), Some("sid"));
    assert_eq!(song_id_of(&JsonValue::Null), None);
    let r = upload_result("s.mp3", &sid, &None, resp);
    assert_eq!(to_serde(&r), j(r#"{"input":"s.mp3","song_id":"sid","name":null,"response":{"song_id":"sid"}}"#));
}

#[test]
fn video_fields_and_result() {
    let a = VideoToMusicArgs {
        file: "v.mp4".into(),
        description: Some("calm".into()),
        tags: vec!["a".into(), "b".into()],
        model: Some("m".into()),
        format: None,
        output: None,
    };
    assert_eq!(
        video_form_fields(&a),
        pairs(&[("description", "calm"), ("tags", "a"), ("tags", "b"), ("model_id", "m")])
    );
    let r = video_result(&a, "o.mp3", "mp3_44100_128", 9);
    assert_eq!(
        to_serde(&r),
        j(r#"{"input":"v.mp4","output":"o.mp3","output_format":"mp3_44100_128","description":"calm",
              "tags":["a","b"],"bytes_written":9}"#)
    );
}

#[test]
fn detailed_result_shape() {
    let a = DetailedArgs {
        prompt: Some("p".into()),
        length_ms: None,
        format: None,
        output: None,
        save_metadata: None,
        composition_plan: None,
        model: None,
        force_instrumental: true,
        seed: Some(7),
        respect_sections_durations: false,
        store_for_inpainting: false,
        sign_with_c2pa: false,
    };
    let r = detailed_result(&a, "o.mp3", "o.mp3.metadata.json", "mp3_44100_128", 4);
    assert_eq!(
        to_serde(&r),
        j(r#"{"prompt":"p","composition_plan_file":null,"length_ms":null,"seed":7,"force_instrumental":true,
              "output":"o.mp3","metadata_path":"o.mp3.metadata.json","output_format":"mp3_44100_128","bytes_written":4}"#)
    );
}

#[test]
fn stems_directory_choice() {
    assert_eq!(stems_dir(&Some("out".into()), "123"), "out");
    assert_eq!(stems_dir(&None, "20240101-000000"), "stems_20240101-000000");
}

fn opts() -> ComposeOptions {
    ComposeOptions {
        length_ms: None,
        model: None,
        force_instrumental: false,
        seed: None,
        respect_sections_durations: false,
        store_for_inpainting: false,
        sign_with_c2pa: false,
    }
}

#[test]
fn compose_body_prompt_or_plan() {
    let mut o = opts();
    o.length_ms = Some(30000);
    o.force_instrumental = true;
    o.seed = Some(3);
    o.model = Some("music_v1".into());
    let b = compose_body(&Some("lofi".into()), None, &o).unwrap();
    assert_eq!(
        to_serde(&b),
        j(r#"{"prompt":"lofi","music_length_ms":30000,"model_id":"music_v1","force_instrumental":true,"seed":3}"#)
    );
    let plan = from_serde(&j(r#"{"sections":[]}"#));
    let b = compose_body(&None, Some(plan), &opts()).unwrap();
    assert_eq!(to_serde(&b), j(r#"{"composition_plan":{"sections":[]}}"#));
}

#[test]
fn compose_body_errors() {
    assert_eq!(bad_input_msg(compose_body(&None, None, &opts())), "provide a prompt or --composition-plan");
    assert_eq!(
        bad_input_msg(compose_body(&Some("p".into()), Some(JsonValue::Null), &opts())),
        "pass either a prompt or --composition-plan, not both"
    );
    assert_eq!(bad_input_msg(compose_body(&Some("  ".into()), None, &opts())), "prompt is empty");
}
