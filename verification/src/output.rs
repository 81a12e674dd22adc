//! The machine-readable envelope and the process exit codes.
//!
//! Success: `{version: "1", status: "success", data}`. Exit codes: 0
//! success, 1 transient (I/O, network, API errors), 2 config or auth,
//! 3 bad input, 4 rate limited.

use vstd::prelude::*;

use crate::error::{appended, AppError};
use crate::dialogue::{eq_ignore_ascii_case, exec_eq_ignore_ascii_case};
use crate::text::{cat, split_once, split_once_char};
use crate::json::{json_str, lemma_object_model, members_model, push_member, Json, JsonValue};

verus! {

pub open spec fn success_envelope_model(data: Json) -> Json {
    Json::Obj(seq![("version"@, Json::Str("1"@)), ("status"@, Json::Str("success"@)), ("data"@, data)])
}

/// Wraps a command's result in the success envelope.
pub fn success_envelope(data: JsonValue) -> (r: JsonValue)
    ensures
        r.model() == success_envelope_model(data.model()),
{
    let mut m: Vec<(String, JsonValue)> = Vec::new();
    push_member(&mut m, "version", json_str("1"));
    push_member(&mut m, "status", json_str("success"));
    push_member(&mut m, "data", data);
    proof {
        lemma_object_model(m);
        assert(members_model(m@) =~= success_envelope_model(data.model())->Obj_0);
    }
    JsonValue::Object(m)
}

pub open spec fn exit_code_of(e: AppError) -> i32 {
    match e {
        AppError::AuthFailed(_) | AppError::Config(_) => 2,
        AppError::InvalidInput { .. } => 3,
        AppError::RateLimited(_) => 4,
        _ => 1,
    }
}

/// Adding a retry hint to an error never changes the exit code it maps to.
pub proof fn lemma_hint_keeps_exit_code(err: AppError, r: AppError, hint: Seq<char>)
    requires
        appended(err, r, hint),
    ensures
        exit_code_of(r) == exit_code_of(err),
{
}

/// The exit code of a failed command.
pub fn exit_code(e: &AppError) -> (r: i32)
    ensures
        r == exit_code_of(*e),
{
    match e {
        AppError::AuthFailed(_) | AppError::Config(_) => 2,
        AppError::InvalidInput { .. } => 3,
        AppError::RateLimited(_) => 4,
        _ => 1,
    }
}

/// The file extension for an output format such as `mp3_44100_128`: its
/// codec, the text before the first `_` (the whole text when it has none).
pub fn extension_for_format(format: &str) -> (r: String)
    ensures
        r@ == (match split_once(format@, '_') {
            Some((codec, _)) => codec,
            None => format@,
        }),
{
    match split_once_char(format, '_') {
        Some((codec, _)) => String::from_str(codec),
        None => String::from_str(format),
    }
}

/// Where generated audio is written: `--output` when given, else
/// `<prefix>_<stamp>.<ext>` in the working directory.
pub fn resolve_output_path(output: &Option<String>, prefix: &str, stamp: &str, ext: &str) -> (r: String)
    ensures
        r@ == (match output {
            Some(o) => o@,
            None => prefix@ + "_"@ + stamp@ + "."@ + ext@,
        }),
{
    match output {
        Some(o) => o.clone(),
        None => cat(cat(cat(cat(prefix, "_").as_str(), stamp).as_str(), ".").as_str(), ext),
    }
}

/// The media type sent for a file with this extension (compared without
/// regard to ASCII case); `application/octet-stream` for any other.
pub open spec fn mime_of(ext: Seq<char>) -> Seq<char> {
    if eq_ignore_ascii_case(ext, "mp3"@) {
        "audio/mpeg"@
    } else if eq_ignore_ascii_case(ext, "wav"@) {
        "audio/wav"@
    } else if eq_ignore_ascii_case(ext, "m4a"@) {
        "audio/mp4"@
    } else if eq_ignore_ascii_case(ext, "aac"@) {
        "audio/aac"@
    } else if eq_ignore_ascii_case(ext, "ogg"@) {
        "audio/ogg"@
    } else if eq_ignore_ascii_case(ext, "flac"@) {
        "audio/flac"@
    } else if eq_ignore_ascii_case(ext, "opus"@) {
        "audio/opus"@
    } else if eq_ignore_ascii_case(ext, "mp4"@) {
        "video/mp4"@
    } else if eq_ignore_ascii_case(ext, "mov"@) {
        "video/quicktime"@
    } else if eq_ignore_ascii_case(ext, "webm"@) {
        "video/webm"@
    } else if eq_ignore_ascii_case(ext, "json"@) {
        "application/json"@
    } else if eq_ignore_ascii_case(ext, "pdf"@) {
        "application/pdf"@
    } else if eq_ignore_ascii_case(ext, "txt"@) {
        "text/plain"@
    } else {
        "application/octet-stream"@
    }
}

/// The media type of an upload, from its file extension.
pub fn mime_for_extension(ext: &str) -> (r: &'static str)
    ensures
        r@ == mime_of(ext@),
{
    if exec_eq_ignore_ascii_case(ext, "mp3") {
        "audio/mpeg"
    } else if exec_eq_ignore_ascii_case(ext, "wav") {
        "audio/wav"
    } else if exec_eq_ignore_ascii_case(ext, "m4a") {
        "audio/mp4"
    } else if exec_eq_ignore_ascii_case(ext, "aac") {
        "audio/aac"
    } else if exec_eq_ignore_ascii_case(ext, "ogg") {
        "audio/ogg"
    } else if exec_eq_ignore_ascii_case(ext, "flac") {
        "audio/flac"
    } else if exec_eq_ignore_ascii_case(ext, "opus") {
        "audio/opus"
    } else if exec_eq_ignore_ascii_case(ext, "mp4") {
        "video/mp4"
    } else if exec_eq_ignore_ascii_case(ext, "mov") {
        "video/quicktime"
    } else if exec_eq_ignore_ascii_case(ext, "webm") {
        "video/webm"
    } else if exec_eq_ignore_ascii_case(ext, "json") {
        "application/json"
    } else if exec_eq_ignore_ascii_case(ext, "pdf") {
        "application/pdf"
    } else if exec_eq_ignore_ascii_case(ext, "txt") {
        "text/plain"
    } else {
        "application/octet-stream"
    }
}

} // verus!
