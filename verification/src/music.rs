//! Music: compose / plan bodies, the detailed response (audio plus
//! metadata), stem separation, upload and video-to-music form fields.

use vstd::prelude::*;

use crate::audio::{base64_decode, base64_standard_decode, drop_member, lemma_drop_member_model, strip_audio};
use crate::cli::{DetailedArgs, StemSeparationArgs, UploadArgs, VideoToMusicArgs};
use crate::config::AppConfig;
use crate::dialogue::{opt_member, opt_pair, pairs_view, push_opt_member, str_of, str_or_null, uint_of};
use crate::dict::is_bad_input;
use crate::error::AppError;
use crate::json::{
    first_some, field, items_model, json_str, json_uint, lemma_array_model, lemma_object_model, members_model, push_item,
    push_member, remove_key, str_field, Json, JsonValue,
};
use crate::text::{cat, decimal, has_infix, has_prefix, is_blank, str_eq, trim, trim_str};

verus! {

pub open spec fn music_body_model(prompt: Seq<char>, length_ms: Option<u32>) -> Json {
    Json::Obj(seq![("prompt"@, Json::Str(prompt))] + opt_member("music_length_ms"@, uint_of(length_ms)))
}

/// A compose / plan body holds the prompt, and `music_length_ms` with the
/// requested length exactly when one is given.
pub proof fn lemma_music_body_fields(prompt: Seq<char>, length_ms: Option<u32>)
    ensures
        crate::json::json_get(music_body_model(prompt, length_ms), "prompt"@) == Some(Json::Str(prompt)),
        crate::json::json_get(music_body_model(prompt, length_ms), "music_length_ms"@) == (match length_ms {
            Some(n) => Some(Json::Num(decimal(n as nat))),
            None => None,
        }),
{
    reveal_strlit("prompt");
    reveal_strlit("music_length_ms");
    assert("prompt"@.len() == 6 && "music_length_ms"@.len() == 15);
    let hd = seq![("prompt"@, Json::Str(prompt))];
    let o = opt_member("music_length_ms"@, uint_of(length_ms));
    crate::json::lemma_obj_get_concat(hd, o, "prompt"@);
    crate::json::lemma_obj_get_concat(hd, o, "music_length_ms"@);
    crate::json::lemma_obj_get_one(("prompt"@, Json::Str(prompt)), "prompt"@);
    crate::json::lemma_obj_get_one(("prompt"@, Json::Str(prompt)), "music_length_ms"@);
    crate::dialogue::lemma_obj_get_opt("music_length_ms"@, uint_of(length_ms), "prompt"@);
    crate::dialogue::lemma_obj_get_opt("music_length_ms"@, uint_of(length_ms), "music_length_ms"@);
}

/// The compose / plan body `{prompt, music_length_ms?}`; a blank prompt is
/// refused.
pub fn music_body(prompt: &str, length_ms: Option<u32>) -> (r: Result<JsonValue, AppError>)
    ensures
        is_blank(prompt@) ==> is_bad_input(r, "prompt is empty"@),
        !is_blank(prompt@) ==> (r matches Ok(b) && b.model() == music_body_model(prompt@, length_ms)),
{
    if trim_str(prompt).unicode_len() == 0 {
        return Err(AppError::bad_input(String::from_str("prompt is empty")));
    }
    let mut m: Vec<(String, JsonValue)> = Vec::new();
    push_member(&mut m, "prompt", json_str(prompt));
    let ghost head = members_model(m@);
    if let Some(ms) = length_ms {
        push_member(&mut m, "music_length_ms", json_uint(ms as u64));
    }
    proof {
        lemma_object_model(m);
        assert(members_model(m@) =~= music_body_model(prompt@, length_ms)->Obj_0);
    }
    Ok(JsonValue::Object(m))
}

/// The output format (`--format`, else the config default) and the query
/// that carries it.
pub fn output_format_query(format: &Option<String>, cfg: &AppConfig) -> (r: (String, Vec<(String, String)>))
    ensures
        r.0@ == (match format {
            Some(f) => f@,
            None => match cfg.defaults.output_format {
                Some(v) => v@,
                None => "mp3_44100_128"@,
            },
        }),
        pairs_view(r.1@) == seq![("output_format"@, r.0@)],
{
    let f = match format {
        Some(f) => f.clone(),
        None => cfg.default_output_format(),
    };
    let mut q: Vec<(String, String)> = Vec::new();
    q.push((String::from_str("output_format"), f.clone()));
    proof {
        assert(pairs_view(q@) =~= seq![("output_format"@, f@)]);
    }
    (f, q)
}

/// What `music compose` reports.
pub fn compose_result(prompt: &str, length_ms: Option<u32>, output: &str, bytes_written: usize) -> (r: JsonValue)
    ensures
        r.model() == Json::Obj(
            seq![
                ("prompt"@, Json::Str(prompt@)),
                ("length_ms"@, match length_ms {
                    Some(n) => Json::Num(decimal(n as nat)),
                    None => Json::Null,
                }),
                ("output"@, Json::Str(output@)),
                ("bytes_written"@, Json::Num(decimal(bytes_written as nat))),
            ],
        ),
{
    let mut m: Vec<(String, JsonValue)> = Vec::new();
    push_member(&mut m, "prompt", json_str(prompt));
    let len = match length_ms {
        Some(n) => json_uint(n as u64),
        None => JsonValue::Null,
    };
    push_member(&mut m, "length_ms", len);
    push_member(&mut m, "output", json_str(output));
    push_member(&mut m, "bytes_written", json_uint(bytes_written as u64));
    proof {
        lemma_object_model(m);
        assert(members_model(m@) =~= seq![
            ("prompt"@, Json::Str(prompt@)),
            ("length_ms"@, match length_ms {
                Some(n) => Json::Num(decimal(n as nat)),
                None => Json::Null,
            }),
            ("output"@, Json::Str(output@)),
            ("bytes_written"@, Json::Num(decimal(bytes_written as nat))),
        ]);
    }
    JsonValue::Object(m)
}

// ── The full compose body ───────────────────────────────────────────────

/// `[(k, true)]` when the flag is set, else nothing.
pub open spec fn flag_member(k: Seq<char>, on: bool) -> Seq<(Seq<char>, Json)> {
    if on {
        seq![(k, Json::Bool(true))]
    } else {
        Seq::empty()
    }
}

/// The compose options of `music compose` / `music detailed` / `music
/// stream` beyond the prompt.
#[derive(Debug, Clone)]
pub struct ComposeOptions {
    pub length_ms: Option<u32>,
    pub model: Option<String>,
    pub force_instrumental: bool,
    pub seed: Option<u32>,
    pub respect_sections_durations: bool,
    pub store_for_inpainting: bool,
    pub sign_with_c2pa: bool,
}

pub open spec fn compose_options_model(o: ComposeOptions) -> Seq<(Seq<char>, Json)> {
    opt_member("music_length_ms"@, uint_of(o.length_ms)) + opt_member("model_id"@, str_of(o.model))
        + flag_member("force_instrumental"@, o.force_instrumental) + opt_member("seed"@, uint_of(o.seed))
        + flag_member("respect_sections_durations"@, o.respect_sections_durations) + flag_member(
        "store_for_inpainting"@,
        o.store_for_inpainting,
    ) + flag_member("sign_with_c2pa"@, o.sign_with_c2pa)
}

/// Looking up in a flag member.
proof fn lemma_obj_get_flag(k: Seq<char>, on: bool, key: Seq<char>)
    ensures
        crate::json::obj_get(flag_member(k, on), key) == (if on && k == key {
            Some(Json::Bool(true))
        } else {
            None::<Json>
        }),
{
    if on {
        crate::json::lemma_obj_get_one((k, Json::Bool(true)), key);
    }
}

/// A lookup in a composition body goes through its members in order.
proof fn lemma_compose_lookup(lead: (Seq<char>, Json), o: ComposeOptions, k: Seq<char>)
    ensures
        crate::json::obj_get(seq![lead] + compose_options_model(o), k) == first_some(
            crate::json::obj_get(seq![lead], k),
            first_some(
                crate::json::obj_get(opt_member("music_length_ms"@, uint_of(o.length_ms)), k),
                first_some(
                    crate::json::obj_get(opt_member("model_id"@, str_of(o.model)), k),
                    first_some(
                        crate::json::obj_get(flag_member("force_instrumental"@, o.force_instrumental), k),
                        first_some(
                            crate::json::obj_get(opt_member("seed"@, uint_of(o.seed)), k),
                            first_some(
                                crate::json::obj_get(
                                    flag_member("respect_sections_durations"@, o.respect_sections_durations),
                                    k,
                                ),
                                first_some(
                                    crate::json::obj_get(flag_member("store_for_inpainting"@, o.store_for_inpainting), k),
                                    crate::json::obj_get(flag_member("sign_with_c2pa"@, o.sign_with_c2pa), k),
                                ),
                            ),
                        ),
                    ),
                ),
            ),
        ),
{
    let a1 = opt_member("music_length_ms"@, uint_of(o.length_ms));
    let a2 = opt_member("model_id"@, str_of(o.model));
    let a3 = flag_member("force_instrumental"@, o.force_instrumental);
    let a4 = opt_member("seed"@, uint_of(o.seed));
    let a5 = flag_member("respect_sections_durations"@, o.respect_sections_durations);
    let a6 = flag_member("store_for_inpainting"@, o.store_for_inpainting);
    let a7 = flag_member("sign_with_c2pa"@, o.sign_with_c2pa);
    let hd = seq![lead];
    crate::json::lemma_obj_get_concat(hd, compose_options_model(o), k);
    crate::json::lemma_obj_get_concat(a1 + a2 + a3 + a4 + a5 + a6, a7, k);
    crate::json::lemma_obj_get_concat(a1 + a2 + a3 + a4 + a5, a6, k);
    crate::json::lemma_obj_get_concat(a1 + a2 + a3 + a4, a5, k);
    crate::json::lemma_obj_get_concat(a1 + a2 + a3, a4, k);
    crate::json::lemma_obj_get_concat(a1 + a2, a3, k);
    crate::json::lemma_obj_get_concat(a1, a2, k);
}

/// Each member lookup of a composition body, for a key of a given length.
proof fn lemma_compose_members(lead: (Seq<char>, Json), o: ComposeOptions, k: Seq<char>)
    ensures
        crate::json::obj_get(seq![lead], k) == (if lead.0 == k { Some(lead.1) } else { None::<Json> }),
        crate::json::obj_get(opt_member("music_length_ms"@, uint_of(o.length_ms)), k) == (if "music_length_ms"@ == k {
            uint_of(o.length_ms)
        } else {
            None::<Json>
        }),
        crate::json::obj_get(opt_member("model_id"@, str_of(o.model)), k) == (if "model_id"@ == k {
            str_of(o.model)
        } else {
            None::<Json>
        }),
        crate::json::obj_get(flag_member("force_instrumental"@, o.force_instrumental), k) == (if o.force_instrumental
            && "force_instrumental"@ == k {
            Some(Json::Bool(true))
        } else {
            None::<Json>
        }),
        crate::json::obj_get(opt_member("seed"@, uint_of(o.seed)), k) == (if "seed"@ == k {
            uint_of(o.seed)
        } else {
            None::<Json>
        }),
        crate::json::obj_get(flag_member("respect_sections_durations"@, o.respect_sections_durations), k) == (if o.respect_sections_durations
            && "respect_sections_durations"@ == k {
            Some(Json::Bool(true))
        } else {
            None::<Json>
        }),
        crate::json::obj_get(flag_member("store_for_inpainting"@, o.store_for_inpainting), k) == (if o.store_for_inpainting
            && "store_for_inpainting"@ == k {
            Some(Json::Bool(true))
        } else {
            None::<Json>
        }),
        crate::json::obj_get(flag_member("sign_with_c2pa"@, o.sign_with_c2pa), k) == (if o.sign_with_c2pa
            && "sign_with_c2pa"@ == k {
            Some(Json::Bool(true))
        } else {
            None::<Json>
        }),
{
    crate::json::lemma_obj_get_one(lead, k);
    crate::dialogue::lemma_obj_get_opt("music_length_ms"@, uint_of(o.length_ms), k);
    crate::dialogue::lemma_obj_get_opt("model_id"@, str_of(o.model), k);
    lemma_obj_get_flag("force_instrumental"@, o.force_instrumental, k);
    crate::dialogue::lemma_obj_get_opt("seed"@, uint_of(o.seed), k);
    lemma_obj_get_flag("respect_sections_durations"@, o.respect_sections_durations, k);
    lemma_obj_get_flag("store_for_inpainting"@, o.store_for_inpainting, k);
    lemma_obj_get_flag("sign_with_c2pa"@, o.sign_with_c2pa, k);
}

/// What a composition body says: the prompt (or plan) it leads with, and
/// each option under its own key exactly when it is given —
/// `music_length_ms`, `model_id` and `seed` with their values, and
/// `force_instrumental`, `respect_sections_durations`,
/// `store_for_inpainting`, `sign_with_c2pa` as `true` exactly when set.
#[verifier::rlimit(40)]
pub proof fn lemma_compose_body_options(lead: (Seq<char>, Json), o: ComposeOptions)
    requires
        lead.0 == "prompt"@ || lead.0 == "composition_plan"@,
    ensures
        ({
            let body = Json::Obj(seq![lead] + compose_options_model(o));
            &&& crate::json::json_get(body, lead.0) == Some(lead.1)
            &&& crate::json::json_get(body, "music_length_ms"@) == (match o.length_ms {
                Some(n) => Some(Json::Num(decimal(n as nat))),
                None => None,
            })
            &&& crate::json::json_get(body, "model_id"@) == (match o.model {
                Some(m) => Some(Json::Str(m@)),
                None => None,
            })
            &&& crate::json::json_get(body, "seed"@) == (match o.seed {
                Some(n) => Some(Json::Num(decimal(n as nat))),
                None => None,
            })
            &&& crate::json::json_get(body, "force_instrumental"@) == (if o.force_instrumental {
                Some(Json::Bool(true))
            } else {
                None
            })
            &&& crate::json::json_get(body, "respect_sections_durations"@) == (if o.respect_sections_durations {
                Some(Json::Bool(true))
            } else {
                None
            })
            &&& crate::json::json_get(body, "store_for_inpainting"@) == (if o.store_for_inpainting {
                Some(Json::Bool(true))
            } else {
                None
            })
            &&& crate::json::json_get(body, "sign_with_c2pa"@) == (if o.sign_with_c2pa {
                Some(Json::Bool(true))
            } else {
                None
            })
        }),
{
    reveal_strlit("prompt");
    reveal_strlit("composition_plan");
    reveal_strlit("music_length_ms");
    reveal_strlit("model_id");
    reveal_strlit("force_instrumental");
    reveal_strlit("seed");
    reveal_strlit("respect_sections_durations");
    reveal_strlit("store_for_inpainting");
    reveal_strlit("sign_with_c2pa");
    assert(lead.0.len() == 6 || lead.0.len() == 16);
    let body = Json::Obj(seq![lead] + compose_options_model(o));
    assert(crate::json::json_get(body, lead.0) == Some(lead.1)) by {
        lemma_compose_lookup(lead, o, lead.0);
        lemma_compose_members(lead, o, lead.0);
    }
    assert(crate::json::json_get(body, "music_length_ms"@) == uint_of(o.length_ms)) by {
        assert("music_length_ms"@.len() == 15);
        assert(lead.0 != "music_length_ms"@);
        lemma_compose_lookup(lead, o, "music_length_ms"@);
        lemma_compose_members(lead, o, "music_length_ms"@);
    }
    assert(crate::json::json_get(body, "model_id"@) == str_of(o.model)) by {
        assert("model_id"@.len() == 8);
        assert(lead.0 != "model_id"@);
        lemma_compose_lookup(lead, o, "model_id"@);
        lemma_compose_members(lead, o, "model_id"@);
    }
    assert(crate::json::json_get(body, "seed"@) == uint_of(o.seed)) by {
        assert("seed"@.len() == 4);
        assert(lead.0 != "seed"@);
        lemma_compose_lookup(lead, o, "seed"@);
        lemma_compose_members(lead, o, "seed"@);
    }
    assert(crate::json::json_get(body, "force_instrumental"@) == (if o.force_instrumental {
        Some(Json::Bool(true))
    } else {
        None::<Json>
    })) by {
        assert("force_instrumental"@.len() == 18);
        assert(lead.0 != "force_instrumental"@);
        lemma_compose_lookup(lead, o, "force_instrumental"@);
        lemma_compose_members(lead, o, "force_instrumental"@);
    }
    assert(crate::json::json_get(body, "respect_sections_durations"@) == (if o.respect_sections_durations {
        Some(Json::Bool(true))
    } else {
        None::<Json>
    })) by {
        assert("respect_sections_durations"@.len() == 26);
        assert(lead.0 != "respect_sections_durations"@);
        lemma_compose_lookup(lead, o, "respect_sections_durations"@);
        lemma_compose_members(lead, o, "respect_sections_durations"@);
    }
    assert(crate::json::json_get(body, "store_for_inpainting"@) == (if o.store_for_inpainting {
        Some(Json::Bool(true))
    } else {
        None::<Json>
    })) by {
        assert("store_for_inpainting"@.len() == 20);
        assert(lead.0 != "store_for_inpainting"@);
        lemma_compose_lookup(lead, o, "store_for_inpainting"@);
        lemma_compose_members(lead, o, "store_for_inpainting"@);
    }
    assert(crate::json::json_get(body, "sign_with_c2pa"@) == (if o.sign_with_c2pa {
        Some(Json::Bool(true))
    } else {
        None::<Json>
    })) by {
        assert("sign_with_c2pa"@.len() == 14);
        assert(lead.0 != "sign_with_c2pa"@);
        lemma_compose_lookup(lead, o, "sign_with_c2pa"@);
        lemma_compose_members(lead, o, "sign_with_c2pa"@);
    }
}

/// The body of a composition request: exactly one of a non-blank prompt or
/// a composition plan (parsed JSON), then the options that are given.
pub fn compose_body(prompt: &Option<String>, plan: Option<JsonValue>, o: &ComposeOptions) -> (r: Result<JsonValue, AppError>)
    ensures
        match (prompt, plan) {
            (Some(_), Some(_)) => is_bad_input(r, "pass either a prompt or --composition-plan, not both"@),
            (None, None) => is_bad_input(r, "provide a prompt or --composition-plan"@),
            (Some(p), None) => if is_blank(p@) {
                is_bad_input(r, "prompt is empty"@)
            } else {
                r matches Ok(b) && b.model() == Json::Obj(
                    seq![("prompt"@, Json::Str(p@))] + compose_options_model(*o),
                )
            },
            (None, Some(pl)) => r matches Ok(b) && b.model() == Json::Obj(
                seq![("composition_plan"@, pl.model())] + compose_options_model(*o),
            ),
        },
{
    let mut m: Vec<(String, JsonValue)> = Vec::new();
    match (prompt, plan) {
        (Some(_), Some(_)) => {
            return Err(AppError::bad_input(String::from_str("pass either a prompt or --composition-plan, not both")));
        },
        (None, None) => {
            return Err(AppError::bad_input(String::from_str("provide a prompt or --composition-plan")));
        },
        (Some(p), None) => {
            if trim_str(p.as_str()).unicode_len() == 0 {
                return Err(AppError::bad_input(String::from_str("prompt is empty")));
            }
            push_member(&mut m, "prompt", json_str(p.as_str()));
            proof {
                assert(members_model(m@) =~= seq![("prompt"@, Json::Str(p@))]);
            }
        },
        (None, Some(pl)) => {
            let ghost plm = pl.model();
            push_member(&mut m, "composition_plan", pl);
            proof {
                assert(members_model(m@) =~= seq![("composition_plan"@, plm)]);
            }
        },
    }
    let ghost head = members_model(m@);
    push_compose_options(&mut m, o);
    proof {
        lemma_object_model(m);
    }
    Ok(JsonValue::Object(m))
}

fn push_length_model(m: &mut Vec<(String, JsonValue)>, o: &ComposeOptions)
    ensures
        members_model(final(m)@) == members_model(old(m)@) + (opt_member("music_length_ms"@, uint_of(o.length_ms))
            + opt_member("model_id"@, str_of(o.model))),
{
    let ghost m0 = members_model(m@);
    let len = match o.length_ms {
        Some(n) => Some(json_uint(n as u64)),
        None => None,
    };
    push_opt_member(m, "music_length_ms", len);
    let model = match &o.model {
        Some(x) => Some(json_str(x.as_str())),
        None => None,
    };
    push_opt_member(m, "model_id", model);
    proof {
        assert(members_model(m@) =~= m0 + (opt_member("music_length_ms"@, uint_of(o.length_ms)) + opt_member(
            "model_id"@,
            str_of(o.model),
        )));
    }
}

fn push_instrumental_seed(m: &mut Vec<(String, JsonValue)>, o: &ComposeOptions)
    ensures
        members_model(final(m)@) == members_model(old(m)@) + (flag_member("force_instrumental"@, o.force_instrumental)
            + opt_member("seed"@, uint_of(o.seed))),
{
    let ghost m0 = members_model(m@);
    push_flag(m, "force_instrumental", o.force_instrumental);
    let seed = match o.seed {
        Some(n) => Some(json_uint(n as u64)),
        None => None,
    };
    push_opt_member(m, "seed", seed);
    proof {
        assert(members_model(m@) =~= m0 + (flag_member("force_instrumental"@, o.force_instrumental) + opt_member(
            "seed"@,
            uint_of(o.seed),
        )));
    }
}

fn push_storage_flags(m: &mut Vec<(String, JsonValue)>, o: &ComposeOptions)
    ensures
        members_model(final(m)@) == members_model(old(m)@) + (flag_member(
            "respect_sections_durations"@,
            o.respect_sections_durations,
        ) + flag_member("store_for_inpainting"@, o.store_for_inpainting) + flag_member(
            "sign_with_c2pa"@,
            o.sign_with_c2pa,
        )),
{
    let ghost m0 = members_model(m@);
    push_flag(m, "respect_sections_durations", o.respect_sections_durations);
    push_flag(m, "store_for_inpainting", o.store_for_inpainting);
    push_flag(m, "sign_with_c2pa", o.sign_with_c2pa);
    proof {
        assert(members_model(m@) =~= m0 + (flag_member("respect_sections_durations"@, o.respect_sections_durations)
            + flag_member("store_for_inpainting"@, o.store_for_inpainting) + flag_member(
            "sign_with_c2pa"@,
            o.sign_with_c2pa,
        )));
    }
}

#[verifier::rlimit(40)]
fn push_compose_options(m: &mut Vec<(String, JsonValue)>, o: &ComposeOptions)
    ensures
        members_model(final(m)@) == members_model(old(m)@) + compose_options_model(*o),
{
    let ghost m0 = members_model(m@);
    push_length_model(m, o);
    let ghost m1 = members_model(m@);
    push_instrumental_seed(m, o);
    let ghost m2 = members_model(m@);
    push_storage_flags(m, o);
    proof {
        assert(members_model(m@) =~= m0 + compose_options_model(*o));
    }
}

fn push_flag(m: &mut Vec<(String, JsonValue)>, k: &str, on: bool)
    ensures
        members_model(final(m)@) == members_model(old(m)@) + flag_member(k@, on),
{
    if on {
        push_member(m, k, JsonValue::Bool(true));
    }
    proof {
        assert(members_model(m@) =~= members_model(old(m)@) + flag_member(k@, on));
    }
}

// ── music detailed ──────────────────────────────────────────────────────

/// The audio field of a detailed response: `audio_base64`, or `audio` when
/// `audio_base64` is absent.
pub open spec fn detailed_audio_field(resp: JsonValue) -> Option<JsonValue> {
    match field(resp, "audio_base64"@) {
        Some(x) => Some(x),
        None => field(resp, "audio"@),
    }
}

/// The decoded audio of a `music/detailed` response.
pub fn detailed_audio(resp: &JsonValue) -> (r: Result<Vec<u8>, AppError>)
    ensures
        match detailed_audio_field(*resp) {
            Some(JsonValue::Str(t)) => match base64_standard_decode(t@) {
                Some(v) => r matches Ok(out) && out@ == v,
                None => r matches Err(AppError::Http(m)) && has_prefix(m@, "decode audio base64: "@),
            },
            _ => r matches Err(AppError::Http(m)) && m@ == "music/detailed response missing audio_base64 field"@,
        },
{
    let f = match resp.get("audio_base64") {
        Some(x) => Some(x),
        None => resp.get("audio"),
    };
    match f {
        Some(JsonValue::Str(t)) => match base64_decode(t.as_str()) {
            Ok(v) => Ok(v),
            Err(e) => {
                let m = cat("decode audio base64: ", e.to_string().as_str());
                proof {
                    assert(m@.take("decode audio base64: "@.len() as int) =~= "decode audio base64: "@);
                }
                Err(AppError::Http(m))
            },
        },
        _ => Err(AppError::Http(String::from_str("music/detailed response missing audio_base64 field"))),
    }
}

/// The metadata of a detailed response: the response without its
/// `audio_base64` and `audio` members.
pub open spec fn detailed_metadata_model(j: Json) -> Json {
    match j {
        Json::Obj(ms) => Json::Obj(drop_member(drop_member(ms, "audio_base64"@), "audio"@)),
        _ => j,
    }
}

/// Everything but the raw audio, for the companion metadata file.
pub fn detailed_metadata(resp: JsonValue) -> (r: JsonValue)
    ensures
        r.model() == detailed_metadata_model(resp.model()),
{
    match resp {
        JsonValue::Object(m) => {
            let ghost m0 = m;
            let mut m = m;
            remove_key(&mut m, "audio_base64");
            let ghost m1 = m@;
            remove_key(&mut m, "audio");
            proof {
                lemma_object_model(m0);
                lemma_object_model(m);
                lemma_drop_member_model(m0@, "audio_base64"@);
                lemma_drop_member_model(m1, "audio"@);
            }
            JsonValue::Object(m)
        },
        other => other,
    }
}

/// Where the metadata goes: `--save-metadata`, else the audio path
/// followed by `.metadata.json`.
pub fn metadata_path(save_metadata: &Option<String>, audio_path: &str) -> (r: String)
    ensures
        r@ == (match save_metadata {
            Some(p) => p@,
            None => audio_path@ + ".metadata.json"@,
        }),
{
    match save_metadata {
        Some(p) => p.clone(),
        None => cat(audio_path, ".metadata.json"),
    }
}

// ── music stem-separation ───────────────────────────────────────────────

/// What is being split.
#[derive(Debug, Clone)]
pub enum StemSource {
    /// A local file to upload.
    File(String),
    /// A `song_id` from `music upload`.
    SongId(String),
}

/// The text holds a path separator (`/` or `\`).
pub open spec fn looks_like_path(s: Seq<char>) -> bool {
    has_infix(s, "/"@) || has_infix(s, "\\"@)
}

/// The (trimmed) source is a file when it is one on disk
/// (`is_file_on_disk`) or holds a path separator; anything else, dots
/// included, is a song id.
pub fn stem_source(args: &StemSeparationArgs, is_file_on_disk: bool) -> (r: Result<StemSource, AppError>)
    ensures
        trim(args.source@).len() == 0 ==> is_bad_input(r, "provide a local audio file or a song_id"@),
        trim(args.source@).len() > 0 && (is_file_on_disk || looks_like_path(trim(args.source@))) ==> (r matches Ok(
            StemSource::File(p),
        ) && p@ == trim(args.source@)),
        trim(args.source@).len() > 0 && !(is_file_on_disk || looks_like_path(trim(args.source@))) ==> (r matches Ok(
            StemSource::SongId(p),
        ) && p@ == trim(args.source@)),
{
    let source = trim_str(args.source.as_str());
    if source.unicode_len() == 0 {
        return Err(AppError::bad_input(String::from_str("provide a local audio file or a song_id")));
    }
    let is_file = is_file_on_disk || crate::text::contains(source, "/") || crate::text::contains(source, "\\");
    if is_file {
        Ok(StemSource::File(String::from_str(source)))
    } else {
        Ok(StemSource::SongId(String::from_str(source)))
    }
}

pub open spec fn string_pairs(k: Seq<char>, vs: Seq<String>) -> Seq<(Seq<char>, Seq<char>)> {
    vs.map_values(|v: String| (k, v@))
}

fn push_all(q: &mut Vec<(String, String)>, k: &str, vs: &Vec<String>)
    ensures
        pairs_view(final(q)@) == pairs_view(old(q)@) + string_pairs(k@, vs@),
{
    let mut i: usize = 0;
    while i < vs.len()
        invariant
            0 <= i <= vs@.len(),
            pairs_view(q@) == pairs_view(old(q)@) + string_pairs(k@, vs@.take(i as int)),
        decreases vs@.len() - i,
    {
        let ghost before = pairs_view(q@);
        q.push((String::from_str(k), vs[i].clone()));
        proof {
            assert(pairs_view(q@) =~= before.push((k@, vs@[i as int]@)));
            assert(string_pairs(k@, vs@.take(i + 1)) =~= string_pairs(k@, vs@.take(i as int)).push((k@, vs@[i as int]@)));
        }
        i = i + 1;
    }
    proof {
        assert(vs@.take(vs@.len() as int) =~= vs@);
    }
}

/// The text fields of the stem-separation form (a file source is sent as
/// the `file` part): `song_id` for a song, then one `stems` per stem.
pub fn stem_form_fields(src: &StemSource, stems: &Vec<String>) -> (r: Vec<(String, String)>)
    ensures
        pairs_view(r@) == (match src {
            StemSource::SongId(id) => seq![("song_id"@, id@)],
            StemSource::File(_) => Seq::empty(),
        }) + string_pairs("stems"@, stems@),
{
    let mut q: Vec<(String, String)> = Vec::new();
    if let StemSource::SongId(id) = src {
        q.push((String::from_str("song_id"), id.clone()));
    }
    proof {
        assert(pairs_view(q@) =~= (match src {
            StemSource::SongId(id) => seq![("song_id"@, id@)],
            StemSource::File(_) => Seq::empty(),
        }));
    }
    push_all(&mut q, "stems", stems);
    q
}


/// The members holding the stems: the `stems` object, or else the response
/// itself when it is an object.
pub open spec fn stems_members(resp: JsonValue) -> Option<Seq<(String, JsonValue)>> {
    match field(resp, "stems"@) {
        Some(JsonValue::Object(m)) => Some(m@),
        _ => match resp {
            JsonValue::Object(m) => Some(m@),
            _ => None,
        },
    }
}

/// The (name, base64 text) of the string-valued members, in order; other
/// members are skipped.
pub open spec fn string_members(ms: Seq<(String, JsonValue)>) -> Seq<(Seq<char>, Seq<char>)>
    decreases ms.len(),
{
    if ms.len() == 0 {
        Seq::empty()
    } else {
        string_members(ms.drop_last()) + match ms.last().1 {
            JsonValue::Str(t) => seq![(ms.last().0@, t@)],
            _ => Seq::empty(),
        }
    }
}

pub open spec fn stem_decodes(ss: Seq<(Seq<char>, Seq<char>)>, out: Seq<(String, Vec<u8>)>) -> bool {
    &&& out.len() == ss.len()
    &&& forall|j: int| 0 <= j < ss.len() ==> #[trigger] out[j].0@ == ss[j].0 && base64_standard_decode(ss[j].1)
        == Some(out[j].1@)
}

fn decode_stem_members(m: &Vec<(String, JsonValue)>) -> (r: Result<Vec<(String, Vec<u8>)>, AppError>)
    ensures
        (r is Ok <==> forall|j: int| 0 <= j < string_members(m@).len() ==> base64_standard_decode(#[trigger] string_members(m@)[j].1) is Some),
        r matches Ok(out) ==> stem_decodes(string_members(m@), out@),
        r matches Err(e) ==> exists|j: int|
            0 <= j < string_members(m@).len() && base64_standard_decode(#[trigger] string_members(m@)[j].1) is None
                && (forall|k: int| 0 <= k < j ==> base64_standard_decode(string_members(m@)[k].1) is Some)
                && (e matches AppError::Http(msg) && has_prefix(
                msg@,
                "decode stem '"@ + string_members(m@)[j].0 + "' base64: "@,
            )),
{
    let mut out: Vec<(String, Vec<u8>)> = Vec::new();
    let mut i: usize = 0;
    proof {
        assert(m@.take(0) =~= Seq::<(String, JsonValue)>::empty());
    }
    while i < m.len()
        invariant
            0 <= i <= m@.len(),
            stem_decodes(string_members(m@.take(i as int)), out@),
            forall|j: int| 0 <= j < string_members(m@.take(i as int)).len() ==> base64_standard_decode(
                #[trigger] string_members(m@.take(i as int))[j].1,
            ) is Some,
        decreases m@.len() - i,
    {
        let ghost prev = string_members(m@.take(i as int));
        proof {
            assert(m@.take(i + 1).drop_last() =~= m@.take(i as int));
            assert(m@.take(i + 1).last() == m@[i as int]);
        }
        let (name, value) = (&m[i].0, &m[i].1);
        if let JsonValue::Str(t) = value {
            let ghost cur = string_members(m@.take(i + 1));
            proof {
                assert(cur =~= prev + seq![(name@, t@)]);
            }
            match base64_decode(t.as_str()) {
                Ok(bytes) => {
                    let ghost before = out@;
                    out.push((name.clone(), bytes));
                    proof {
                        assert forall|j: int| 0 <= j < cur.len() implies #[trigger] out@[j].0@ == cur[j].0
                            && base64_standard_decode(cur[j].1) == Some(out@[j].1@) by {
                            if j < prev.len() {
                                assert(out@[j] == before[j]);
                            }
                        }
                        assert forall|j: int| 0 <= j < cur.len() implies base64_standard_decode(#[trigger] cur[j].1) is Some by {
                            if j < prev.len() {
                                assert(cur[j] == prev[j]);
                            }
                        }
                    }
                },
                Err(e) => {
                    let pre = cat(cat("decode stem '", name.as_str()).as_str(), "' base64: ");
                    let msg = cat(pre.as_str(), e.to_string().as_str());
                    proof {
                        assert(msg@.take(pre@.len() as int) =~= pre@);
                        let j = prev.len() as int;
                        lemma_string_members_prefix(m@, i as int + 1);
                        assert(string_members(m@.take(i + 1)) =~= string_members(m@).take(j + 1));
                        assert(string_members(m@)[j] == cur[j]);
                        assert forall|k: int| 0 <= k < j implies base64_standard_decode(string_members(m@)[k].1) is Some by {
                            assert(string_members(m@)[k] == cur[k]);
                        }
                    }
                    return Err(AppError::Http(msg));
                },
            }
        } else {
            proof {
                assert(string_members(m@.take(i + 1)) =~= prev);
            }
        }
        i = i + 1;
    }
    proof {
        assert(m@.take(m@.len() as int) =~= m@);
    }
    Ok(out)
}

/// `string_members` of a prefix is a prefix of `string_members`.
proof fn lemma_string_members_prefix(ms: Seq<(String, JsonValue)>, i: int)
    requires
        0 <= i <= ms.len(),
    ensures
        string_members(ms.take(i)) == string_members(ms).take(string_members(ms.take(i)).len() as int),
        string_members(ms.take(i)).len() <= string_members(ms).len(),
    decreases ms.len() - i,
{
    if i < ms.len() {
        lemma_string_members_prefix(ms, i + 1);
        assert(ms.take(i + 1).drop_last() =~= ms.take(i));
        let a = string_members(ms.take(i));
        let b = string_members(ms.take(i + 1));
        assert(b.take(a.len() as int) =~= a);
        assert(string_members(ms).take(b.len() as int).take(a.len() as int) =~= string_members(ms).take(a.len() as int));
    } else {
        assert(ms.take(i) =~= ms);
        assert(string_members(ms).take(string_members(ms).len() as int) =~= string_members(ms));
    }
}

/// Each stem of a stem-separation response, decoded, with its name.
pub fn decode_stems(resp: &JsonValue) -> (r: Result<Vec<(String, Vec<u8>)>, AppError>)
    ensures
        match stems_members(*resp) {
            None => r matches Err(AppError::Http(m)) && m@ == "stem-separation response is not an object of base64 stems"@,
            Some(ms) => {
                &&& (r is Ok <==> forall|j: int| 0 <= j < string_members(ms).len() ==> base64_standard_decode(#[trigger] string_members(ms)[j].1) is Some)
                &&& (r matches Ok(out) ==> stem_decodes(string_members(ms), out@))
                &&& (r matches Err(e) ==> exists|j: int|
                    0 <= j < string_members(ms).len() && base64_standard_decode(#[trigger] string_members(ms)[j].1) is None
                        && (forall|k: int| 0 <= k < j ==> base64_standard_decode(string_members(ms)[k].1) is Some)
                        && (e matches AppError::Http(msg) && has_prefix(
                        msg@,
                        "decode stem '"@ + string_members(ms)[j].0 + "' base64: "@,
                    )))
            },
        },
{
    match resp.get("stems") {
        Some(JsonValue::Object(m)) => decode_stem_members(m),
        _ => match resp {
            JsonValue::Object(m) => decode_stem_members(m),
            _ => Err(AppError::Http(String::from_str("stem-separation response is not an object of base64 stems"))),
        },
    }
}

/// The directory stems are written to: `--output-dir`, else
/// `stems_<stamp>`.
pub fn stems_dir(output_dir: &Option<String>, stamp: &str) -> (r: String)
    ensures
        r@ == (match output_dir {
            Some(d) => d@,
            None => "stems_"@ + stamp@,
        }),
{
    match output_dir {
        Some(d) => d.clone(),
        None => cat("stems_", stamp),
    }
}

/// The file a stem is written to, inside the output directory.
pub fn stem_file_name(name: &str) -> (r: String)
    ensures
        r@ == name@ + ".mp3"@,
{
    cat(name, ".mp3")
}

pub open spec fn strings_model(vs: Seq<String>) -> Seq<Json> {
    vs.map_values(|v: String| Json::Str(v@))
}

fn json_strings(vs: &Vec<String>) -> (r: JsonValue)
    ensures
        r.model() == Json::Arr(strings_model(vs@)),
{
    let mut a: Vec<JsonValue> = Vec::new();
    let mut i: usize = 0;
    while i < vs.len()
        invariant
            0 <= i <= vs@.len(),
            items_model(a@) == strings_model(vs@.take(i as int)),
        decreases vs@.len() - i,
    {
        push_item(&mut a, json_str(vs[i].as_str()));
        proof {
            assert(strings_model(vs@.take(i + 1)) =~= strings_model(vs@.take(i as int)).push(Json::Str(vs@[i as int]@)));
        }
        i = i + 1;
    }
    proof {
        assert(vs@.take(vs@.len() as int) =~= vs@);
        lemma_array_model(a);
    }
    JsonValue::Array(a)
}

/// One written stem: its name, path and size.
#[derive(Debug, Clone)]
pub struct WrittenStem {
    pub stem: String,
    pub path: String,
    pub bytes: usize,
}

pub open spec fn written_model(w: WrittenStem) -> Json {
    Json::Obj(
        seq![
            ("stem"@, Json::Str(w.stem@)),
            ("path"@, Json::Str(w.path@)),
            ("bytes"@, Json::Num(decimal(w.bytes as nat))),
        ],
    )
}

/// What `music stem-separation` reports.
pub fn stem_result(source: &str, output_dir: &str, stems_requested: &Vec<String>, written: &Vec<WrittenStem>) -> (r: JsonValue)
    ensures
        r.model() == Json::Obj(
            seq![
                ("source"@, Json::Str(source@)),
                ("output_dir"@, Json::Str(output_dir@)),
                ("stems_requested"@, Json::Arr(strings_model(stems_requested@))),
                ("stems_written"@, Json::Arr(written@.map_values(|w: WrittenStem| written_model(w)))),
            ],
        ),
{
    let mut ws: Vec<JsonValue> = Vec::new();
    let mut i: usize = 0;
    while i < written.len()
        invariant
            0 <= i <= written@.len(),
            items_model(ws@) == written@.take(i as int).map_values(|w: WrittenStem| written_model(w)),
        decreases written@.len() - i,
    {
        let w = &written[i];
        let mut m: Vec<(String, JsonValue)> = Vec::new();
        push_member(&mut m, "stem", json_str(w.stem.as_str()));
        push_member(&mut m, "path", json_str(w.path.as_str()));
        push_member(&mut m, "bytes", json_uint(w.bytes as u64));
        proof {
            lemma_object_model(m);
            assert(members_model(m@) =~= written_model(*w)->Obj_0);
        }
        push_item(&mut ws, JsonValue::Object(m));
        proof {
            assert(written@.take(i + 1).map_values(|w: WrittenStem| written_model(w)) =~= written@.take(i as int).map_values(
                |w: WrittenStem| written_model(w),
            ).push(written_model(written@[i as int])));
        }
        i = i + 1;
    }
    proof {
        assert(written@.take(written@.len() as int) =~= written@);
        lemma_array_model(ws);
    }
    let mut m: Vec<(String, JsonValue)> = Vec::new();
    push_member(&mut m, "source", json_str(source));
    push_member(&mut m, "output_dir", json_str(output_dir));
    push_member(&mut m, "stems_requested", json_strings(stems_requested));
    push_member(&mut m, "stems_written", JsonValue::Array(ws));
    proof {
        lemma_object_model(m);
        assert(members_model(m@) =~= seq![
            ("source"@, Json::Str(source@)),
            ("output_dir"@, Json::Str(output_dir@)),
            ("stems_requested"@, Json::Arr(strings_model(stems_requested@))),
            ("stems_written"@, Json::Arr(written@.map_values(|w: WrittenStem| written_model(w)))),
        ]);
    }
    JsonValue::Object(m)
}


// ── music upload / video-to-music ───────────────────────────────────────

/// The error for an input file that does not exist.
pub fn file_does_not_exist(path: &str) -> (r: AppError)
    ensures
        is_bad_input(Err::<(), AppError>(r), "file does not exist: "@ + path@),
{
    AppError::bad_input(cat("file does not exist: ", path))
}

/// The error for an input video that does not exist.
pub fn video_file_does_not_exist(path: &str) -> (r: AppError)
    ensures
        is_bad_input(Err::<(), AppError>(r), "video file does not exist: "@ + path@),
{
    AppError::bad_input(cat("video file does not exist: ", path))
}

/// A composition plan is attached only when it parses as JSON
/// (`parse_error` is the parser's complaint, if any).
pub fn check_composition_plan(content: String, parse_error: Option<String>) -> (r: Result<String, AppError>)
    ensures
        match parse_error {
            Some(e) => is_bad_input(r, "--composition-plan is not valid JSON: "@ + e@),
            None => r == Ok::<String, AppError>(content),
        },
{
    match parse_error {
        Some(e) => Err(AppError::bad_input(cat("--composition-plan is not valid JSON: ", e.as_str()))),
        None => Ok(content),
    }
}

/// Text fields of the upload form (after the `file` part): `name`, then
/// the composition plan's text, when given.
pub fn upload_form_fields(args: &UploadArgs, plan_content: Option<String>) -> (r: Vec<(String, String)>)
    ensures
        pairs_view(r@) == opt_pair("name"@, args.name) + opt_pair("composition_plan"@, plan_content),
{
    let mut q: Vec<(String, String)> = Vec::new();
    if let Some(n) = &args.name {
        q.push((String::from_str("name"), n.clone()));
    }
    let ghost q1 = pairs_view(q@);
    if let Some(c) = plan_content {
        q.push((String::from_str("composition_plan"), c));
    }
    proof {
        assert(pairs_view(q@) =~= opt_pair("name"@, args.name) + opt_pair("composition_plan"@, plan_content));
    }
    q
}

/// The `song_id` of an upload response.
pub fn song_id_of(resp: &JsonValue) -> (r: Option<String>)
    ensures
        crate::config::opt_view(r) == str_field(*resp, "song_id"@),
{
    match resp.get_str("song_id") {
        Some(s) => Some(String::from_str(s)),
        None => None,
    }
}

fn opt_json_str(s: &Option<String>) -> (r: JsonValue)
    ensures
        r.model() == str_or_null(*s),
{
    match s {
        Some(t) => json_str(t.as_str()),
        None => JsonValue::Null,
    }
}

/// What `music upload` reports.
pub fn upload_result(input: &str, song_id: &Option<String>, name: &Option<String>, response: JsonValue) -> (r: JsonValue)
    ensures
        r.model() == Json::Obj(
            seq![
                ("input"@, Json::Str(input@)),
                ("song_id"@, str_or_null(*song_id)),
                ("name"@, str_or_null(*name)),
                ("response"@, response.model()),
            ],
        ),
{
    let mut m: Vec<(String, JsonValue)> = Vec::new();
    push_member(&mut m, "input", json_str(input));
    push_member(&mut m, "song_id", opt_json_str(song_id));
    push_member(&mut m, "name", opt_json_str(name));
    push_member(&mut m, "response", response);
    proof {
        lemma_object_model(m);
        assert(members_model(m@) =~= seq![
            ("input"@, Json::Str(input@)),
            ("song_id"@, str_or_null(*song_id)),
            ("name"@, str_or_null(*name)),
            ("response"@, response.model()),
        ]);
    }
    JsonValue::Object(m)
}

/// Text fields of the video-to-music form (after the `file` part):
/// `description`, one `tags` per tag, `model_id`, each when given.
pub fn video_form_fields(args: &VideoToMusicArgs) -> (r: Vec<(String, String)>)
    ensures
        pairs_view(r@) == opt_pair("description"@, args.description) + string_pairs("tags"@, args.tags@) + opt_pair(
            "model_id"@,
            args.model,
        ),
{
    let mut q: Vec<(String, String)> = Vec::new();
    if let Some(d) = &args.description {
        q.push((String::from_str("description"), d.clone()));
    }
    proof {
        assert(pairs_view(q@) =~= opt_pair("description"@, args.description));
    }
    push_all(&mut q, "tags", &args.tags);
    let ghost q2 = pairs_view(q@);
    if let Some(mo) = &args.model {
        q.push((String::from_str("model_id"), mo.clone()));
    }
    proof {
        assert(pairs_view(q@) =~= q2 + opt_pair("model_id"@, args.model));
    }
    q
}

/// What `music video-to-music` reports.
pub fn video_result(args: &VideoToMusicArgs, output: &str, output_format: &str, bytes_written: usize) -> (r: JsonValue)
    ensures
        r.model() == Json::Obj(
            seq![
                ("input"@, Json::Str(args.file@)),
                ("output"@, Json::Str(output@)),
                ("output_format"@, Json::Str(output_format@)),
                ("description"@, str_or_null(args.description)),
                ("tags"@, Json::Arr(strings_model(args.tags@))),
                ("bytes_written"@, Json::Num(decimal(bytes_written as nat))),
            ],
        ),
{
    let mut m: Vec<(String, JsonValue)> = Vec::new();
    push_member(&mut m, "input", json_str(args.file.as_str()));
    push_member(&mut m, "output", json_str(output));
    push_member(&mut m, "output_format", json_str(output_format));
    push_member(&mut m, "description", opt_json_str(&args.description));
    push_member(&mut m, "tags", json_strings(&args.tags));
    push_member(&mut m, "bytes_written", json_uint(bytes_written as u64));
    proof {
        lemma_object_model(m);
        assert(members_model(m@) =~= seq![
            ("input"@, Json::Str(args.file@)),
            ("output"@, Json::Str(output@)),
            ("output_format"@, Json::Str(output_format@)),
            ("description"@, str_or_null(args.description)),
            ("tags"@, Json::Arr(strings_model(args.tags@))),
            ("bytes_written"@, Json::Num(decimal(bytes_written as nat))),
        ]);
    }
    JsonValue::Object(m)
}

pub open spec fn uint_or_null(n: Option<u32>) -> Json {
    match n {
        Some(x) => Json::Num(decimal(x as nat)),
        None => Json::Null,
    }
}

fn opt_json_uint(n: Option<u32>) -> (r: JsonValue)
    ensures
        r.model() == uint_or_null(n),
{
    match n {
        Some(x) => json_uint(x as u64),
        None => JsonValue::Null,
    }
}

/// What `music detailed` reports.
pub fn detailed_result(args: &DetailedArgs, output: &str, metadata_path: &str, output_format: &str, bytes_written: usize) -> (r: JsonValue)
    ensures
        r.model() == Json::Obj(
            seq![
                ("prompt"@, str_or_null(args.prompt)),
                ("composition_plan_file"@, str_or_null(args.composition_plan)),
                ("length_ms"@, uint_or_null(args.length_ms)),
                ("seed"@, uint_or_null(args.seed)),
                ("force_instrumental"@, Json::Bool(args.force_instrumental)),
                ("output"@, Json::Str(output@)),
                ("metadata_path"@, Json::Str(metadata_path@)),
                ("output_format"@, Json::Str(output_format@)),
                ("bytes_written"@, Json::Num(decimal(bytes_written as nat))),
            ],
        ),
{
    let mut m: Vec<(String, JsonValue)> = Vec::new();
    push_member(&mut m, "prompt", opt_json_str(&args.prompt));
    push_member(&mut m, "composition_plan_file", opt_json_str(&args.composition_plan));
    push_member(&mut m, "length_ms", opt_json_uint(args.length_ms));
    push_member(&mut m, "seed", opt_json_uint(args.seed));
    push_member(&mut m, "force_instrumental", JsonValue::Bool(args.force_instrumental));
    push_member(&mut m, "output", json_str(output));
    push_member(&mut m, "metadata_path", json_str(metadata_path));
    push_member(&mut m, "output_format", json_str(output_format));
    push_member(&mut m, "bytes_written", json_uint(bytes_written as u64));
    proof {
        lemma_object_model(m);
        assert(members_model(m@) =~= seq![
            ("prompt"@, str_or_null(args.prompt)),
            ("composition_plan_file"@, str_or_null(args.composition_plan)),
            ("length_ms"@, uint_or_null(args.length_ms)),
            ("seed"@, uint_or_null(args.seed)),
            ("force_instrumental"@, Json::Bool(args.force_instrumental)),
            ("output"@, Json::Str(output@)),
            ("metadata_path"@, Json::Str(metadata_path@)),
            ("output_format"@, Json::Str(output_format@)),
            ("bytes_written"@, Json::Num(decimal(bytes_written as nat))),
        ]);
    }
    JsonValue::Object(m)
}

} // verus!
