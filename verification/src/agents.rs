//! Conversational agents: the body that `agents create` sends (a complete
//! `conversation_config` and `platform_settings` scaffold around the few
//! values given on the command line) and the `agents delete` call.

use vstd::prelude::*;

use crate::config::AppConfig;
use crate::error::AppError;
use crate::dialogue::str_or_null;
use crate::json::{
    items_model, json_str, lemma_array_model, lemma_object_model, members_model, push_item, push_member, Json,
    JsonValue,
};
use crate::text::cat;

verus! {

fn num(text: &str) -> (r: JsonValue)
    ensures
        r.model() == Json::Num(text@),
{
    JsonValue::Number(String::from_str(text))
}

fn obj(m: Vec<(String, JsonValue)>) -> (r: JsonValue)
    ensures
        r.model() == Json::Obj(members_model(m@)),
{
    proof {
        lemma_object_model(m);
    }
    JsonValue::Object(m)
}

fn empty_obj() -> (r: JsonValue)
    ensures
        r.model() == Json::Obj(Seq::empty()),
{
    let m: Vec<(String, JsonValue)> = Vec::new();
    proof {
        assert(members_model(m@) =~= Seq::<(Seq<char>, Json)>::empty());
    }
    obj(m)
}

fn arr(a: Vec<JsonValue>) -> (r: JsonValue)
    ensures
        r.model() == Json::Arr(items_model(a@)),
{
    proof {
        lemma_array_model(a);
    }
    JsonValue::Array(a)
}

fn empty_arr() -> (r: JsonValue)
    ensures
        r.model() == Json::Arr(Seq::empty()),
{
    let a: Vec<JsonValue> = Vec::new();
    proof {
        assert(items_model(a@) =~= Seq::<Json>::empty());
    }
    arr(a)
}

/// Values of `agents create` that come from the command line. The
/// temperature is held as JSON number text.
#[derive(Debug, Clone)]
pub struct CreateAgentArgs {
    pub name: String,
    pub system_prompt: String,
    pub first_message: Option<String>,
    pub voice_id: Option<String>,
    pub language: String,
    pub llm: String,
    pub temperature: String,
    pub model_id: String,
}

pub open spec fn str_j(s: Seq<char>) -> Json {
    Json::Str(s)
}

pub open spec fn tool_model() -> Json {
    Json::Obj(seq![("type"@, str_j("system"@)), ("name"@, str_j("end_call"@)), ("description"@, str_j(""@))])
}

pub open spec fn prompt_model(a: CreateAgentArgs) -> Json {
    Json::Obj(
        seq![
            ("prompt"@, str_j(a.system_prompt@)),
            ("llm"@, str_j(a.llm@)),
            ("tools"@, Json::Arr(seq![tool_model()])),
            ("knowledge_base"@, Json::Arr(Seq::empty())),
            ("temperature"@, Json::Num(a.temperature@)),
        ],
    )
}

pub open spec fn agent_model(a: CreateAgentArgs) -> Json {
    Json::Obj(
        seq![
            ("language"@, str_j(a.language@)),
            ("prompt"@, prompt_model(a)),
            ("first_message"@, str_or_null(a.first_message)),
            ("dynamic_variables"@, Json::Obj(seq![("dynamic_variable_placeholders"@, Json::Obj(Seq::empty()))])),
        ],
    )
}

pub open spec fn asr_model() -> Json {
    Json::Obj(
        seq![
            ("quality"@, str_j("high"@)),
            ("provider"@, str_j("elevenlabs"@)),
            ("user_input_audio_format"@, str_j("pcm_16000"@)),
            ("keywords"@, Json::Arr(Seq::empty())),
        ],
    )
}

pub open spec fn tts_model(a: CreateAgentArgs, voice_id: Seq<char>) -> Json {
    Json::Obj(
        seq![
            ("voice_id"@, str_j(voice_id)),
            ("model_id"@, str_j(a.model_id@)),
            ("agent_output_audio_format"@, str_j("pcm_16000"@)),
            ("optimize_streaming_latency"@, Json::Num("3"@)),
            ("stability"@, Json::Num("0.5"@)),
            ("similarity_boost"@, Json::Num("0.8"@)),
        ],
    )
}

pub open spec fn conversation_model() -> Json {
    Json::Obj(
        seq![
            ("max_duration_seconds"@, Json::Num("300"@)),
            ("client_events"@, Json::Arr(seq![
                str_j("audio"@),
                str_j("interruption"@),
                str_j("user_transcript"@),
                str_j("agent_response"@),
                str_j("agent_response_correction"@),
            ])),
        ],
    )
}

/// Turn-taking defaults: a 7 s timeout, the `turn_v2` model, and greetings
/// that short acknowledgements cannot interrupt.
pub open spec fn turn_model() -> Json {
    Json::Obj(
        seq![
            ("turn_timeout"@, Json::Num("7"@)),
            ("turn_model"@, str_j("turn_v2"@)),
            ("disable_first_message_interruptions"@, Json::Bool(true)),
        ],
    )
}

pub open spec fn conversation_config_model(a: CreateAgentArgs, voice_id: Seq<char>) -> Json {
    Json::Obj(
        seq![
            ("agent"@, agent_model(a)),
            ("asr"@, asr_model()),
            ("tts"@, tts_model(a, voice_id)),
            ("turn"@, turn_model()),
            ("conversation"@, conversation_model()),
            ("language_presets"@, Json::Obj(Seq::empty())),
            ("is_blocked_ivc"@, Json::Bool(false)),
            ("is_blocked_non_ivc"@, Json::Bool(false)),
        ],
    )
}

pub open spec fn platform_settings_model() -> Json {
    Json::Obj(
        seq![
            ("widget"@, Json::Obj(seq![
                ("variant"@, str_j("full"@)),
                ("avatar"@, Json::Obj(seq![
                    ("type"@, str_j("orb"@)),
                    ("color_1"@, str_j("#6DB035"@)),
                    ("color_2"@, str_j("#F5CABB"@)),
                ])),
                ("feedback_mode"@, str_j("during"@)),
            ])),
            ("evaluation"@, Json::Obj(Seq::empty())),
            ("auth"@, Json::Obj(seq![("allowlist"@, Json::Arr(Seq::empty()))])),
            ("overrides"@, Json::Obj(Seq::empty())),
            ("call_limits"@, Json::Obj(seq![
                ("agent_concurrency_limit"@, Json::Num("-1"@)),
                ("daily_limit"@, Json::Num("100000"@)),
            ])),
            ("privacy"@, Json::Obj(seq![
                ("record_voice"@, Json::Bool(true)),
                ("retention_days"@, Json::Num("730"@)),
                ("delete_transcript_and_pii"@, Json::Bool(true)),
                ("delete_audio"@, Json::Bool(true)),
                ("apply_to_existing_conversations"@, Json::Bool(false)),
            ])),
            ("data_collection"@, Json::Obj(Seq::empty())),
        ],
    )
}

/// The voice of a new agent: `--voice-id`, else the configured default.
pub open spec fn agent_voice(a: CreateAgentArgs, cfg: AppConfig) -> Seq<char> {
    match a.voice_id {
        Some(v) => v@,
        None => match cfg.defaults.voice_id {
            Some(v) => v@,
            None => "cgSgspJ2msm6clMCkdW9"@,
        },
    }
}

/// The `agents create` body: name, conversation config, platform settings.
pub open spec fn create_agent_body_model(a: CreateAgentArgs, cfg: AppConfig) -> Json {
    Json::Obj(
        seq![
            ("name"@, str_j(a.name@)),
            ("conversation_config"@, conversation_config_model(a, agent_voice(a, cfg))),
            ("platform_settings"@, platform_settings_model()),
        ],
    )
}

/// The voice a new agent speaks with: `--voice-id` when given; otherwise
/// the voice configured under `defaults.voice_id`; otherwise the built-in
/// default voice. The agent's TTS model is `--model-id` and its name is
/// `--name`.
pub proof fn lemma_agent_voice(a: CreateAgentArgs, cfg: AppConfig)
    ensures
        ({
            let body = create_agent_body_model(a, cfg);
            let tts = crate::json::json_at(crate::json::json_get(body, "conversation_config"@), "tts"@);
            &&& crate::json::json_get(body, "name"@) == Some(Json::Str(a.name@))
            &&& (a.voice_id matches Some(v) ==> crate::json::json_at(tts, "voice_id"@) == Some(Json::Str(v@)))
            &&& (a.voice_id is None ==> (cfg.defaults.voice_id matches Some(v) ==> crate::json::json_at(
                tts,
                "voice_id"@,
            ) == Some(Json::Str(v@))))
            &&& (a.voice_id is None && cfg.defaults.voice_id is None ==> crate::json::json_at(tts, "voice_id"@)
                == Some(Json::Str("cgSgspJ2msm6clMCkdW9"@)))
            &&& crate::json::json_at(tts, "model_id"@) == Some(Json::Str(a.model_id@))
        }),
{
    reveal_strlit("name");
    reveal_strlit("conversation_config");
    reveal_strlit("agent");
    reveal_strlit("asr");
    reveal_strlit("tts");
    reveal_strlit("voice_id");
    reveal_strlit("model_id");
    assert("asr"@[0] != "tts"@[0]);
    assert("name"@.len() == 4 && "conversation_config"@.len() == 19);
    assert("agent"@.len() == 5 && "voice_id"@.len() == 8);
    assert("model_id"@[0] != "voice_id"@[0]);
    let body = create_agent_body_model(a, cfg);
    let bm = body->Obj_0;
    crate::json::lemma_obj_get_head(bm, "name"@);
    crate::json::lemma_obj_get_skip(bm, "conversation_config"@);
    crate::json::lemma_obj_get_head(bm.drop_first(), "conversation_config"@);
    let cc = conversation_config_model(a, agent_voice(a, cfg));
    assert(bm.drop_first()[0].1 == cc);
    let cm = cc->Obj_0;
    crate::json::lemma_obj_get_skip(cm, "tts"@);
    crate::json::lemma_obj_get_skip(cm.drop_first(), "tts"@);
    crate::json::lemma_obj_get_head(cm.drop_first().drop_first(), "tts"@);
    let t = tts_model(a, agent_voice(a, cfg));
    assert(cm.drop_first().drop_first()[0].1 == t);
    let tm = t->Obj_0;
    crate::json::lemma_obj_get_head(tm, "voice_id"@);
    crate::json::lemma_obj_get_skip(tm, "model_id"@);
    crate::json::lemma_obj_get_head(tm.drop_first(), "model_id"@);
}

/// The rest of what a created agent is told: its language, system prompt,
/// LLM and temperature as given, its first message (`null` when none is
/// given), and the turn-taking defaults (a 7 s timeout, the `turn_v2`
/// model, greetings that acknowledgements cannot interrupt).
pub proof fn lemma_agent_settings(a: CreateAgentArgs, cfg: AppConfig)
    ensures
        ({
            let cc = crate::json::json_get(create_agent_body_model(a, cfg), "conversation_config"@);
            let agent = crate::json::json_at(cc, "agent"@);
            let pr = crate::json::json_at(agent, "prompt"@);
            let turn = crate::json::json_at(cc, "turn"@);
            &&& crate::json::json_at(agent, "language"@) == Some(Json::Str(a.language@))
            &&& crate::json::json_at(agent, "first_message"@) == Some(
                match a.first_message {
                    Some(m) => Json::Str(m@),
                    None => Json::Null,
                },
            )
            &&& crate::json::json_at(pr, "prompt"@) == Some(Json::Str(a.system_prompt@))
            &&& crate::json::json_at(pr, "llm"@) == Some(Json::Str(a.llm@))
            &&& crate::json::json_at(pr, "temperature"@) == Some(Json::Num(a.temperature@))
            &&& crate::json::json_at(turn, "turn_timeout"@) == Some(Json::Num("7"@))
            &&& crate::json::json_at(turn, "turn_model"@) == Some(Json::Str("turn_v2"@))
            &&& crate::json::json_at(turn, "disable_first_message_interruptions"@) == Some(Json::Bool(true))
        }),
{
    reveal_strlit("name");
    reveal_strlit("conversation_config");
    reveal_strlit("agent");
    reveal_strlit("asr");
    reveal_strlit("tts");
    reveal_strlit("turn");
    reveal_strlit("language");
    reveal_strlit("prompt");
    reveal_strlit("first_message");
    reveal_strlit("llm");
    reveal_strlit("tools");
    reveal_strlit("knowledge_base");
    reveal_strlit("temperature");
    reveal_strlit("turn_timeout");
    reveal_strlit("turn_model");
    reveal_strlit("disable_first_message_interruptions");
    assert("name"@.len() == 4 && "conversation_config"@.len() == 19);
    assert("agent"@.len() == 5 && "asr"@.len() == 3 && "tts"@.len() == 3 && "turn"@.len() == 4);
    assert("language"@.len() == 8 && "prompt"@.len() == 6 && "first_message"@.len() == 13);
    assert("llm"@.len() == 3 && "tools"@.len() == 5 && "knowledge_base"@.len() == 14 && "temperature"@.len() == 11);
    assert("turn_timeout"@.len() == 12 && "turn_model"@.len() == 10);
    assert("disable_first_message_interruptions"@.len() == 35);
    let body = create_agent_body_model(a, cfg);
    let bm = body->Obj_0;
    crate::json::lemma_obj_get_skip(bm, "conversation_config"@);
    crate::json::lemma_obj_get_head(bm.drop_first(), "conversation_config"@);
    let ccj = conversation_config_model(a, agent_voice(a, cfg));
    assert(bm.drop_first()[0].1 == ccj);
    let cm = ccj->Obj_0;
    crate::json::lemma_obj_get_head(cm, "agent"@);
    let c1 = cm.drop_first();
    let c2 = c1.drop_first();
    let c3 = c2.drop_first();
    crate::json::lemma_obj_get_skip(cm, "turn"@);
    crate::json::lemma_obj_get_skip(c1, "turn"@);
    crate::json::lemma_obj_get_skip(c2, "turn"@);
    crate::json::lemma_obj_get_head(c3, "turn"@);
    assert(c3[0].1 == turn_model());
    let am = agent_model(a)->Obj_0;
    crate::json::lemma_obj_get_head(am, "language"@);
    crate::json::lemma_obj_get_skip(am, "prompt"@);
    crate::json::lemma_obj_get_head(am.drop_first(), "prompt"@);
    crate::json::lemma_obj_get_skip(am, "first_message"@);
    crate::json::lemma_obj_get_skip(am.drop_first(), "first_message"@);
    crate::json::lemma_obj_get_head(am.drop_first().drop_first(), "first_message"@);
    let pm = prompt_model(a)->Obj_0;
    crate::json::lemma_obj_get_head(pm, "prompt"@);
    crate::json::lemma_obj_get_skip(pm, "llm"@);
    crate::json::lemma_obj_get_head(pm.drop_first(), "llm"@);
    let p1 = pm.drop_first();
    let p2 = p1.drop_first();
    let p3 = p2.drop_first();
    let p4 = p3.drop_first();
    crate::json::lemma_obj_get_skip(pm, "temperature"@);
    crate::json::lemma_obj_get_skip(p1, "temperature"@);
    crate::json::lemma_obj_get_skip(p2, "temperature"@);
    crate::json::lemma_obj_get_skip(p3, "temperature"@);
    crate::json::lemma_obj_get_head(p4, "temperature"@);
    let tm = turn_model()->Obj_0;
    crate::json::lemma_obj_get_head(tm, "turn_timeout"@);
    crate::json::lemma_obj_get_skip(tm, "turn_model"@);
    crate::json::lemma_obj_get_head(tm.drop_first(), "turn_model"@);
    crate::json::lemma_obj_get_skip(tm, "disable_first_message_interruptions"@);
    crate::json::lemma_obj_get_skip(tm.drop_first(), "disable_first_message_interruptions"@);
    crate::json::lemma_obj_get_head(tm.drop_first().drop_first(), "disable_first_message_interruptions"@);
}

fn agent_section(a: &CreateAgentArgs) -> (r: JsonValue)
    ensures
        r.model() == agent_model(*a),
{
    let mut tool: Vec<(String, JsonValue)> = Vec::new();
    push_member(&mut tool, "type", json_str("system"));
    push_member(&mut tool, "name", json_str("end_call"));
    push_member(&mut tool, "description", json_str(""));
    proof {
        assert(members_model(tool@) =~= tool_model()->Obj_0);
    }
    let tool = obj(tool);
    let mut tools: Vec<JsonValue> = Vec::new();
    push_item(&mut tools, tool);
    proof {
        assert(items_model(tools@) =~= seq![tool_model()]);
    }
    let mut prompt: Vec<(String, JsonValue)> = Vec::new();
    push_member(&mut prompt, "prompt", json_str(a.system_prompt.as_str()));
    push_member(&mut prompt, "llm", json_str(a.llm.as_str()));
    push_member(&mut prompt, "tools", arr(tools));
    push_member(&mut prompt, "knowledge_base", empty_arr());
    push_member(&mut prompt, "temperature", num(a.temperature.as_str()));
    proof {
        assert(members_model(prompt@) =~= prompt_model(*a)->Obj_0);
    }
    let first = match &a.first_message {
        Some(t) => json_str(t.as_str()),
        None => JsonValue::Null,
    };
    let mut dv: Vec<(String, JsonValue)> = Vec::new();
    push_member(&mut dv, "dynamic_variable_placeholders", empty_obj());
    proof {
        assert(members_model(dv@) =~= seq![("dynamic_variable_placeholders"@, Json::Obj(Seq::empty()))]);
    }
    let mut agent: Vec<(String, JsonValue)> = Vec::new();
    push_member(&mut agent, "language", json_str(a.language.as_str()));
    push_member(&mut agent, "prompt", obj(prompt));
    push_member(&mut agent, "first_message", first);
    push_member(&mut agent, "dynamic_variables", obj(dv));
    proof {
        assert(members_model(agent@) =~= agent_model(*a)->Obj_0);
    }
    obj(agent)
}

fn asr_section() -> (r: JsonValue)
    ensures
        r.model() == asr_model(),
{
    let mut m: Vec<(String, JsonValue)> = Vec::new();
    push_member(&mut m, "quality", json_str("high"));
    push_member(&mut m, "provider", json_str("elevenlabs"));
    push_member(&mut m, "user_input_audio_format", json_str("pcm_16000"));
    push_member(&mut m, "keywords", empty_arr());
    proof {
        assert(members_model(m@) =~= asr_model()->Obj_0);
    }
    obj(m)
}

fn tts_section(a: &CreateAgentArgs, voice_id: &str) -> (r: JsonValue)
    ensures
        r.model() == tts_model(*a, voice_id@),
{
    let mut m: Vec<(String, JsonValue)> = Vec::new();
    push_member(&mut m, "voice_id", json_str(voice_id));
    push_member(&mut m, "model_id", json_str(a.model_id.as_str()));
    push_member(&mut m, "agent_output_audio_format", json_str("pcm_16000"));
    push_member(&mut m, "optimize_streaming_latency", num("3"));
    push_member(&mut m, "stability", num("0.5"));
    push_member(&mut m, "similarity_boost", num("0.8"));
    proof {
        assert(members_model(m@) =~= tts_model(*a, voice_id@)->Obj_0);
    }
    obj(m)
}

fn conversation_section() -> (r: JsonValue)
    ensures
        r.model() == conversation_model(),
{
    let mut ev: Vec<JsonValue> = Vec::new();
    push_item(&mut ev, json_str("audio"));
    push_item(&mut ev, json_str("interruption"));
    push_item(&mut ev, json_str("user_transcript"));
    push_item(&mut ev, json_str("agent_response"));
    push_item(&mut ev, json_str("agent_response_correction"));
    proof {
        assert(items_model(ev@) =~= seq![
            str_j("audio"@),
            str_j("interruption"@),
            str_j("user_transcript"@),
            str_j("agent_response"@),
            str_j("agent_response_correction"@),
        ]);
    }
    let mut m: Vec<(String, JsonValue)> = Vec::new();
    push_member(&mut m, "max_duration_seconds", num("300"));
    push_member(&mut m, "client_events", arr(ev));
    proof {
        assert(members_model(m@) =~= conversation_model()->Obj_0);
    }
    obj(m)
}

fn conversation_config(a: &CreateAgentArgs, voice_id: &str) -> (r: JsonValue)
    ensures
        r.model() == conversation_config_model(*a, voice_id@),
{
    let mut turn: Vec<(String, JsonValue)> = Vec::new();
    push_member(&mut turn, "turn_timeout", num("7"));
    push_member(&mut turn, "turn_model", json_str("turn_v2"));
    push_member(&mut turn, "disable_first_message_interruptions", JsonValue::Bool(true));
    proof {
        assert(members_model(turn@) =~= turn_model()->Obj_0);
    }
    let mut m: Vec<(String, JsonValue)> = Vec::new();
    push_member(&mut m, "agent", agent_section(a));
    push_member(&mut m, "asr", asr_section());
    push_member(&mut m, "tts", tts_section(a, voice_id));
    push_member(&mut m, "turn", obj(turn));
    push_member(&mut m, "conversation", conversation_section());
    push_member(&mut m, "language_presets", empty_obj());
    push_member(&mut m, "is_blocked_ivc", JsonValue::Bool(false));
    push_member(&mut m, "is_blocked_non_ivc", JsonValue::Bool(false));
    proof {
        assert(members_model(m@) =~= conversation_config_model(*a, voice_id@)->Obj_0);
    }
    obj(m)
}

fn platform_settings() -> (r: JsonValue)
    ensures
        r.model() == platform_settings_model(),
{
    let mut avatar: Vec<(String, JsonValue)> = Vec::new();
    push_member(&mut avatar, "type", json_str("orb"));
    push_member(&mut avatar, "color_1", json_str("#6DB035"));
    push_member(&mut avatar, "color_2", json_str("#F5CABB"));
    let ghost av = members_model(avatar@);
    let mut widget: Vec<(String, JsonValue)> = Vec::new();
    push_member(&mut widget, "variant", json_str("full"));
    push_member(&mut widget, "avatar", obj(avatar));
    push_member(&mut widget, "feedback_mode", json_str("during"));
    let ghost wd = members_model(widget@);
    let mut auth: Vec<(String, JsonValue)> = Vec::new();
    push_member(&mut auth, "allowlist", empty_arr());
    let ghost au = members_model(auth@);
    let mut limits: Vec<(String, JsonValue)> = Vec::new();
    push_member(&mut limits, "agent_concurrency_limit", num("-1"));
    push_member(&mut limits, "daily_limit", num("100000"));
    let ghost li = members_model(limits@);
    let mut privacy: Vec<(String, JsonValue)> = Vec::new();
    push_member(&mut privacy, "record_voice", JsonValue::Bool(true));
    push_member(&mut privacy, "retention_days", num("730"));
    push_member(&mut privacy, "delete_transcript_and_pii", JsonValue::Bool(true));
    push_member(&mut privacy, "delete_audio", JsonValue::Bool(true));
    push_member(&mut privacy, "apply_to_existing_conversations", JsonValue::Bool(false));
    let ghost pr = members_model(privacy@);
    let mut m: Vec<(String, JsonValue)> = Vec::new();
    push_member(&mut m, "widget", obj(widget));
    push_member(&mut m, "evaluation", empty_obj());
    push_member(&mut m, "auth", obj(auth));
    push_member(&mut m, "overrides", empty_obj());
    push_member(&mut m, "call_limits", obj(limits));
    push_member(&mut m, "privacy", obj(privacy));
    push_member(&mut m, "data_collection", empty_obj());
    proof {
        let ps = platform_settings_model()->Obj_0;
        assert(av =~= ps[0].1->Obj_0[1].1->Obj_0);
        assert(wd =~= ps[0].1->Obj_0);
        assert(au =~= ps[2].1->Obj_0);
        assert(li =~= ps[4].1->Obj_0);
        assert(pr =~= ps[5].1->Obj_0);
        assert(members_model(m@) =~= ps);
    }
    obj(m)
}

/// The `agents create` body for these arguments; the voice defaults to the
/// configured one.
pub fn create_agent_body(a: &CreateAgentArgs, cfg: &AppConfig) -> (r: JsonValue)
    ensures
        r.model() == create_agent_body_model(*a, *cfg),
{
    let voice_id = match &a.voice_id {
        Some(v) => v.clone(),
        None => cfg.default_voice_id(),
    };
    let mut m: Vec<(String, JsonValue)> = Vec::new();
    push_member(&mut m, "name", json_str(a.name.as_str()));
    push_member(&mut m, "conversation_config", conversation_config(a, voice_id.as_str()));
    push_member(&mut m, "platform_settings", platform_settings());
    proof {
        assert(members_model(m@) =~= create_agent_body_model(*a, *cfg)->Obj_0);
    }
    obj(m)
}

/// The endpoint of one agent (read, PATCH, DELETE).
pub fn agent_path(agent_id: &str) -> (r: String)
    ensures
        r@ == "/v1/convai/agents/"@ + agent_id@,
{
    cat("/v1/convai/agents/", agent_id)
}

/// What `agents delete` reports.
pub fn delete_agent_result(agent_id: &str) -> (r: JsonValue)
    ensures
        r.model() == Json::Obj(seq![("agent_id"@, Json::Str(agent_id@)), ("deleted"@, Json::Bool(true))]),
{
    let mut m: Vec<(String, JsonValue)> = Vec::new();
    push_member(&mut m, "agent_id", json_str(agent_id));
    push_member(&mut m, "deleted", JsonValue::Bool(true));
    proof {
        assert(members_model(m@) =~= seq![("agent_id"@, Json::Str(agent_id@)), ("deleted"@, Json::Bool(true))]);
    }
    obj(m)
}

/// The refusal of `agents delete` without `--yes`: deleting an agent cannot
/// be undone.
pub fn delete_needs_confirmation(agent_id: &str, yes: bool) -> (r: Result<(), AppError>)
    ensures
        yes ==> r is Ok,
        !yes ==> crate::phone::is_bad_input_with(
            r,
            "refusing to delete agent "@ + agent_id@ + " without --yes (deletion is irreversible)"@,
            "elevenlabs agents delete "@ + agent_id@ + " --yes"@,
        ),
{
    if yes {
        Ok(())
    } else {
        Err(AppError::bad_input_with(
            cat(cat("refusing to delete agent ", agent_id).as_str(), " without --yes (deletion is irreversible)"),
            cat(cat("elevenlabs agents delete ", agent_id).as_str(), " --yes"),
        ))
    }
}

} // verus!
