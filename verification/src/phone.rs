//! Phone channel: outbound calls through an agent, per-call dynamic
//! variables, WhatsApp calls and messages, and batch-call listing.

use vstd::prelude::*;

use crate::dict::is_bad_input;
use crate::error::AppError;
use crate::json::{
    int_of, int_or_empty, json_get, json_str, json_uint, lemma_field_model, lemma_object_model, members_model,
    push_member, str_field, text_of, text_or_empty, Json, JsonValue,
};
use crate::text::{cat, decimal, lowercase, str_eq, to_lowercase};
use crate::dialogue::opt_pair;

verus! {

// ── Provider lookup ─────────────────────────────────────────────────────

/// The phone numbers of a listing: the top-level array, or its
/// `phone_numbers` array, or none.
pub open spec fn phone_list(list: JsonValue) -> Seq<JsonValue> {
    match list {
        JsonValue::Array(a) => a@,
        _ => match crate::json::field(list, "phone_numbers"@) {
            Some(JsonValue::Array(a)) => a@,
            _ => Seq::empty(),
        },
    }
}

pub open spec fn has_number_id(p: JsonValue, from_id: Seq<char>) -> bool {
    str_field(p, "phone_number_id"@) == Some(from_id)
}

/// The first listed number whose `phone_number_id` is `from_id`.
pub open spec fn first_with_id(ps: Seq<JsonValue>, from_id: Seq<char>) -> Option<JsonValue>
    decreases ps.len(),
{
    if ps.len() == 0 {
        None
    } else if has_number_id(ps[0], from_id) {
        Some(ps[0])
    } else {
        first_with_id(ps.drop_first(), from_id)
    }
}

/// The lower-cased `provider` of that number (of the empty text when there
/// is no such number or it has no provider).
pub open spec fn provider_of(list: JsonValue, from_id: Seq<char>) -> Seq<char> {
    provider_in_items(phone_list(list), from_id)
}

proof fn lemma_first_with_id_at(ps: Seq<JsonValue>, from_id: Seq<char>, i: int)
    requires
        0 <= i <= ps.len(),
        i < ps.len() ==> has_number_id(ps[i], from_id),
        forall|k: int| 0 <= k < i ==> !has_number_id(#[trigger] ps[k], from_id),
    ensures
        first_with_id(ps, from_id) == (if i < ps.len() {
            Some(ps[i])
        } else {
            None::<JsonValue>
        }),
    decreases i,
{
    if i > 0 {
        assert forall|k: int| 0 <= k < i - 1 implies !has_number_id(#[trigger] ps.drop_first()[k], from_id) by {
            assert(ps.drop_first()[k] == ps[k + 1]);
        }
        lemma_first_with_id_at(ps.drop_first(), from_id, i - 1);
    }
}

/// The provider of the first entry of `items` for `from_id`, as
/// `provider_of` states it.
pub open spec fn provider_in_items(items: Seq<JsonValue>, from_id: Seq<char>) -> Seq<char> {
    match first_with_id(items, from_id) {
        Some(p) => match str_field(p, "provider"@) {
            Some(x) => if x.len() > 0 {
                lowercase(x)
            } else {
                Seq::empty()
            },
            None => Seq::empty(),
        },
        None => Seq::empty(),
    }
}

fn provider_in(items: &Vec<JsonValue>, from_id: &str) -> (r: String)
    ensures
        r@ == provider_in_items(items@, from_id@),
{
    let mut i: usize = 0;
    while i < items.len()
        invariant
            0 <= i <= items@.len(),
            forall|k: int| 0 <= k < i ==> !has_number_id(#[trigger] items@[k], from_id@),
        decreases items@.len() - i,
    {
        let hit = match items[i].get_str("phone_number_id") {
            Some(id) => str_eq(id, from_id),
            None => false,
        };
        if hit {
            proof {
                lemma_first_with_id_at(items@, from_id@, i as int);
            }
            return match items[i].get_str("provider") {
                Some(x) => if x.unicode_len() > 0 {
                    to_lowercase(x)
                } else {
                    String::new()
                },
                None => String::new(),
            };
        }
        i = i + 1;
    }
    proof {
        lemma_first_with_id_at(items@, from_id@, i as int);
    }
    String::new()
}

/// The provider of the number `from_id` in a phone-number listing.
pub fn phone_provider(list: &JsonValue, from_id: &str) -> (r: String)
    ensures
        r@ == provider_of(*list, from_id@),
{
    match list {
        JsonValue::Array(a) => provider_in(a, from_id),
        _ => match list.get("phone_numbers") {
            Some(JsonValue::Array(a)) => provider_in(a, from_id),
            _ => {
                let empty: Vec<JsonValue> = Vec::new();
                proof {
                    assert(empty@ =~= Seq::<JsonValue>::empty());
                }
                provider_in(&empty, from_id)
            },
        },
    }
}

/// The outbound-call endpoint for a provider.
pub open spec fn call_path_ok(provider: Seq<char>, from_id: Seq<char>, r: Result<&'static str, AppError>) -> bool {
    if provider == "twilio"@ {
        r matches Ok(p) && p@ == "/v1/convai/twilio/outbound-call"@
    } else if provider == "sip_trunk"@ {
        r matches Ok(p) && p@ == "/v1/convai/sip-trunk/outbound-call"@
    } else if provider.len() == 0 {
        is_bad_input(r, "phone number "@ + from_id + " not found in your account"@)
    } else {
        is_bad_input(r, "unsupported phone provider: "@ + provider)
    }
}

/// A number that is not in the listing has no provider, so a call from it
/// is refused as not found, whatever else the listing holds.
pub proof fn lemma_unknown_number_refused(list: JsonValue, from_id: Seq<char>, r: Result<&'static str, AppError>)
    requires
        first_with_id(phone_list(list), from_id) is None,
        call_path_ok(provider_of(list, from_id), from_id, r),
    ensures
        provider_of(list, from_id).len() == 0,
        is_bad_input(r, "phone number "@ + from_id + " not found in your account"@),
{
    reveal_strlit("twilio");
    reveal_strlit("sip_trunk");
    assert("twilio"@.len() > 0);
    assert("sip_trunk"@.len() > 0);
}

/// Twilio and SIP-trunk numbers have their own endpoints; an unknown number
/// (empty provider) or another provider is refused.
pub fn outbound_call_path(provider: &str, from_id: &str) -> (r: Result<&'static str, AppError>)
    ensures
        call_path_ok(provider@, from_id@, r),
{
    if str_eq(provider, "twilio") {
        Ok("/v1/convai/twilio/outbound-call")
    } else if str_eq(provider, "sip_trunk") {
        Ok("/v1/convai/sip-trunk/outbound-call")
    } else if provider.unicode_len() == 0 {
        Err(AppError::bad_input(cat(cat("phone number ", from_id).as_str(), " not found in your account")))
    } else {
        Err(AppError::bad_input(cat("unsupported phone provider: ", provider)))
    }
}

pub open spec fn call_body_model(agent_id: Seq<char>, from_id: Seq<char>, to: Seq<char>, vars: Option<Json>) -> Json {
    Json::Obj(
        seq![
            ("agent_id"@, Json::Str(agent_id)),
            ("agent_phone_number_id"@, Json::Str(from_id)),
            ("to_number"@, Json::Str(to)),
        ] + match vars {
            Some(v) => seq![
                ("conversation_initiation_client_data"@, Json::Obj(seq![("dynamic_variables"@, v)])),
            ],
            None => Seq::empty(),
        },
    )
}

/// What an outbound-call body says: the agent, the calling number and the
/// callee each under their own key, and the dynamic variables under
/// `conversation_initiation_client_data.dynamic_variables` exactly when
/// they are given.
pub proof fn lemma_call_body_fields(agent_id: Seq<char>, from_id: Seq<char>, to: Seq<char>, vars: Option<Json>)
    ensures
        ({
            let body = call_body_model(agent_id, from_id, to, vars);
            let cicd = json_get(body, "conversation_initiation_client_data"@);
            &&& json_get(body, "agent_id"@) == Some(Json::Str(agent_id))
            &&& json_get(body, "agent_phone_number_id"@) == Some(Json::Str(from_id))
            &&& json_get(body, "to_number"@) == Some(Json::Str(to))
            &&& (vars is None <==> cicd is None)
            &&& (vars matches Some(v) ==> crate::json::json_at(cicd, "dynamic_variables"@) == Some(v))
        }),
{
    reveal_strlit("agent_id");
    reveal_strlit("agent_phone_number_id");
    reveal_strlit("to_number");
    reveal_strlit("conversation_initiation_client_data");
    reveal_strlit("dynamic_variables");
    assert("agent_id"@.len() == 8 && "agent_phone_number_id"@.len() == 21 && "to_number"@.len() == 9);
    assert("conversation_initiation_client_data"@.len() == 35);
    let m = call_body_model(agent_id, from_id, to, vars)->Obj_0;
    let k = "conversation_initiation_client_data"@;
    crate::json::lemma_obj_get_head(m, "agent_id"@);
    crate::json::lemma_obj_get_skip(m, "agent_phone_number_id"@);
    crate::json::lemma_obj_get_head(m.drop_first(), "agent_phone_number_id"@);
    crate::json::lemma_obj_get_skip(m, "to_number"@);
    crate::json::lemma_obj_get_skip(m.drop_first(), "to_number"@);
    crate::json::lemma_obj_get_head(m.drop_first().drop_first(), "to_number"@);
    crate::json::lemma_obj_get_skip(m, k);
    crate::json::lemma_obj_get_skip(m.drop_first(), k);
    crate::json::lemma_obj_get_skip(m.drop_first().drop_first(), k);
    let rest = m.drop_first().drop_first().drop_first();
    match vars {
        Some(v) => {
            assert(rest =~= seq![(k, Json::Obj(seq![("dynamic_variables"@, v)]))]);
            crate::json::lemma_obj_get_one((k, Json::Obj(seq![("dynamic_variables"@, v)])), k);
            crate::json::lemma_obj_get_one(("dynamic_variables"@, v), "dynamic_variables"@);
        },
        None => {
            assert(rest =~= Seq::<(Seq<char>, Json)>::empty());
        },
    }
}

/// The call endpoint follows the provider: Twilio numbers go to the Twilio
/// endpoint, SIP-trunk numbers to the SIP-trunk endpoint, and any other
/// provider (none included) is refused.
pub proof fn lemma_call_path_routes(provider: Seq<char>, from_id: Seq<char>, r: Result<&'static str, AppError>)
    requires
        call_path_ok(provider, from_id, r),
    ensures
        provider == "twilio"@ ==> (r matches Ok(p) && p@ == "/v1/convai/twilio/outbound-call"@),
        provider == "sip_trunk"@ ==> (r matches Ok(p) && p@ == "/v1/convai/sip-trunk/outbound-call"@),
        provider != "twilio"@ && provider != "sip_trunk"@ ==> (r matches Err(AppError::InvalidInput { .. })),
{
    reveal_strlit("twilio");
    reveal_strlit("sip_trunk");
    assert("twilio"@.len() == 6 && "sip_trunk"@.len() == 9);
}

/// The outbound-call body, with the dynamic variables under
/// `conversation_initiation_client_data` when given.
pub fn call_body(agent_id: &str, from_id: &str, to: &str, vars: Option<JsonValue>) -> (r: JsonValue)
    ensures
        r.model() == call_body_model(
            agent_id@,
            from_id@,
            to@,
            match vars {
                Some(v) => Some(v.model()),
                None => None,
            },
        ),
{
    let mut m: Vec<(String, JsonValue)> = Vec::new();
    push_member(&mut m, "agent_id", json_str(agent_id));
    push_member(&mut m, "agent_phone_number_id", json_str(from_id));
    push_member(&mut m, "to_number", json_str(to));
    let ghost head = members_model(m@);
    match vars {
        Some(v) => {
            let mut inner: Vec<(String, JsonValue)> = Vec::new();
            push_member(&mut inner, "dynamic_variables", v);
            proof {
                lemma_object_model(inner);
                assert(members_model(inner@) =~= seq![("dynamic_variables"@, v.model())]);
            }
            push_member(&mut m, "conversation_initiation_client_data", JsonValue::Object(inner));
        },
        None => {},
    }
    proof {
        lemma_object_model(m);
        assert(members_model(m@) =~= call_body_model(
            agent_id@,
            from_id@,
            to@,
            match vars {
                Some(v) => Some(v.model()),
                None => None,
            },
        )->Obj_0);
    }
    JsonValue::Object(m)
}

// ── Dynamic variables ───────────────────────────────────────────────────

/// Where `--dynamic-variables` takes its JSON from.
#[derive(Debug, Clone)]
pub enum DynamicVariablesSource {
    /// `@path`: the file at this path.
    File(String),
    /// The value itself.
    Literal(String),
}

/// A leading `@` names a file; anything else is literal JSON.
pub fn dynamic_variables_source(raw: &str) -> (r: DynamicVariablesSource)
    ensures
        if raw@.len() > 0 && raw@[0] == '@' {
            r matches DynamicVariablesSource::File(p) && p@ == raw@.drop_first()
        } else {
            r matches DynamicVariablesSource::Literal(t) && t@ == raw@
        },
{
    let n = raw.unicode_len();
    if n > 0 && raw.get_char(0) == '@' {
        let rest = raw.substring_char(1, n);
        proof {
            assert(rest@ =~= raw@.drop_first());
        }
        DynamicVariablesSource::File(String::from_str(rest))
    } else {
        DynamicVariablesSource::Literal(String::from_str(raw))
    }
}

pub open spec fn is_bad_input_with<T>(r: Result<T, AppError>, msg: Seq<char>, suggestion: Seq<char>) -> bool {
    r matches Err(AppError::InvalidInput { msg: m, suggestion: Some(s) }) && m@ == msg && s@ == suggestion
}

/// The error for an `@path` whose file does not exist.
pub fn dynamic_variables_file_missing(path: &str) -> (r: AppError)
    ensures
        is_bad_input_with(
            Err::<(), AppError>(r),
            "dynamic-variables file does not exist: "@ + path@,
            "Either drop the leading `@` to pass a literal JSON string, or point at an existing file: --dynamic-variables @"@
                + path@,
        ),
{
    AppError::bad_input_with(
        cat("dynamic-variables file does not exist: ", path),
        cat(
            "Either drop the leading `@` to pass a literal JSON string, or point at an existing file: --dynamic-variables @",
            path,
        ),
    )
}

/// The JSON kind's name, for messages.
pub open spec fn kind_name(v: JsonValue) -> Seq<char> {
    match v {
        JsonValue::Null => "null"@,
        JsonValue::Bool(_) => "bool"@,
        JsonValue::Number(_) => "number"@,
        JsonValue::Str(_) => "string"@,
        JsonValue::Array(_) => "array"@,
        JsonValue::Object(_) => "object"@,
    }
}

/// Name of a value's JSON kind.
pub fn val_kind(v: &JsonValue) -> (r: &'static str)
    ensures
        r@ == kind_name(*v),
{
    match v {
        JsonValue::Null => "null",
        JsonValue::Bool(_) => "bool",
        JsonValue::Number(_) => "number",
        JsonValue::Str(_) => "string",
        JsonValue::Array(_) => "array",
        JsonValue::Object(_) => "object",
    }
}

pub open spec fn invalid_json_suggestion() -> Seq<char> {
    "Pass a JSON object like --dynamic-variables '{\"name\":\"Alex\"}'. Use @file.json to load from disk if the JSON is large or contains special shell characters."@
}

pub open spec fn not_object_suggestion() -> Seq<char> {
    "Dynamic variables interpolate {{key}} placeholders in the agent prompt, so the top level must be an object: --dynamic-variables '{\"name\":\"Alex\",\"plan\":\"pro\"}'"@
}

/// Accepts the parsed `--dynamic-variables` JSON (or the parser's error
/// text) only when it is an object: the agent interpolates `{{key}}`
/// placeholders from it.
pub fn check_dynamic_variables(parsed: Result<JsonValue, String>) -> (r: Result<JsonValue, AppError>)
    ensures
        match parsed {
            Err(e) => is_bad_input_with(r, "--dynamic-variables is not valid JSON: "@ + e@, invalid_json_suggestion()),
            Ok(v) => if v is Object {
                r == Ok::<JsonValue, AppError>(v)
            } else {
                is_bad_input_with(
                    r,
                    "--dynamic-variables must be a JSON object (got "@ + kind_name(v) + ")"@,
                    not_object_suggestion(),
                )
            },
        },
{
    match parsed {
        Err(e) => Err(
            AppError::bad_input_with(
                cat("--dynamic-variables is not valid JSON: ", e.as_str()),
                String::from_str(
                    "Pass a JSON object like --dynamic-variables '{\"name\":\"Alex\"}'. Use @file.json to load from disk if the JSON is large or contains special shell characters.",
                ),
            ),
        ),
        Ok(v) => {
            if let JsonValue::Object(_) = &v {
                Ok(v)
            } else {
                let m = cat(cat("--dynamic-variables must be a JSON object (got ", val_kind(&v)).as_str(), ")");
                Err(
                    AppError::bad_input_with(
                        m,
                        String::from_str(
                            "Dynamic variables interpolate {{key}} placeholders in the agent prompt, so the top level must be an object: --dynamic-variables '{\"name\":\"Alex\",\"plan\":\"pro\"}'",
                        ),
                    ),
                )
            }
        },
    }
}

/// What `phone call` reports.
pub fn call_result(provider: &str, agent_id: &str, from_id: &str, to: &str, response: JsonValue) -> (r: JsonValue)
    ensures
        r.model() == Json::Obj(
            seq![
                ("provider"@, Json::Str(provider@)),
                ("agent_id"@, Json::Str(agent_id@)),
                ("from_phone_number_id"@, Json::Str(from_id@)),
                ("to"@, Json::Str(to@)),
                ("response"@, response.model()),
            ],
        ),
{
    let mut m: Vec<(String, JsonValue)> = Vec::new();
    push_member(&mut m, "provider", json_str(provider));
    push_member(&mut m, "agent_id", json_str(agent_id));
    push_member(&mut m, "from_phone_number_id", json_str(from_id));
    push_member(&mut m, "to", json_str(to));
    push_member(&mut m, "response", response);
    proof {
        lemma_object_model(m);
        assert(members_model(m@) =~= seq![
            ("provider"@, Json::Str(provider@)),
            ("agent_id"@, Json::Str(agent_id@)),
            ("from_phone_number_id"@, Json::Str(from_id@)),
            ("to"@, Json::Str(to@)),
            ("response"@, response.model()),
        ]);
    }
    JsonValue::Object(m)
}


// ── WhatsApp ────────────────────────────────────────────────────────────

pub open spec fn opt_str_member(k: Seq<char>, v: Option<String>) -> Seq<(Seq<char>, Json)> {
    match v {
        Some(t) => seq![(k, Json::Str(t@))],
        None => Seq::empty(),
    }
}

/// The outbound WhatsApp message: exactly one of free-form `text` or a
/// pre-approved `template` name.
pub fn whatsapp_message_body(
    agent_id: &str,
    whatsapp_account: &str,
    recipient: &str,
    text: Option<String>,
    template: Option<String>,
) -> (r: Result<JsonValue, AppError>)
    ensures
        match (text, template) {
            (Some(_), Some(_)) => is_bad_input(r, "pass only one of --text or --template, not both"@),
            (None, None) => is_bad_input(r, "either --text <str> or --template <name> is required"@),
            _ => r matches Ok(b) && b.model() == Json::Obj(
                seq![
                    ("agent_id"@, Json::Str(agent_id@)),
                    ("whatsapp_account_id"@, Json::Str(whatsapp_account@)),
                    ("recipient_phone_number"@, Json::Str(recipient@)),
                ] + opt_str_member("text"@, text) + opt_str_member("template_name"@, template),
            ),
        },
{
    if text.is_some() && template.is_some() {
        return Err(AppError::bad_input(String::from_str("pass only one of --text or --template, not both")));
    }
    if text.is_none() && template.is_none() {
        return Err(AppError::bad_input(String::from_str("either --text <str> or --template <name> is required")));
    }
    let mut m: Vec<(String, JsonValue)> = Vec::new();
    push_member(&mut m, "agent_id", json_str(agent_id));
    push_member(&mut m, "whatsapp_account_id", json_str(whatsapp_account));
    push_member(&mut m, "recipient_phone_number", json_str(recipient));
    let ghost head = members_model(m@);
    proof {
        assert(head =~= seq![
            ("agent_id"@, Json::Str(agent_id@)),
            ("whatsapp_account_id"@, Json::Str(whatsapp_account@)),
            ("recipient_phone_number"@, Json::Str(recipient@)),
        ]);
    }
    match &text {
        Some(t) => {
            push_member(&mut m, "text", json_str(t.as_str()));
            proof {
                assert(members_model(m@) =~= head + opt_str_member("text"@, text));
            }
        },
        None => {
            proof {
                assert(members_model(m@) =~= head + opt_str_member("text"@, text));
            }
        },
    }
    let ghost mid = members_model(m@);
    match &template {
        Some(t) => {
            push_member(&mut m, "template_name", json_str(t.as_str()));
            proof {
                assert(members_model(m@) =~= mid + opt_str_member("template_name"@, template));
            }
        },
        None => {
            proof {
                assert(members_model(m@) =~= mid + opt_str_member("template_name"@, template));
            }
        },
    }
    proof {
        lemma_object_model(m);
        assert(members_model(m@) =~= head + opt_str_member("text"@, text) + opt_str_member("template_name"@, template));
    }
    Ok(JsonValue::Object(m))
}

/// What `phone whatsapp message` reports.
pub fn whatsapp_message_result(recipient: &str, response: JsonValue) -> (r: JsonValue)
    ensures
        r.model() == Json::Obj(seq![("recipient"@, Json::Str(recipient@)), ("response"@, response.model())]),
{
    let mut m: Vec<(String, JsonValue)> = Vec::new();
    push_member(&mut m, "recipient", json_str(recipient));
    push_member(&mut m, "response", response);
    proof {
        lemma_object_model(m);
        assert(members_model(m@) =~= seq![("recipient"@, Json::Str(recipient@)), ("response"@, response.model())]);
    }
    JsonValue::Object(m)
}

/// The outbound WhatsApp call body.
pub fn whatsapp_call_body(agent_id: &str, whatsapp_account: &str, recipient: &str) -> (r: JsonValue)
    ensures
        r.model() == Json::Obj(
            seq![
                ("agent_id"@, Json::Str(agent_id@)),
                ("whatsapp_account_id"@, Json::Str(whatsapp_account@)),
                ("recipient_phone_number"@, Json::Str(recipient@)),
            ],
        ),
{
    let mut m: Vec<(String, JsonValue)> = Vec::new();
    push_member(&mut m, "agent_id", json_str(agent_id));
    push_member(&mut m, "whatsapp_account_id", json_str(whatsapp_account));
    push_member(&mut m, "recipient_phone_number", json_str(recipient));
    proof {
        lemma_object_model(m);
        assert(members_model(m@) =~= seq![
            ("agent_id"@, Json::Str(agent_id@)),
            ("whatsapp_account_id"@, Json::Str(whatsapp_account@)),
            ("recipient_phone_number"@, Json::Str(recipient@)),
        ]);
    }
    JsonValue::Object(m)
}

/// What `phone whatsapp call` reports.
pub fn whatsapp_call_result(agent_id: &str, whatsapp_account: &str, recipient: &str, response: JsonValue) -> (r: JsonValue)
    ensures
        r.model() == Json::Obj(
            seq![
                ("agent_id"@, Json::Str(agent_id@)),
                ("whatsapp_account_id"@, Json::Str(whatsapp_account@)),
                ("recipient"@, Json::Str(recipient@)),
                ("response"@, response.model()),
            ],
        ),
{
    let mut m: Vec<(String, JsonValue)> = Vec::new();
    push_member(&mut m, "agent_id", json_str(agent_id));
    push_member(&mut m, "whatsapp_account_id", json_str(whatsapp_account));
    push_member(&mut m, "recipient", json_str(recipient));
    push_member(&mut m, "response", response);
    proof {
        lemma_object_model(m);
        assert(members_model(m@) =~= seq![
            ("agent_id"@, Json::Str(agent_id@)),
            ("whatsapp_account_id"@, Json::Str(whatsapp_account@)),
            ("recipient"@, Json::Str(recipient@)),
            ("response"@, response.model()),
        ]);
    }
    JsonValue::Object(m)
}

// ── Batch calls ─────────────────────────────────────────────────────────

/// The largest page the listing asks for.
pub const MAX_PAGE_SIZE: u32 = 100;

/// Query of `phone batch list`: the page size capped at 100, then the
/// cursor, status and agent filters, each only when given.
pub fn batch_list_query(page_size: Option<u32>, cursor: Option<String>, status: Option<String>, agent_id: Option<String>) -> (r: Vec<(String, String)>)
    ensures
        crate::dialogue::pairs_view(r@) == (match page_size {
            Some(ps) => seq![("page_size"@, decimal((if ps < 100 { ps } else { 100 }) as nat))],
            None => Seq::empty(),
        }) + opt_pair("cursor"@, cursor) + opt_pair("status"@, status) + opt_pair("agent_id"@, agent_id),
{
    let mut q: Vec<(String, String)> = Vec::new();
    if let Some(ps) = page_size {
        let capped = if ps < MAX_PAGE_SIZE { ps } else { MAX_PAGE_SIZE };
        q.push((String::from_str("page_size"), crate::text::decimal_string(capped as u64)));
    }
    let ghost q1 = q@;
    if let Some(c) = cursor {
        q.push((String::from_str("cursor"), c));
    }
    let ghost q2 = q@;
    if let Some(st) = status {
        q.push((String::from_str("status"), st));
    }
    let ghost q3 = q@;
    if let Some(a) = agent_id {
        q.push((String::from_str("agent_id"), a));
    }
    proof {
        assert(crate::dialogue::pairs_view(q@) =~= (match page_size {
            Some(ps) => seq![("page_size"@, decimal((if ps < 100 { ps } else { 100 }) as nat))],
            None => Seq::empty(),
        }) + opt_pair("cursor"@, cursor) + opt_pair("status"@, status) + opt_pair("agent_id"@, agent_id));
    }
    q
}

/// The batches of a listing: its `batch_calls` (or, when absent, `batches`)
/// array; else the listing itself when it is an array; else none.
pub open spec fn batch_list(v: JsonValue) -> Seq<JsonValue> {
    let named = match crate::json::field(v, "batch_calls"@) {
        Some(x) => Some(x),
        None => crate::json::field(v, "batches"@),
    };
    match named {
        Some(JsonValue::Array(a)) => a@,
        _ => match v {
            JsonValue::Array(a) => a@,
            _ => Seq::empty(),
        },
    }
}

/// The batches of a listing (`None` when there are none to show).
pub fn batch_items(v: &JsonValue) -> (r: Option<&Vec<JsonValue>>)
    ensures
        match r {
            Some(a) => a@ == batch_list(*v),
            None => batch_list(*v).len() == 0,
        },
{
    let named = match v.get("batch_calls") {
        Some(x) => Some(x),
        None => v.get("batches"),
    };
    match named {
        Some(JsonValue::Array(a)) => Some(a),
        _ => match v {
            JsonValue::Array(a) => Some(a),
            _ => None,
        },
    }
}

/// `b[a]`, or `b[alt]` when `b` has no `a`.
pub open spec fn first_field(b: JsonValue, a: Seq<char>, alt: Seq<char>) -> Option<JsonValue> {
    match crate::json::field(b, a) {
        Some(x) => Some(x),
        None => crate::json::field(b, alt),
    }
}

fn first_of<'a>(b: &'a JsonValue, a: &str, alt: &str) -> (r: Option<&'a JsonValue>)
    ensures
        match r {
            Some(x) => first_field(*b, a@, alt@) == Some(*x),
            None => first_field(*b, a@, alt@) is None,
        },
{
    match b.get(a) {
        Some(x) => Some(x),
        None => b.get(alt),
    }
}

/// The cells of one batch in the listing table: id, name, status, agent,
/// calls dispatched, calls completed, creation time.
pub open spec fn batch_row_model(b: JsonValue) -> Seq<Seq<char>> {
    seq![
        text_or_empty(first_field(b, "id"@, "batch_id"@)),
        text_or_empty(crate::json::field(b, "name"@)),
        text_or_empty(crate::json::field(b, "status"@)),
        text_or_empty(crate::json::field(b, "agent_id"@)),
        int_or_empty(first_field(b, "total_calls_dispatched"@, "total"@)),
        int_or_empty(first_field(b, "total_calls_completed"@, "completed"@)),
        int_or_empty(crate::json::field(b, "created_at_unix"@)),
    ]
}

/// The number a cell shows: the text of an integer number that fits in
/// `i64`, nothing for any other value.
pub open spec fn int_cell(v: JsonValue) -> Seq<char> {
    match v {
        JsonValue::Number(t) => if crate::json::i64_text(t@) {
            t@
        } else {
            Seq::empty()
        },
        _ => Seq::empty(),
    }
}

/// The text a cell shows: a string's text, nothing for any other value.
pub open spec fn text_cell(v: JsonValue) -> Seq<char> {
    match v {
        JsonValue::Str(s) => s@,
        _ => Seq::empty(),
    }
}

/// Where each cell of a batch row comes from. The id is `id`, or
/// `batch_id` when there is no `id`; the dispatched count is
/// `total_calls_dispatched`, or `total` when that is absent; the completed
/// count is `total_calls_completed`, or `completed` when that is absent (it
/// never reads the dispatched count); name, status, agent and creation time
/// are their own fields. A missing field shows nothing.
pub proof fn lemma_batch_row_cells(b: JsonValue)
    ensures
        ({
            let row = batch_row_model(b);
            let f = |k: Seq<char>| crate::json::field(b, k);
            &&& row.len() == 7
            &&& row[0] == (match f("id"@) {
                Some(v) => text_cell(v),
                None => match f("batch_id"@) {
                    Some(v) => text_cell(v),
                    None => Seq::empty(),
                },
            })
            &&& row[1] == (match f("name"@) {
                Some(v) => text_cell(v),
                None => Seq::empty(),
            })
            &&& row[2] == (match f("status"@) {
                Some(v) => text_cell(v),
                None => Seq::empty(),
            })
            &&& row[3] == (match f("agent_id"@) {
                Some(v) => text_cell(v),
                None => Seq::empty(),
            })
            &&& row[4] == (match f("total_calls_dispatched"@) {
                Some(v) => int_cell(v),
                None => match f("total"@) {
                    Some(v) => int_cell(v),
                    None => Seq::empty(),
                },
            })
            &&& row[5] == (match f("total_calls_completed"@) {
                Some(v) => int_cell(v),
                None => match f("completed"@) {
                    Some(v) => int_cell(v),
                    None => Seq::empty(),
                },
            })
            &&& row[6] == (match f("created_at_unix"@) {
                Some(v) => int_cell(v),
                None => Seq::empty(),
            })
        }),
{
}

pub open spec fn strings_view(v: Seq<String>) -> Seq<Seq<char>> {
    v.map_values(|s: String| s@)
}

/// The table cells of one batch.
pub fn batch_row(b: &JsonValue) -> (r: Vec<String>)
    ensures
        strings_view(r@) == batch_row_model(*b),
{
    let mut row: Vec<String> = Vec::new();
    row.push(text_of(first_of(b, "id", "batch_id")));
    row.push(text_of(b.get("name")));
    row.push(text_of(b.get("status")));
    row.push(text_of(b.get("agent_id")));
    row.push(int_of(first_of(b, "total_calls_dispatched", "total")));
    row.push(int_of(first_of(b, "total_calls_completed", "completed")));
    row.push(int_of(b.get("created_at_unix")));
    proof {
        assert(strings_view(row@) =~= batch_row_model(*b));
    }
    row
}

/// The cursor of the next page, when the listing has a non-empty one.
pub fn next_cursor(v: &JsonValue) -> (r: Option<String>)
    ensures
        match str_field(*v, "next_cursor"@) {
            Some(c) => if c.len() > 0 {
                r matches Some(x) && x@ == c
            } else {
                r is None
            },
            None => r is None,
        },
{
    match v.get_str("next_cursor") {
        Some(c) => if c.unicode_len() > 0 {
            Some(String::from_str(c))
        } else {
            None
        },
        None => None,
    }
}

} // verus!
