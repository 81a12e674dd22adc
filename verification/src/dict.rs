//! Pronunciation-dictionary rules given on the command line.
//!
//! `--rule WORD:PHONEME` becomes a phoneme rule (IPA alphabet) and
//! `--alias-rule WORD:ALIAS` an alias rule. The value is split on its FIRST
//! `:` only, so phonemes that contain colons survive intact.

use vstd::prelude::*;

use crate::error::AppError;
use crate::dialogue::{opt_member, push_opt_member, str_of};
use crate::json::{
    items_model, json_str, lemma_array_model, lemma_object_model, member, members_model, push_member, Json, JsonValue,
};
use crate::text::{cat, split_once, split_once_char, trim, trim_str};

verus! {

/// `e` is the member `k: "val"`.
pub open spec fn is_str_member(e: (String, JsonValue), k: Seq<char>, val: Seq<char>) -> bool {
    &&& e.0@ == k
    &&& (e.1 matches JsonValue::Str(s) && s@ == val)
}

/// `v` is `{"string_to_replace": word, "type": "phoneme", "phoneme": phoneme, "alphabet": "ipa"}`.
pub open spec fn is_phoneme_rule(v: JsonValue, word: Seq<char>, phoneme: Seq<char>) -> bool {
    v matches JsonValue::Object(m) && m@.len() == 4
        && is_str_member(m@[0], "string_to_replace"@, word)
        && is_str_member(m@[1], "type"@, "phoneme"@)
        && is_str_member(m@[2], "phoneme"@, phoneme)
        && is_str_member(m@[3], "alphabet"@, "ipa"@)
}

/// `v` is `{"string_to_replace": word, "type": "alias", "alias": alias}`.
pub open spec fn is_alias_rule(v: JsonValue, word: Seq<char>, alias: Seq<char>) -> bool {
    v matches JsonValue::Object(m) && m@.len() == 3
        && is_str_member(m@[0], "string_to_replace"@, word)
        && is_str_member(m@[1], "type"@, "alias"@)
        && is_str_member(m@[2], "alias"@, alias)
}

/// `r` is an `InvalidInput` error with exactly this message and no suggestion.
pub open spec fn is_bad_input<T>(r: Result<T, AppError>, msg: Seq<char>) -> bool {
    r matches Err(AppError::InvalidInput { msg: m, suggestion: None }) && m@ == msg
}

/// Which of the two rule flags a value came from.
#[derive(Debug, Clone)]
pub enum RuleKind {
    Phoneme,
    Alias,
}

pub open spec fn flag_name(kind: RuleKind) -> Seq<char> {
    match kind {
        RuleKind::Phoneme => "--rule"@,
        RuleKind::Alias => "--alias-rule"@,
    }
}

pub open spec fn value_name(kind: RuleKind) -> Seq<char> {
    match kind {
        RuleKind::Phoneme => "PHONEME"@,
        RuleKind::Alias => "ALIAS"@,
    }
}

/// Why a rule value is refused, if it is: no `:`, nothing before it, or
/// nothing after it (both sides are trimmed).
pub open spec fn rule_error(kind: RuleKind, raw: Seq<char>) -> Option<Seq<char>> {
    match split_once(raw, ':') {
        None => Some(match kind {
            RuleKind::Phoneme => "--rule must be WORD:PHONEME (got '"@ + raw
                + "'). Example: --rule tomato:təˈmɑːtoʊ"@,
            RuleKind::Alias => "--alias-rule must be WORD:ALIAS (got '"@ + raw
                + "'). Example: --alias-rule SCUBA:scoo-buh"@,
        }),
        Some((w, p)) => if trim(w).len() == 0 {
            Some(flag_name(kind) + " missing WORD before ':' (got '"@ + raw + "')"@)
        } else if trim(p).len() == 0 {
            Some(flag_name(kind) + " missing "@ + value_name(kind) + " after ':' (got '"@ + raw
                + "')"@)
        } else {
            None
        },
    }
}

/// The trimmed word and value of an accepted rule.
pub open spec fn rule_parts(raw: Seq<char>) -> (Seq<char>, Seq<char>) {
    match split_once(raw, ':') {
        Some((w, p)) => (trim(w), trim(p)),
        None => (Seq::empty(), Seq::empty()),
    }
}

/// `v` is the rule body of this kind for `raw`.
pub open spec fn is_rule_for(kind: RuleKind, raw: Seq<char>, v: JsonValue) -> bool {
    match kind {
        RuleKind::Phoneme => is_phoneme_rule(v, rule_parts(raw).0, rule_parts(raw).1),
        RuleKind::Alias => is_alias_rule(v, rule_parts(raw).0, rule_parts(raw).1),
    }
}

/// What parsing one rule value gives.
pub open spec fn rule_result_ok(kind: RuleKind, raw: Seq<char>, r: Result<JsonValue, AppError>) -> bool {
    match rule_error(kind, raw) {
        Some(msg) => is_bad_input(r, msg),
        None => r matches Ok(v) && is_rule_for(kind, raw, v),
    }
}

fn parse_any_rule(kind: RuleKind, raw: &str) -> (r: Result<JsonValue, AppError>)
    ensures
        rule_result_ok(kind, raw@, r),
{
    let (flag, vname): (&str, &str) = match kind {
        RuleKind::Phoneme => ("--rule", "PHONEME"),
        RuleKind::Alias => ("--alias-rule", "ALIAS"),
    };
    match split_once_char(raw, ':') {
        None => {
            let (head, tail): (&str, &str) = match kind {
                RuleKind::Phoneme => (
                    "--rule must be WORD:PHONEME (got '",
                    "'). Example: --rule tomato:təˈmɑːtoʊ",
                ),
                RuleKind::Alias => (
                    "--alias-rule must be WORD:ALIAS (got '",
                    "'). Example: --alias-rule SCUBA:scoo-buh",
                ),
            };
            let m = cat(cat(head, raw).as_str(), tail);
            Err(AppError::bad_input(m))
        },
        Some((w, p)) => {
            let word = trim_str(w);
            let value = trim_str(p);
            if word.unicode_len() == 0 {
                let m = cat(cat(cat(flag, " missing WORD before ':' (got '").as_str(), raw).as_str(), "')");
                Err(AppError::bad_input(m))
            } else if value.unicode_len() == 0 {
                let a = cat(cat(flag, " missing ").as_str(), vname);
                let m = cat(cat(cat(a.as_str(), " after ':' (got '").as_str(), raw).as_str(), "')");
                Err(AppError::bad_input(m))
            } else {
                let mut body: Vec<(String, JsonValue)> = Vec::new();
                body.push(member("string_to_replace", json_str(word)));
                match kind {
                    RuleKind::Phoneme => {
                        body.push(member("type", json_str("phoneme")));
                        body.push(member("phoneme", json_str(value)));
                        body.push(member("alphabet", json_str("ipa")));
                    },
                    RuleKind::Alias => {
                        body.push(member("type", json_str("alias")));
                        body.push(member("alias", json_str(value)));
                    },
                }
                Ok(JsonValue::Object(body))
            }
        },
    }
}

/// Only the first `:` splits a rule: for a word without colons, whatever
/// the value holds (colons included) survives, trimmed.
pub proof fn lemma_rule_value_keeps_colons(kind: RuleKind, word: Seq<char>, value: Seq<char>)
    requires
        !word.contains(':'),
        !crate::text::is_blank(word),
        !crate::text::is_blank(value),
    ensures
        rule_error(kind, word + ":"@ + value) is None,
        rule_parts(word + ":"@ + value) == (trim(word), trim(value)),
{
    reveal_strlit(":");
    assert(":"@ =~= seq![':']);
    crate::text::lemma_split_once_concat(word, ':', value);
}

/// `WORD:PHONEME` with a word free of colons and neither side blank gives
/// the phoneme rule that replaces the trimmed word with the trimmed
/// phoneme, in the IPA alphabet; `WORD:ALIAS` likewise gives the alias rule
/// that replaces the trimmed word with the trimmed alias.
pub proof fn lemma_rule_fields(kind: RuleKind, word: Seq<char>, value: Seq<char>, v: JsonValue)
    requires
        !word.contains(':'),
        !crate::text::is_blank(word),
        !crate::text::is_blank(value),
        rule_result_ok(kind, word + ":"@ + value, Ok(v)),
    ensures
        crate::json::str_field(v, "string_to_replace"@) == Some(trim(word)),
        kind is Phoneme ==> crate::json::str_field(v, "type"@) == Some("phoneme"@)
            && crate::json::str_field(v, "phoneme"@) == Some(trim(value))
            && crate::json::str_field(v, "alphabet"@) == Some("ipa"@),
        kind is Alias ==> crate::json::str_field(v, "type"@) == Some("alias"@)
            && crate::json::str_field(v, "alias"@) == Some(trim(value)),
{
    lemma_rule_value_keeps_colons(kind, word, value);
    reveal_strlit("string_to_replace");
    reveal_strlit("type");
    reveal_strlit("phoneme");
    reveal_strlit("alphabet");
    reveal_strlit("alias");
    assert("string_to_replace"@.len() == 17 && "type"@.len() == 4 && "phoneme"@.len() == 7);
    assert("alphabet"@.len() == 8 && "alias"@.len() == 5);
    if let JsonValue::Object(m) = v {
        let ms = m@;
        crate::json::lemma_lookup_at(ms, "string_to_replace"@, 0);
        crate::json::lemma_lookup_at(ms, "type"@, 1);
        match kind {
            RuleKind::Phoneme => {
                crate::json::lemma_lookup_at(ms, "phoneme"@, 2);
                crate::json::lemma_lookup_at(ms, "alphabet"@, 3);
            },
            RuleKind::Alias => {
                crate::json::lemma_lookup_at(ms, "alias"@, 2);
            },
        }
    }
}

/// Parses `WORD:PHONEME` into a phoneme rule body (IPA alphabet).
pub fn parse_rule(raw: &str) -> (r: Result<JsonValue, AppError>)
    ensures
        rule_result_ok(RuleKind::Phoneme, raw@, r),
{
    parse_any_rule(RuleKind::Phoneme, raw)
}

/// Parses `WORD:ALIAS` into an alias rule body.
pub fn parse_alias_rule(raw: &str) -> (r: Result<JsonValue, AppError>)
    ensures
        rule_result_ok(RuleKind::Alias, raw@, r),
{
    parse_any_rule(RuleKind::Alias, raw)
}

/// The message of the first refused value, if any.
pub open spec fn first_rule_error(kind: RuleKind, raws: Seq<String>) -> Option<Seq<char>>
    decreases raws.len(),
{
    if raws.len() == 0 {
        None
    } else {
        match rule_error(kind, raws[0]@) {
            Some(m) => Some(m),
            None => first_rule_error(kind, raws.drop_first()),
        }
    }
}

pub open spec fn no_rules_message() -> Seq<char> {
    "at least one --rule WORD:PHONEME or --alias-rule WORD:ALIAS is required"@
}

pub open spec fn no_rules_suggestion() -> Seq<char> {
    "elevenlabs dict add-rules NAME --rule word:phoneme  (repeat --rule or --alias-rule as needed)"@
}

proof fn lemma_first_rule_error_skip(kind: RuleKind, raws: Seq<String>, i: int)
    requires
        0 <= i < raws.len(),
        rule_error(kind, raws[i]@) is None,
    ensures
        first_rule_error(kind, raws.skip(i)) == first_rule_error(kind, raws.skip(i + 1)),
{
    assert(raws.skip(i)[0] == raws[i]);
    assert(raws.skip(i).drop_first() =~= raws.skip(i + 1));
}

/// Parses every value of one flag, in order, stopping at the first refusal.
fn parse_all(kind: RuleKind, raws: &Vec<String>, out: &mut Vec<JsonValue>) -> (r: Result<(), AppError>)
    ensures
        match first_rule_error(kind, raws@) {
            Some(msg) => is_bad_input(r, msg),
            None => r is Ok && final(out)@.len() == old(out)@.len() + raws@.len()
                && final(out)@.take(old(out)@.len() as int) == old(out)@
                && forall|i: int| 0 <= i < raws@.len()
                    ==> is_rule_for(kind, raws@[i]@, #[trigger] final(out)@[old(out)@.len() + i]),
        },
{
    let ghost start = out@;
    let mut i: usize = 0;
    proof {
        assert(raws@.skip(0) =~= raws@);
    }
    while i < raws.len()
        invariant
            0 <= i <= raws@.len(),
            first_rule_error(kind, raws@) == first_rule_error(kind, raws@.skip(i as int)),
            out@.len() == start.len() + i,
            out@.take(start.len() as int) == start,
            forall|k: int| 0 <= k < i ==> is_rule_for(kind, raws@[k]@, #[trigger] out@[start.len() + k]),
        decreases raws@.len() - i,
    {
        let one = match kind {
            RuleKind::Phoneme => parse_any_rule(RuleKind::Phoneme, raws[i].as_str()),
            RuleKind::Alias => parse_any_rule(RuleKind::Alias, raws[i].as_str()),
        };
        match one {
            Ok(v) => {
                proof {
                    lemma_first_rule_error_skip(kind, raws@, i as int);
                }
                let ghost before = out@;
                out.push(v);
                proof {
                    assert(out@.take(start.len() as int) =~= before.take(start.len() as int));
                    assert forall|k: int| 0 <= k < i + 1 implies is_rule_for(kind, raws@[k]@, #[trigger] out@[start.len() + k]) by {
                        if k < i {
                            assert(out@[start.len() + k] == before[start.len() + k]);
                        }
                    }
                }
            },
            Err(e) => {
                proof {
                    assert(raws@.skip(i as int)[0] == raws@[i as int]);
                }
                return Err(e);
            },
        }
        i = i + 1;
    }
    proof {
        assert(raws@.skip(i as int) =~= Seq::<String>::empty());
    }
    Ok(())
}

/// Collects the `--rule` values then the `--alias-rule` values into rule
/// bodies. At least one is required (the API refuses an empty rule list).
pub fn collect_rules(rules: Vec<String>, alias_rules: Vec<String>) -> (r: Result<Vec<JsonValue>, AppError>)
    ensures
        if rules@.len() == 0 && alias_rules@.len() == 0 {
            r matches Err(AppError::InvalidInput { msg, suggestion: Some(s) })
                && msg@ == no_rules_message() && s@ == no_rules_suggestion()
        } else {
            match first_rule_error(RuleKind::Phoneme, rules@) {
                Some(m) => is_bad_input(r, m),
                None => match first_rule_error(RuleKind::Alias, alias_rules@) {
                    Some(m) => is_bad_input(r, m),
                    None => r matches Ok(out) && out@.len() == rules@.len() + alias_rules@.len()
                        && (forall|i: int| 0 <= i < rules@.len()
                            ==> is_rule_for(RuleKind::Phoneme, rules@[i]@, #[trigger] out@[i]))
                        && (forall|j: int| 0 <= j < alias_rules@.len()
                            ==> is_rule_for(RuleKind::Alias, alias_rules@[j]@, #[trigger] out@[rules@.len() + j])),
                },
            }
        },
{
    if rules.len() == 0 && alias_rules.len() == 0 {
        return Err(AppError::bad_input_with(
            String::from_str("at least one --rule WORD:PHONEME or --alias-rule WORD:ALIAS is required"),
            String::from_str("elevenlabs dict add-rules NAME --rule word:phoneme  (repeat --rule or --alias-rule as needed)"),
        ));
    }
    let mut out: Vec<JsonValue> = Vec::new();
    let first = parse_all(RuleKind::Phoneme, &rules, &mut out);
    match first {
        Ok(()) => {},
        Err(e) => return Err(e),
    }
    let ghost mid = out@;
    proof {
        assert(first_rule_error(RuleKind::Phoneme, rules@) is None);
        assert forall|i: int| 0 <= i < rules@.len() implies is_rule_for(RuleKind::Phoneme, rules@[i]@, #[trigger] mid[i]) by {
            assert(mid[0 + i] == mid[i]);
        }
    }
    match parse_all(RuleKind::Alias, &alias_rules, &mut out) {
        Ok(()) => {},
        Err(e) => return Err(e),
    }
    proof {
        assert forall|i: int| 0 <= i < rules@.len() implies is_rule_for(RuleKind::Phoneme, rules@[i]@, #[trigger] out@[i]) by {
            assert(out@.take(mid.len() as int)[i] == mid[i]);
        }
    }
    Ok(out)
}

/// `str::split_once(':')`: the text before and after the first colon.
pub fn split_once_colon(s: &str) -> (r: Option<(&str, &str)>)
    ensures
        match r {
            Some((a, b)) => split_once(s@, ':') == Some((a@, b@)),
            None => split_once(s@, ':') is None,
        },
{
    split_once_char(s, ':')
}

/// The body that creates a dictionary from rules: its name and rules, then
/// the description and workspace access when given.
pub fn add_rules_body(
    name: &str,
    rules: Vec<JsonValue>,
    description: &Option<String>,
    workspace_access: &Option<String>,
) -> (r: JsonValue)
    ensures
        r.model() == Json::Obj(
            seq![("name"@, Json::Str(name@)), ("rules"@, Json::Arr(items_model(rules@)))] + opt_member(
                "description"@,
                str_of(*description),
            ) + opt_member("workspace_access"@, str_of(*workspace_access)),
        ),
{
    let mut m: Vec<(String, JsonValue)> = Vec::new();
    push_member(&mut m, "name", json_str(name));
    let ghost rm = items_model(rules@);
    proof {
        lemma_array_model(rules);
    }
    push_member(&mut m, "rules", JsonValue::Array(rules));
    let d = match description {
        Some(t) => Some(json_str(t.as_str())),
        None => None,
    };
    push_opt_member(&mut m, "description", d);
    let w = match workspace_access {
        Some(t) => Some(json_str(t.as_str())),
        None => None,
    };
    push_opt_member(&mut m, "workspace_access", w);
    proof {
        lemma_object_model(m);
        assert(members_model(m@) =~= seq![("name"@, Json::Str(name@)), ("rules"@, Json::Arr(rm))]
            + opt_member("description"@, str_of(*description)) + opt_member("workspace_access"@, str_of(*workspace_access)));
    }
    JsonValue::Object(m)
}

} // verus!
