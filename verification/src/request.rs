//! The rewriting of a request.
use crate::behaviour;
use crate::detect;
use crate::effort::Glm53Effort;
use crate::intent;
use crate::intent::Glm53ReasoningIntent;
use crate::json;
use crate::json::Json;
use crate::text;
use serde_json::Value;
use vstd::prelude::*;

verus! {

/// The members of a request without `output_config.effort`. An `output_config`
/// that holds nothing else goes with it.
pub open spec fn without_output_effort(fields: Map<Seq<char>, Json>) -> Map<Seq<char>, Json> {
    match Json::Object(fields).member("output_config"@) {
        Some(Json::Object(config)) => {
            let rest = config.remove("effort"@);
            if rest == json::no_fields() {
                fields.remove("output_config"@)
            } else {
                fields.insert("output_config"@, Json::Object(rest))
            }
        },
        _ => fields,
    }
}

/// A request without an `output_config` that is an empty object.
pub open spec fn without_empty_config(body: Json) -> Json {
    if body.member("output_config"@) == Some(Json::Object(json::no_fields())) {
        Json::Object(body.fields().remove("output_config"@))
    } else {
        body
    }
}

/// `thinking` as the API takes it: switched on and without a token budget. The
/// other members of an object stay.
pub open spec fn enabled_thinking(thinking: Option<Json>) -> Json {
    match thinking {
        Some(Json::Object(members)) => Json::Object(
            members.insert("type"@, Json::Text("enabled"@)).remove("budget_tokens"@),
        ),
        _ => json::text_object("type"@, "enabled"@),
    }
}

/// The members of a request with the top-level effort value, if there is a
/// tier, and without one otherwise.
pub open spec fn with_effort(
    fields: Map<Seq<char>, Json>,
    effort: Option<Glm53Effort>,
) -> Map<Seq<char>, Json> {
    match effort {
        Some(tier) => fields.insert("reasoning_effort"@, Json::Text(tier.word())),
        None => fields.remove("reasoning_effort"@),
    }
}

/// The members of a request for messages or chat completions, rewritten:
/// thinking switched on, the tier at the top level, and no other control.
pub open spec fn messages_fields(
    fields: Map<Seq<char>, Json>,
    effort: Option<Glm53Effort>,
) -> Map<Seq<char>, Json> {
    let thinking = enabled_thinking(Json::Object(fields).member("thinking"@));
    without_output_effort(
        with_effort(fields.insert("thinking"@, thinking), effort).remove("reasoning"@),
    )
}

/// The members of a request with the tier under `reasoning.effort`, if there
/// is one, and without an effort value there otherwise. The other members of
/// `reasoning` stay; without a tier, one that is null or holds nothing else
/// goes.
pub open spec fn with_reasoning(
    fields: Map<Seq<char>, Json>,
    effort: Option<Glm53Effort>,
) -> Map<Seq<char>, Json> {
    let reasoning = Json::Object(fields).member("reasoning"@);
    match (effort, reasoning) {
        (Some(tier), Some(Json::Object(members))) => fields.insert(
            "reasoning"@,
            Json::Object(members.insert("effort"@, Json::Text(tier.word()))),
        ),
        (Some(tier), _) => fields.insert("reasoning"@, json::text_object("effort"@, tier.word())),
        (None, Some(Json::Object(members))) => {
            let rest = members.remove("effort"@);
            if rest == json::no_fields() {
                fields.remove("reasoning"@)
            } else {
                fields.insert("reasoning"@, Json::Object(rest))
            }
        },
        (None, Some(Json::Null)) => fields.remove("reasoning"@),
        (None, _) => fields,
    }
}

/// The members of a request for responses, rewritten: the tier under
/// `reasoning.effort`, and no other control.
pub open spec fn responses_fields(
    fields: Map<Seq<char>, Json>,
    effort: Option<Glm53Effort>,
) -> Map<Seq<char>, Json> {
    with_reasoning(
        without_output_effort(fields.remove("thinking"@).remove("reasoning_effort"@)),
        effort,
    )
}

/// A request for responses, rewritten. Without a tier a value that is no
/// object has nothing to take out.
pub open spec fn responses_body(body: Json, effort: Option<Glm53Effort>) -> Json {
    if body is Object || effort is Some {
        Json::Object(responses_fields(body.fields(), effort))
    } else {
        body
    }
}

/// Whether a request is for GLM-5.3.
pub open spec fn targets_glm_5_3(body: Json) -> bool {
    match json::text_of(body.member("model"@)) {
        Some(model) => detect::names_glm_5_3(model),
        None => false,
    }
}

/// Whether a request has the shape of messages or chat completions.
pub open spec fn has_messages(body: Json) -> bool {
    body.member("messages"@) is Some
}

/// Whether a request has a member that only the responses API knows.
pub open spec fn has_response_input(body: Json) -> bool {
    ||| body.member("input"@) is Some
    ||| body.member("instructions"@) is Some
    ||| body.member("reasoning"@) is Some
}

/// The intent that a request is to be rewritten to, if it is for GLM-5.3, has
/// a known shape and anybody asked for reasoning.
pub open spec fn due_intent(
    body: Json,
    original: Option<Glm53ReasoningIntent>,
) -> Option<Glm53ReasoningIntent> {
    if targets_glm_5_3(body) && (has_messages(body) || has_response_input(body)) {
        intent::merged(intent::captured(body), original)
    } else {
        None
    }
}

/// A request on a direct gateway as it is sent.
pub open spec fn normalized(body: Json, original: Option<Glm53ReasoningIntent>) -> Json {
    match due_intent(body, original) {
        Some(intent) => if has_messages(body) {
            Json::Object(messages_fields(body.fields(), intent.effort))
        } else {
            Json::Object(responses_fields(body.fields(), intent.effort))
        },
        None => body,
    }
}

/// The keys that a rewrite touches differ from each other.
pub(crate) proof fn lemma_keys()
    ensures
        "thinking"@ != "reasoning_effort"@,
        "thinking"@ != "reasoning"@,
        "thinking"@ != "output_config"@,
        "reasoning_effort"@ != "reasoning"@,
        "reasoning_effort"@ != "output_config"@,
        "reasoning"@ != "output_config"@,
        "type"@ != "budget_tokens"@,
{
    reveal_strlit("thinking");
    assert("thinking"@.len() == 8);
    reveal_strlit("reasoning_effort");
    assert("reasoning_effort"@.len() == 16);
    reveal_strlit("reasoning");
    assert("reasoning"@.len() == 9);
    reveal_strlit("output_config");
    assert("output_config"@.len() == 13);
    reveal_strlit("type");
    assert("type"@.len() == 4);
    reveal_strlit("budget_tokens");
    assert("budget_tokens"@.len() == 13);
}

/// Setting a member changes nothing iff it stands there already, and taking
/// one out changes nothing iff it is not there.
pub(crate) proof fn lemma_same_fields(fields: Map<Seq<char>, Json>, key: Seq<char>, value: Json)
    ensures
        fields.insert(key, value) == fields <==> Json::Object(fields).member(key) == Some(value),
        fields.remove(key) == fields <==> Json::Object(fields).member(key) is None,
{
    if Json::Object(fields).member(key) == Some(value) {
        assert(fields.insert(key, value) =~= fields);
    } else {
        assert(fields.insert(key, value).contains_key(key));
        assert(fields.insert(key, value)[key] == value);
    }
    if Json::Object(fields).member(key) is None {
        assert(fields.remove(key) =~= fields);
    } else {
        assert(!fields.remove(key).contains_key(key));
    }
}

/// Taking `output_config.effort` out touches no other member, and comes to no
/// more than taking an empty `output_config` out iff it was not there.
pub(crate) proof fn lemma_output_effort(fields: Map<Seq<char>, Json>)
    ensures
        forall|key: Seq<char>|
            key != "output_config"@ ==> #[trigger] Json::Object(
                without_output_effort(fields),
            ).member(key) == Json::Object(fields).member(key),
        forall|key: Seq<char>|
            key != "output_config"@ ==> #[trigger] without_empty_config(
                Json::Object(fields),
            ).member(key) == Json::Object(fields).member(key),
        Json::Object(without_output_effort(fields)) == without_empty_config(Json::Object(fields))
            <==> Json::Object(fields).path("output_config"@, "effort"@) is None,
{
    let body = Json::Object(fields);
    if let Some(Json::Object(config)) = body.member("output_config"@) {
        let rest = config.remove("effort"@);
        lemma_same_fields(config, "effort"@, Json::Null);
        lemma_same_fields(fields, "output_config"@, Json::Object(rest));
        if config.contains_key("effort"@) {
            assert(config != json::no_fields());
            if rest == json::no_fields() {
                assert(fields.remove("output_config"@) != fields);
            } else {
                assert(fields.insert("output_config"@, Json::Object(rest)) != fields);
            }
        }
    }
}

/// Takes a member out of a request.
fn take_member(body: &mut Value, key: &str) -> (changed: bool)
    ensures
        json::json(*final(body)) == match json::json(*old(body)) {
            Json::Object(fields) => Json::Object(fields.remove(key@)),
            other => other,
        },
        changed == (json::json(*final(body)) != json::json(*old(body))),
{
    proof {
        lemma_same_fields(json::json(*body).fields(), key@, Json::Null);
    }
    match body.as_object_mut() {
        Some(object) => json::map_remove(object, key).is_some(),
        None => false,
    }
}

/// Takes `output_config.effort` out, and an `output_config` that holds nothing
/// else. An `output_config` that was empty before goes too, and does not count
/// as a change.
fn remove_output_config_effort(body: &mut Value) -> (changed: bool)
    ensures
        json::json(*final(body)) == match json::json(*old(body)) {
            Json::Object(fields) => Json::Object(without_output_effort(fields)),
            other => other,
        },
        changed == (json::json(*old(body)).path("output_config"@, "effort"@) is Some),
{
    let mut changed = false;
    let mut empty_after = false;
    let ghost before = json::json(*body);
    match json::get_object_mut(body, "output_config") {
        Some(config) => {
            changed = json::map_remove(config, "effort").is_some();
            empty_after = config.is_empty();
        },
        None => {},
    }
    proof {
        if empty_after {
            assert(json::json(*body).fields().remove("output_config"@) =~= before.fields().remove(
                "output_config"@,
            ));
        }
    }
    if empty_after {
        take_member(body, "output_config");
    }
    changed
}

/// Switches `thinking` on and takes its token budget out.
fn enable_thinking(body: &mut Value) -> (changed: bool)
    requires
        json::json(*old(body)) is Object || json::json(*old(body)) is Null,
    ensures
        json::json(*final(body)) == Json::Object(
            json::json(*old(body)).fields().insert(
                "thinking"@,
                enabled_thinking(json::json(*old(body)).member("thinking"@)),
            ),
        ),
        changed == (json::json(*final(body)) != json::json(*old(body))),
{
    let ghost before = json::json(*body);
    let ghost wanted = enabled_thinking(before.member("thinking"@));
    proof {
        lemma_keys();
        lemma_same_fields(before.fields(), "thinking"@, wanted);
    }
    match json::get_object_mut(body, "thinking") {
        Some(thinking) => {
            let mut changed = false;
            let ghost members = json::entries(*thinking);
            let ghost switched = members.insert("type"@, Json::Text("enabled"@));
            proof {
                lemma_same_fields(members, "type"@, Json::Text("enabled"@));
                lemma_same_fields(switched, "budget_tokens"@, Json::Null);
                if Json::Object(members).member("type"@) != Some(Json::Text("enabled"@)) {
                    let last = switched.remove("budget_tokens"@);
                    assert(last.contains_key("type"@));
                    assert(last["type"@] == Json::Text("enabled"@));
                }
            }
            let switched_on = match json::map_get(thinking, "type") {
                Some(kind) => match kind.as_str() {
                    Some(word) => text::same_text(word, "enabled"),
                    None => false,
                },
                None => false,
            };
            if !switched_on {
                thinking.insert("type".to_owned(), json::text_value("enabled"));
                changed = true;
            }
            // The tiers take the place of a token budget.
            if json::map_remove(thinking, "budget_tokens").is_some() {
                changed = true;
            }
            changed
        },
        None => {
            json::value_set(body, "thinking", json::new_text_object("type", "enabled"));
            true
        },
    }
}

/// Sets the top-level effort value to the tier, or takes it out where there is
/// none.
fn set_effort(body: &mut Value, effort: Option<Glm53Effort>) -> (changed: bool)
    requires
        json::json(*old(body)) is Object,
    ensures
        json::json(*final(body)) == Json::Object(
            with_effort(json::json(*old(body)).fields(), effort),
        ),
        changed == (json::json(*final(body)) != json::json(*old(body))),
{
    match effort {
        Some(tier) => {
            proof {
                lemma_same_fields(
                    json::json(*body).fields(),
                    "reasoning_effort"@,
                    Json::Text(tier.word()),
                );
            }
            let word = tier.as_str();
            let same = match json::get_text(body, "reasoning_effort") {
                Some(existing) => text::same_text(existing, word),
                None => false,
            };
            if same {
                false
            } else {
                json::value_set(body, "reasoning_effort", json::text_value(word));
                true
            }
        },
        None => take_member(body, "reasoning_effort"),
    }
}

/// Rewrites a request for messages or chat completions. It reports whether
/// anything changed but an `output_config` that was empty before.
fn apply_messages_intent(body: &mut Value, intent: Glm53ReasoningIntent) -> (changed: bool)
    requires
        json::json(*old(body)) is Object || json::json(*old(body)) is Null,
    ensures
        json::json(*final(body)) == Json::Object(
            messages_fields(json::json(*old(body)).fields(), intent.effort),
        ),
        changed == (json::json(*final(body)) != without_empty_config(json::json(*old(body)))),
{
    let ghost before = json::json(*body);
    let thinking_changed = enable_thinking(body);
    let ghost enabled = json::json(*body);
    let effort_changed = set_effort(body, intent.effort);
    let ghost tiered = json::json(*body);
    // Messages and chat requests never carry the object of the responses API.
    let reasoning_changed = take_member(body, "reasoning");
    let ghost single = json::json(*body);
    let config_changed = remove_output_config_effort(body);
    proof {
        lemma_keys();
        lemma_output_effort(single.fields());
        if before is Object {
            lemma_output_effort(before.fields());
        }
        let after = json::json(*body);
        let base = without_empty_config(before);
        if thinking_changed {
            assert(after.member("thinking"@) == enabled.member("thinking"@));
            if before is Object {
                lemma_same_fields(before.fields(), "thinking"@, enabled.fields()["thinking"@]);
                assert(base.member("thinking"@) == before.member("thinking"@));
            }
        } else if effort_changed {
            assert(after.member("reasoning_effort"@) == tiered.member("reasoning_effort"@));
            assert(base.member("reasoning_effort"@) == before.member("reasoning_effort"@));
            lemma_same_fields(
                before.fields(),
                "reasoning_effort"@,
                tiered.fields()["reasoning_effort"@],
            );
        } else if reasoning_changed {
            assert(after.member("reasoning"@) is None);
            assert(base.member("reasoning"@) == before.member("reasoning"@));
            lemma_same_fields(before.fields(), "reasoning"@, Json::Null);
        }
    }
    thinking_changed || effort_changed || reasoning_changed || config_changed
}

/// Sets `reasoning.effort` to the tier, or takes it out where there is none.
fn set_reasoning(body: &mut Value, effort: Option<Glm53Effort>) -> (changed: bool)
    requires
        effort is Some ==> json::json(*old(body)) is Object || json::json(*old(body)) is Null,
    ensures
        json::json(*final(body)) == if json::json(*old(body)) is Object || effort is Some {
            Json::Object(with_reasoning(json::json(*old(body)).fields(), effort))
        } else {
            json::json(*old(body))
        },
        changed == (json::json(*final(body)) != json::json(*old(body))),
{
    let ghost fields = json::json(*body).fields();
    proof {
        lemma_same_fields(fields, "reasoning"@, with_reasoning(fields, effort)["reasoning"@]);
        lemma_same_fields(fields, "reasoning"@, fields["reasoning"@]);
        assert forall|value: Json|
            #[trigger] fields.insert("reasoning"@, value).remove("reasoning"@) == fields.remove(
                "reasoning"@,
            ) by {
            assert(fields.insert("reasoning"@, value).remove("reasoning"@) =~= fields.remove(
                "reasoning"@,
            ));
        }
    }
    match effort {
        Some(tier) => {
            let word = tier.as_str();
            match json::get_object_mut(body, "reasoning") {
                Some(members) => {
                    proof {
                        lemma_same_fields(
                            json::entries(*members),
                            "effort"@,
                            Json::Text(tier.word()),
                        );
                    }
                    let same = match json::map_get(members, "effort") {
                        Some(existing) => match existing.as_str() {
                            Some(text) => text::same_text(text, word),
                            None => false,
                        },
                        None => false,
                    };
                    if same {
                        false
                    } else {
                        members.insert("effort".to_owned(), json::text_value(word));
                        true
                    }
                },
                None => {
                    json::value_set(body, "reasoning", json::new_text_object("effort", word));
                    true
                },
            }
        },
        None => {
            let mut changed = false;
            let mut remove_reasoning = false;
            match json::value_get_mut(body, "reasoning") {
                Some(value) => {
                    if value.is_null() {
                        remove_reasoning = true;
                    } else {
                        match value.as_object_mut() {
                            Some(members) => {
                                proof {
                                    lemma_same_fields(
                                        json::entries(*members),
                                        "effort"@,
                                        Json::Null,
                                    );
                                }
                                changed = json::map_remove(members, "effort").is_some();
                                remove_reasoning = members.is_empty();
                            },
                            None => {},
                        }
                    }
                },
                None => {},
            }
            if remove_reasoning {
                take_member(body, "reasoning");
                changed = true;
            }
            changed
        },
    }
}

/// Rewrites a request for responses. It reports whether anything changed but
/// an `output_config` that was empty before.
fn apply_responses_intent(body: &mut Value, intent: Glm53ReasoningIntent) -> (changed: bool)
    requires
        intent.effort is Some ==> json::json(*old(body)) is Object || json::json(
            *old(body),
        ) is Null,
    ensures
        json::json(*final(body)) == responses_body(json::json(*old(body)), intent.effort),
        changed == (json::json(*final(body)) != without_empty_config(json::json(*old(body)))),
{
    let ghost before = json::json(*body);
    let thinking_changed = take_member(body, "thinking");
    let effort_changed = take_member(body, "reasoning_effort");
    let ghost bare = json::json(*body);
    let config_changed = remove_output_config_effort(body);
    let ghost clean = json::json(*body);
    let reasoning_changed = set_reasoning(body, intent.effort);
    proof {
        lemma_keys();
        lemma_output_effort(bare.fields());
        lemma_output_effort(before.fields());
        let after = json::json(*body);
        if before is Object {
            if thinking_changed {
                assert(after.member("thinking"@) is None);
                lemma_same_fields(before.fields(), "thinking"@, Json::Null);
            } else if effort_changed {
                assert(after.member("reasoning_effort"@) is None);
                lemma_same_fields(before.fields(), "reasoning_effort"@, Json::Null);
            } else if config_changed {
                assert(after.member("output_config"@) == clean.member("output_config"@));
            }
        } else {
            assert(json::no_fields().remove("thinking"@).remove("reasoning_effort"@)
                =~= json::no_fields());
        }
    }
    thinking_changed || effort_changed || config_changed || reasoning_changed
}

/// Rewrites a request on a direct gateway, where it is for GLM-5.3.
///
/// `original_intent` is what the client asked for before the request was
/// converted to its wire format. It gives back a tier that a converter which
/// knows only a switch has dropped.
pub fn normalize_glm_5_3_request(
    body: &mut Value,
    original_intent: Option<Glm53ReasoningIntent>,
) -> (changed: bool)
    ensures
        json::json(*final(body)) == normalized(json::json(*old(body)), original_intent),
        due_intent(json::json(*old(body)), original_intent) is None ==> *final(body) == *old(body),
        changed == (due_intent(json::json(*old(body)), original_intent) is Some && json::json(
            *final(body),
        ) != without_empty_config(json::json(*old(body)))),
        changed == !(forall|key: Seq<char>|
            #[trigger] json::json(*final(body)).member(key) == json::json(*old(body)).member(key)
                || (key == "output_config"@ && json::json(*old(body)).member(key) == Some(
                Json::Object(Map::<Seq<char>, Json>::empty()),
            ))),
        !(json::json(*old(body)).member("model"@) matches Some(Json::Text(model))
            && detect::names_glm_5_3(model)) ==> *final(body) == *old(body),
{
    proof {
        behaviour::law_report_is_about_members(json::json(*body), original_intent);
    }
    let targeted = match json::get_text(body, "model") {
        Some(model) => detect::is_glm_5_3_model(model),
        None => false,
    };
    if !targeted {
        return false;
    }
    match intent::merge_intent(intent::capture_glm_5_3_reasoning_intent(body), original_intent) {
        Some(intent) => {
            if json::value_get(body, "messages").is_some() {
                apply_messages_intent(body, intent)
            } else if json::value_get(body, "input").is_some() || json::value_get(
                body,
                "instructions",
            ).is_some() || json::value_get(body, "reasoning").is_some() {
                apply_responses_intent(body, intent)
            } else {
                // Another wire format must not get fields of the responses API.
                false
            }
        },
        // Nobody asked for anything: the default of the API holds.
        None => false,
    }
}

/// Rewrites an outbound request for GLM-5.3 on one of Zhipu's own endpoints,
/// and leaves every other request as it is. It reports whether anything
/// changed but an `output_config` that was empty before.
pub fn normalize_direct_zhipu_glm_5_3_request(
    base_url: &str,
    body: &mut Value,
    original_intent: Option<Glm53ReasoningIntent>,
) -> (changed: bool)
    ensures
        detect::direct_gateway(base_url@) ==> {
            &&& json::json(*final(body)) == normalized(json::json(*old(body)), original_intent)
            &&& due_intent(json::json(*old(body)), original_intent) is None ==> *final(body)
                == *old(body)
            &&& changed == (due_intent(json::json(*old(body)), original_intent) is Some
                && json::json(*final(body)) != without_empty_config(json::json(*old(body))))
        },
        !detect::direct_gateway(base_url@) ==> !changed && *final(body) == *old(body),
        changed == !(forall|key: Seq<char>|
            #[trigger] json::json(*final(body)).member(key) == json::json(*old(body)).member(key)
                || (key == "output_config"@ && json::json(*old(body)).member(key) == Some(
                Json::Object(Map::<Seq<char>, Json>::empty()),
            ))),
        !(json::json(*old(body)).member("model"@) matches Some(Json::Text(model))
            && detect::names_glm_5_3(model)) ==> *final(body) == *old(body),
{
    if !detect::is_direct_zhipu_gateway(base_url) {
        return false;
    }
    normalize_glm_5_3_request(body, original_intent)
}

} // verus!
