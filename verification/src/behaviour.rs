//! What each operation does, told by the characters of its inputs and by the
//! members of the requests before and after.
use crate::detect;
use crate::effort;
use crate::effort::Glm53Effort;
use crate::intent;
use crate::intent::Glm53ReasoningIntent;
use crate::json;
use crate::json::Json;
use crate::laws;
use crate::request;
use crate::text;
use vstd::prelude::*;

verus! {

/// The words of the tiers are these three.
pub proof fn law_tier_words(tier: Glm53Effort)
    ensures
        tier == Glm53Effort::Low ==> tier.word() == seq!['l', 'o', 'w'],
        tier == Glm53Effort::High ==> tier.word() == seq!['h', 'i', 'g', 'h'],
        tier == Glm53Effort::Max ==> tier.word() == seq!['m', 'a', 'x'],
{
    laws::lemma_tier_words();
}

/// An effort value names a tier iff, trimmed and in lower case, it is one of
/// the words for that tier.
pub proof fn law_effort_values(value: Seq<char>)
    ensures
        ({
            let word = text::lowered(text::trimmed(value));
            &&& effort::effort_named(value) == Some(Glm53Effort::Low) <==> (word == "none"@ || word
                == "off"@ || word == "disabled"@ || word == "minimal"@ || word == "low"@)
            &&& effort::effort_named(value) == Some(Glm53Effort::High) <==> (word == "medium"@
                || word == "high"@)
            &&& effort::effort_named(value) == Some(Glm53Effort::Max) <==> (word == "xhigh"@ || word
                == "max"@ || word == "ultra"@)
        }),
{
    effort::lemma_words_differ();
}

/// A budget is low up to 2048 tokens, high up to 16384 and max above.
pub proof fn law_budget_bounds(budget: u64)
    ensures
        effort::budget_effort(budget) == Glm53Effort::Low <==> budget <= 2048,
        effort::budget_effort(budget) == Glm53Effort::High <==> 2048 < budget <= 16384,
        effort::budget_effort(budget) == Glm53Effort::Max <==> 16384 < budget,
{
}

/// A host is one of Zhipu's own iff it is, in lower case, one of these two.
pub proof fn law_zhipu_hosts(host: Seq<char>)
    ensures
        detect::zhipu_host(host) <==> text::lowered(host) == "api.z.ai"@ || text::lowered(host)
            == "open.bigmodel.cn"@,
{
}

/// A base URL is a direct gateway iff, trimmed, it is a URL with one of
/// Zhipu's own hosts.
pub proof fn law_direct_gateways(base_url: Seq<char>)
    ensures
        detect::direct_gateway(base_url) <==> (detect::url_host(text::trimmed(base_url)) matches Some(
            Some(host),
        ) && (text::lowered(host) == "api.z.ai"@ || text::lowered(host) == "open.bigmodel.cn"@)),
{
}

/// A name that is taken for GLM-5.3 is, trimmed and in lower case, a path that
/// is empty or ends in a slash, the seven characters of the model, and then
/// nothing or white space and one context marker. The path and the white space
/// are given back, with whether the marker is there.
pub proof fn law_model_names_hold_the_model(model: Seq<char>) -> (parts: (
    Seq<char>,
    Seq<char>,
    bool,
))
    requires
        detect::names_glm_5_3(model),
    ensures
        ({
            let (path, gap, marked) = parts;
            let name = path + seq!['g', 'l', 'm', '-', '5', '.', '3'];
            &&& path.len() > 0 ==> path.last() == '/'
            &&& forall|i: int| 0 <= i < gap.len() ==> text::is_white_space(#[trigger] gap[i])
            &&& marked ==> text::lowered(text::trimmed(model)) == name + gap + seq![
                '[',
                '1',
                'm',
                ']',
            ]
            &&& !marked ==> text::lowered(text::trimmed(model)) == name
        }),
{
    laws::lemma_marker();
    laws::lemma_model_word();
    let marker = detect::ONE_M_CONTEXT_MARKER@;
    let low = text::lowered(text::trimmed(model));
    let plain = detect::plain_name(model);
    let path = plain.take(plain.len() - 7);
    assert(plain =~= path + plain.subrange(plain.len() - 7, plain.len() as int));
    assert(plain == path + "glm-5.3"@);
    if path.len() > 0 {
        assert(path.last() == plain[plain.len() - 8]);
    }
    if marker.is_suffix_of(low) {
        let before = low.take(low.len() - 4);
        text::lemma_trimmed_end(before);
        let gap = before.skip(plain.len() as int);
        assert(low =~= before + low.subrange(low.len() - 4, low.len() as int));
        assert(before == plain + gap);
        (path, gap, true)
    } else {
        (path, Seq::empty(), false)
    }
}

/// Every such name is taken for GLM-5.3.
pub proof fn law_names_of_the_model_are_found(
    model: Seq<char>,
    path: Seq<char>,
    gap: Seq<char>,
    marked: bool,
)
    requires
        path.len() > 0 ==> path.last() == '/',
        forall|i: int| 0 <= i < gap.len() ==> text::is_white_space(#[trigger] gap[i]),
        marked ==> text::lowered(text::trimmed(model)) == path + seq![
            'g',
            'l',
            'm',
            '-',
            '5',
            '.',
            '3',
        ] + gap + seq!['[', '1', 'm', ']'],
        !marked ==> text::lowered(text::trimmed(model)) == path + seq![
            'g',
            'l',
            'm',
            '-',
            '5',
            '.',
            '3',
        ],
    ensures
        detect::names_glm_5_3(model),
{
    laws::lemma_marker();
    laws::lemma_model_word();
    let marker = detect::ONE_M_CONTEXT_MARKER@;
    let low = text::lowered(text::trimmed(model));
    let name = path + "glm-5.3"@;
    assert(name.last() == '3');
    assert(!text::is_white_space(name.last()));
    assert(text::trimmed_end(name) == name);
    assert(name.subrange(name.len() - 7, name.len() as int) =~= "glm-5.3"@);
    if marked {
        assert(low.subrange(low.len() - 4, low.len() as int) =~= marker);
        assert(low.take(low.len() - 4) =~= name + gap);
        text::lemma_trimmed_end_concat(name, gap);
    } else if marker.is_suffix_of(low) {
        assert(low.subrange(low.len() - 4, low.len() as int)[3] == low.last());
    }
}

/// A name without a slash, white space, capitals and brackets is taken for
/// GLM-5.3 iff it is exactly that.
pub proof fn law_bare_name_is_the_model(model: Seq<char>)
    requires
        forall|i: int|
            0 <= i < model.len() ==> #[trigger] model[i] != '/' && model[i] != ']'
                && !text::is_white_space(model[i]) && !('A' <= model[i] <= 'Z'),
    ensures
        detect::names_glm_5_3(model) <==> model == seq!['g', 'l', 'm', '-', '5', '.', '3'],
{
    text::lemma_lowered(model, model);
    assert(text::lowered(model) =~= model);
    assert(text::trimmed_end(model) == model);
    assert(text::trimmed_start(model) == model);
    if detect::names_glm_5_3(model) {
        let (path, gap, marked) = law_model_names_hold_the_model(model);
        if marked {
            assert(model.last() == ']');
            assert(model[model.len() - 1] == ']');
        }
        if path.len() > 0 {
            assert(model[path.len() - 1] == '/');
        }
        assert(path + seq!['g', 'l', 'm', '-', '5', '.', '3'] =~= seq![
            'g',
            'l',
            'm',
            '-',
            '5',
            '.',
            '3',
        ]);
    }
    if model == seq!['g', 'l', 'm', '-', '5', '.', '3'] {
        let none = Seq::<char>::empty();
        assert(model =~= none + seq!['g', 'l', 'm', '-', '5', '.', '3']);
        law_names_of_the_model_are_found(model, none, none, false);
    }
}

/// Thinking switched off, in any case, asks for the lowest tier, whatever else
/// is in the request.
pub proof fn law_disabled_thinking_counts_first(body: Json, kind: Seq<char>)
    requires
        body.path("thinking"@, "type"@) == Some(Json::Text(kind)),
        text::lowered(kind) == "disabled"@,
    ensures
        intent::captured(body) == Some(Glm53ReasoningIntent { effort: Some(Glm53Effort::Low) }),
{
}

/// Next comes the effort value at the top level, whatever else is there.
pub proof fn law_top_level_effort_counts_second(body: Json, value: Seq<char>)
    requires
        !(body.path("thinking"@, "type"@) matches Some(Json::Text(kind)) && text::lowered(kind)
            == "disabled"@),
        body.member("reasoning_effort"@) == Some(Json::Text(value)),
    ensures
        intent::captured(body) == Some(
            Glm53ReasoningIntent { effort: effort::effort_named(value) },
        ),
{
}

/// Next comes the effort value under `reasoning`.
pub proof fn law_reasoning_effort_counts_third(body: Json, value: Seq<char>)
    requires
        !(body.path("thinking"@, "type"@) matches Some(Json::Text(kind)) && text::lowered(kind)
            == "disabled"@),
        !(body.member("reasoning_effort"@) matches Some(Json::Text(_))),
        body.path("reasoning"@, "effort"@) == Some(Json::Text(value)),
    ensures
        intent::captured(body) == Some(
            Glm53ReasoningIntent { effort: effort::effort_named(value) },
        ),
{
}

/// Next comes `reasoning` set to null, which asks for the lowest tier.
pub proof fn law_null_reasoning_counts_fourth(body: Json)
    requires
        !(body.path("thinking"@, "type"@) matches Some(Json::Text(kind)) && text::lowered(kind)
            == "disabled"@),
        !(body.member("reasoning_effort"@) matches Some(Json::Text(_))),
        body.member("reasoning"@) == Some(Json::Null),
    ensures
        intent::captured(body) == Some(Glm53ReasoningIntent { effort: Some(Glm53Effort::Low) }),
{
}

/// Next comes the effort value of `output_config`, whatever the kind and the
/// budget of thinking.
pub proof fn law_output_config_effort_counts_fifth(body: Json, value: Seq<char>)
    requires
        !(body.path("thinking"@, "type"@) matches Some(Json::Text(kind)) && text::lowered(kind)
            == "disabled"@),
        !(body.member("reasoning_effort"@) matches Some(Json::Text(_))),
        !(body.path("reasoning"@, "effort"@) matches Some(Json::Text(_))),
        body.member("reasoning"@) != Some(Json::Null),
        body.path("output_config"@, "effort"@) == Some(Json::Text(value)),
    ensures
        intent::captured(body) == Some(
            Glm53ReasoningIntent { effort: effort::effort_named(value) },
        ),
{
}

/// Without any of these the kind of thinking counts. Adaptive thinking asks
/// for the highest tier, thinking switched on for the tier of its token budget
/// if that is an unsigned integer, and every other kind for no tier.
pub proof fn law_kind_of_thinking_counts_last(body: Json, kind: Seq<char>)
    requires
        body.path("thinking"@, "type"@) == Some(Json::Text(kind)),
        text::lowered(kind) != "disabled"@,
        !(body.member("reasoning_effort"@) matches Some(Json::Text(_))),
        !(body.path("reasoning"@, "effort"@) matches Some(Json::Text(_))),
        body.member("reasoning"@) != Some(Json::Null),
        !(body.path("output_config"@, "effort"@) matches Some(Json::Text(_))),
    ensures
        text::lowered(kind) == "adaptive"@ ==> intent::captured(body) == Some(
            Glm53ReasoningIntent { effort: Some(Glm53Effort::Max) },
        ),
        text::lowered(kind) == "enabled"@ ==> intent::captured(body) == Some(
            Glm53ReasoningIntent {
                effort: match body.path("thinking"@, "budget_tokens"@) {
                    Some(Json::Number(json::JsonNumber::Unsigned(budget))) => Some(
                        effort::budget_effort(budget),
                    ),
                    _ => None,
                },
            },
        ),
        text::lowered(kind) != "adaptive"@ && text::lowered(kind) != "enabled"@
            ==> intent::captured(body) == Some(Glm53ReasoningIntent { effort: None }),
{
    laws::lemma_enabled_word();
}

/// Without a kind of thinking either, a `reasoning` that is there asks for no
/// tier, and a request without it asks for nothing.
pub proof fn law_no_control_asks_for_nothing(body: Json)
    requires
        !(body.path("thinking"@, "type"@) matches Some(Json::Text(_))),
        !(body.member("reasoning_effort"@) matches Some(Json::Text(_))),
        !(body.path("reasoning"@, "effort"@) matches Some(Json::Text(_))),
        body.member("reasoning"@) != Some(Json::Null),
        !(body.path("output_config"@, "effort"@) matches Some(Json::Text(_))),
    ensures
        body.member("reasoning"@) is Some ==> intent::captured(body) == Some(
            Glm53ReasoningIntent { effort: None },
        ),
        body.member("reasoning"@) is None ==> intent::captured(body) is None,
{
}

/// A request for GLM-5.3 with messages, whatever else is in it, is sent with
/// thinking switched on and without a token budget, with the tier that is
/// asked for as its top-level effort value, without `reasoning`, and with
/// everything else as it was.
pub proof fn law_messages_member_by_member(
    body: Json,
    original: Option<Glm53ReasoningIntent>,
    model: Seq<char>,
    intent: Glm53ReasoningIntent,
    key: Seq<char>,
)
    requires
        body.member("model"@) == Some(Json::Text(model)),
        detect::names_glm_5_3(model),
        body.member("messages"@) is Some,
        intent::merged(intent::captured(body), original) == Some(intent),
    ensures
        ({
            let sent = request::normalized(body, original);
            &&& sent is Object
            &&& sent.member("thinking"@) matches Some(Json::Object(_))
            &&& sent.path("thinking"@, "type"@) == Some(Json::Text("enabled"@))
            &&& sent.path("thinking"@, "budget_tokens"@) is None
            &&& key != "type"@ && key != "budget_tokens"@ ==> sent.path("thinking"@, key)
                == body.path("thinking"@, key)
            &&& intent.effort matches Some(tier) ==> sent.member("reasoning_effort"@) == Some(
                Json::Text(tier.word()),
            )
            &&& intent.effort is None ==> sent.member("reasoning_effort"@) is None
            &&& sent.member("reasoning"@) is None
            &&& key != "thinking"@ && key != "reasoning_effort"@ && key != "reasoning"@ && key
                != "output_config"@ ==> sent.member(key) == body.member(key)
        }),
{
    laws::law_messages_are_legal(body, original, intent);
    if key != "type"@ && key != "budget_tokens"@ {
        laws::law_thinking_siblings_stay(body, original, key);
    }
    if !laws::is_control_key(key) {
        laws::law_other_members_stay(body, original, key);
    }
}

/// A request for GLM-5.3 without messages and with a member of the responses
/// API, whatever else is in it, is sent with the tier that is asked for under
/// `reasoning.effort`, without `thinking` and a top-level effort value, and
/// with everything else as it was. Without a tier, a `reasoning` that is null
/// or has no member but the effort value goes, and one that is neither an
/// object nor null stays.
pub proof fn law_responses_member_by_member(
    body: Json,
    original: Option<Glm53ReasoningIntent>,
    model: Seq<char>,
    intent: Glm53ReasoningIntent,
    key: Seq<char>,
)
    requires
        body.member("model"@) == Some(Json::Text(model)),
        detect::names_glm_5_3(model),
        body.member("messages"@) is None,
        body.member("input"@) is Some || body.member("instructions"@) is Some || body.member(
            "reasoning"@,
        ) is Some,
        intent::merged(intent::captured(body), original) == Some(intent),
    ensures
        ({
            let sent = request::normalized(body, original);
            &&& sent is Object
            &&& sent.member("thinking"@) is None
            &&& sent.member("reasoning_effort"@) is None
            &&& intent.effort matches Some(tier) ==> sent.path("reasoning"@, "effort"@) == Some(
                Json::Text(tier.word()),
            )
            &&& intent.effort is None ==> sent.path("reasoning"@, "effort"@) is None
            &&& key != "effort"@ ==> sent.path("reasoning"@, key) == body.path("reasoning"@, key)
            &&& intent.effort is None ==> match body.member("reasoning"@) {
                None => sent.member("reasoning"@) is None,
                Some(Json::Null) => sent.member("reasoning"@) is None,
                Some(Json::Object(_)) => sent.member("reasoning"@) is None || (sent.member(
                    "reasoning"@,
                ) matches Some(Json::Object(members)) && members != Map::<Seq<char>, Json>::empty()),
                Some(other) => sent.member("reasoning"@) == Some(other),
            }
            &&& key != "thinking"@ && key != "reasoning_effort"@ && key != "reasoning"@ && key
                != "output_config"@ ==> sent.member(key) == body.member(key)
        }),
{
    laws::law_responses_are_legal(body, original, intent);
    if key != "effort"@ {
        laws::law_reasoning_siblings_stay(body, original, key);
    }
    if !laws::is_control_key(key) {
        laws::law_other_members_stay(body, original, key);
    }
    let bare = body.fields().remove("thinking"@).remove("reasoning_effort"@);
    request::lemma_keys();
    request::lemma_output_effort(bare);
    assert(Json::Object(bare).member("reasoning"@) == body.member("reasoning"@));
}

/// In a rewritten request `output_config` loses its effort value and no other
/// member. One that is an object goes iff it has no other member; one that is
/// no object stays.
pub proof fn law_output_config_member_by_member(
    body: Json,
    original: Option<Glm53ReasoningIntent>,
    model: Seq<char>,
    intent: Glm53ReasoningIntent,
    key: Seq<char>,
)
    requires
        body.member("model"@) == Some(Json::Text(model)),
        detect::names_glm_5_3(model),
        body.member("messages"@) is Some || body.member("input"@) is Some || body.member(
            "instructions"@,
        ) is Some || body.member("reasoning"@) is Some,
        intent::merged(intent::captured(body), original) == Some(intent),
    ensures
        ({
            let sent = request::normalized(body, original);
            &&& sent.path("output_config"@, "effort"@) is None
            &&& key != "effort"@ ==> sent.path("output_config"@, key) == body.path(
                "output_config"@,
                key,
            )
            &&& match body.member("output_config"@) {
                Some(Json::Object(_)) => sent.member("output_config"@) is None || (sent.member(
                    "output_config"@,
                ) matches Some(Json::Object(members)) && members != Map::<Seq<char>, Json>::empty()),
                other => sent.member("output_config"@) == other,
            }
        }),
{
    if body.member("messages"@) is Some {
        laws::law_messages_are_legal(body, original, intent);
    } else {
        laws::law_responses_are_legal(body, original, intent);
    }
    if key != "effort"@ {
        laws::law_output_config_siblings_stay(body, original, key);
    }
    laws::lemma_output_config_kind(body, original);
}

/// A request that is not for GLM-5.3, one without any member that tells its
/// shape, and one for which nobody asked for reasoning are sent as they are.
pub proof fn law_every_other_request_stays(body: Json, original: Option<Glm53ReasoningIntent>)
    requires
        !(body.member("model"@) matches Some(Json::Text(model)) && detect::names_glm_5_3(model))
            || (body.member("messages"@) is None && body.member("input"@) is None && body.member(
            "instructions"@,
        ) is None && body.member("reasoning"@) is None) || intent::merged(
            intent::captured(body),
            original,
        ) is None,
    ensures
        request::due_intent(body, original) is None,
        request::normalized(body, original) == body,
{
}

/// A request for GLM-5.3 with messages that switches thinking off, whatever
/// else is in it and whatever was asked for at first, is sent with thinking
/// switched on and the lowest tier.
pub proof fn law_disabled_messages_are_sent_as_low(
    body: Json,
    original: Option<Glm53ReasoningIntent>,
    model: Seq<char>,
    kind: Seq<char>,
)
    requires
        body.member("model"@) == Some(Json::Text(model)),
        detect::names_glm_5_3(model),
        body.member("messages"@) is Some,
        body.path("thinking"@, "type"@) == Some(Json::Text(kind)),
        text::lowered(kind) == "disabled"@,
    ensures
        request::normalized(body, original).path("thinking"@, "type"@) == Some(
            Json::Text("enabled"@),
        ),
        request::normalized(body, original).member("reasoning_effort"@) == Some(
            Json::Text("low"@),
        ),
{
    let low = Glm53ReasoningIntent { effort: Some(Glm53Effort::Low) };
    law_disabled_thinking_counts_first(body, kind);
    law_messages_member_by_member(body, original, model, low, "model"@);
}

/// A request for GLM-5.3 without messages and with a member of the responses
/// API that asks for a tier, whatever else is in it and whatever was asked for
/// at first, is sent with that tier.
pub proof fn law_responses_send_the_captured_tier(
    body: Json,
    original: Option<Glm53ReasoningIntent>,
    model: Seq<char>,
    tier: Glm53Effort,
)
    requires
        body.member("model"@) == Some(Json::Text(model)),
        detect::names_glm_5_3(model),
        body.member("messages"@) is None,
        body.member("input"@) is Some || body.member("instructions"@) is Some || body.member(
            "reasoning"@,
        ) is Some,
        intent::captured(body) == Some(Glm53ReasoningIntent { effort: Some(tier) }),
    ensures
        request::normalized(body, original).path("reasoning"@, "effort"@) == Some(
            Json::Text(tier.word()),
        ),
{
    let asked = Glm53ReasoningIntent { effort: Some(tier) };
    law_responses_member_by_member(body, original, model, asked, "model"@);
}

/// What a rewrite reports is true of a request iff some member differs
/// afterwards, where an `output_config` that was an empty object is not looked
/// at.
pub proof fn law_report_is_about_members(body: Json, original: Option<Glm53ReasoningIntent>)
    ensures
        (request::due_intent(body, original) is Some && request::normalized(body, original)
            != request::without_empty_config(body)) <==> !(forall|key: Seq<char>|
            #[trigger] request::normalized(body, original).member(key) == body.member(key) || (key
                == "output_config"@ && body.member(key) == Some(
                Json::Object(Map::<Seq<char>, Json>::empty()),
            ))),
{
    let sent = request::normalized(body, original);
    let base = request::without_empty_config(body);
    let empty = Json::Object(Map::<Seq<char>, Json>::empty());
    if let Some(intent) = request::due_intent(body, original) {
        laws::lemma_output_config_kind(body, original);
        if request::has_messages(body) {
            laws::law_messages_are_legal(body, original, intent);
        } else {
            laws::law_responses_are_legal(body, original, intent);
        }
        request::lemma_output_effort(body.fields());
        if body.member("output_config"@) == Some(empty) {
            if let Some(Json::Object(members)) = sent.member("output_config"@) {
                assert forall|key: Seq<char>| !members.contains_key(key) by {
                    if key != "effort"@ {
                        laws::law_output_config_siblings_stay(body, original, key);
                        assert(body.path("output_config"@, key) is None);
                        assert(sent.path("output_config"@, key) is None);
                    } else {
                        assert(sent.path("output_config"@, "effort"@) is None);
                    }
                }
                assert(members =~= Map::<Seq<char>, Json>::empty());
            }
            assert(sent.member("output_config"@) is None);
            assert(base.member("output_config"@) is None);
        }
        if forall|key: Seq<char>| #[trigger]
            sent.member(key) == body.member(key) || (key == "output_config"@ && body.member(key)
                == Some(empty)) {
            assert forall|key: Seq<char>| #[trigger]
                Json::Object(sent.fields()).member(key) == Json::Object(base.fields()).member(
                    key,
                ) by {
                assert(sent.member(key) == body.member(key) || (key == "output_config"@
                    && body.member(key) == Some(empty)));
                if key != "output_config"@ {
                    assert(base.member(key) == body.member(key));
                }
            }
            laws::lemma_same_members(sent.fields(), base.fields());
        } else if sent == base {
            let key = choose|key: Seq<char>| !(#[trigger] sent.member(key) == body.member(key) || (
            key == "output_config"@ && body.member(key) == Some(empty)));
            if key != "output_config"@ {
                assert(base.member(key) == body.member(key));
            }
        }
    }
}

} // verus!
