//! What holds of the library as a whole.
use crate::detect;
use crate::effort;
use crate::effort::Glm53Effort;
use crate::intent;
use crate::intent::Glm53ReasoningIntent;
use crate::json;
use crate::json::Json;
use crate::request;
use crate::text;
use vstd::prelude::*;

verus! {

/// The word of a tier names that tier.
pub proof fn law_tier_words_name_themselves(tier: Glm53Effort)
    ensures
        effort::effort_named(tier.word()) == Some(tier),
{
    let word = tier.word();
    lemma_tier_words();
    text::lemma_trimmed_end(word);
    text::lemma_trimmed_start(word);
    assert(text::trimmed(word) == word);
    text::lemma_lowered(word, word);
    assert(text::lowered(word) =~= word);
}

/// The letters of the tier words and of the words beside them.
pub(crate) proof fn lemma_tier_words()
    ensures
        "low"@ == seq!['l', 'o', 'w'],
        "high"@ == seq!['h', 'i', 'g', 'h'],
        "max"@ == seq!['m', 'a', 'x'],
        effort::effort_word("low"@) == Some(Glm53Effort::Low),
        effort::effort_word("high"@) == Some(Glm53Effort::High),
        effort::effort_word("max"@) == Some(Glm53Effort::Max),
{
    reveal_strlit("low");
    reveal_strlit("high");
    reveal_strlit("max");
    reveal_strlit("none");
    reveal_strlit("off");
    reveal_strlit("disabled");
    reveal_strlit("minimal");
    reveal_strlit("medium");
    reveal_strlit("xhigh");
    assert("low"@ =~= seq!['l', 'o', 'w']);
    assert("high"@ =~= seq!['h', 'i', 'g', 'h']);
    assert("max"@ =~= seq!['m', 'a', 'x']);
    assert("none"@[0] == 'n');
    assert("off"@[0] == 'o');
    assert("disabled"@[0] == 'd');
    assert("minimal"@[1] == 'i');
    assert("medium"@[1] == 'e');
}

/// Neither case nor white space at the ends matters to an effort value.
pub proof fn law_effort_ignores_case_and_space(
    value: Seq<char>,
    other: Seq<char>,
    before: Seq<char>,
    after: Seq<char>,
)
    requires
        text::lowered(value) == text::lowered(other),
        text::is_blank(before),
        text::is_blank(after),
    ensures
        effort::effort_named(before + value + after) == effort::effort_named(other),
{
    lemma_padding(before, value, after);
    text::lemma_trimmed(value);
    text::lemma_trimmed(other);
}

/// Trimming takes off white space that was put round a string.
proof fn lemma_padding(before: Seq<char>, value: Seq<char>, after: Seq<char>)
    requires
        text::is_blank(before),
        text::is_blank(after),
    ensures
        text::trimmed(before + value + after) == text::trimmed(value),
{
    text::lemma_trimmed_end_concat(before + value, after);
    text::lemma_trimmed(before + value);
    text::lemma_trimmed(value);
    text::lemma_trimmed_start_concat(before, value);
}

/// The larger a token budget, the higher its tier.
pub proof fn law_budget_order(smaller: u64, larger: u64)
    requires
        smaller <= larger,
    ensures
        effort::budget_effort(smaller).rank() <= effort::budget_effort(larger).rank(),
{
}

/// A tier of the outbound request holds whatever was asked for at first; an
/// outbound request without a tier gets the first one; without any outbound
/// control the first request holds as it was.
pub proof fn law_merge(
    outbound: Option<Glm53ReasoningIntent>,
    original: Option<Glm53ReasoningIntent>,
)
    ensures
        outbound is Some && outbound->0.effort is Some ==> intent::merged(outbound, original)
            == outbound,
        outbound is Some && outbound->0.effort is None && original is Some ==> intent::merged(
            outbound,
            original,
        ) == original,
        outbound is None ==> intent::merged(outbound, original) == original,
        original is None ==> intent::merged(outbound, original) == outbound,
{
}

/// Of several intents in a row it does not matter which two are joined first,
/// and one joined with itself stays.
pub proof fn law_merge_chains(
    outbound: Option<Glm53ReasoningIntent>,
    middle: Option<Glm53ReasoningIntent>,
    original: Option<Glm53ReasoningIntent>,
)
    ensures
        intent::merged(intent::merged(outbound, middle), original) == intent::merged(
            outbound,
            intent::merged(middle, original),
        ),
        intent::merged(outbound, outbound) == outbound,
{
}

/// White space round a base URL does not matter.
pub proof fn law_gateway_ignores_space(url: Seq<char>, before: Seq<char>, after: Seq<char>)
    requires
        text::is_blank(before),
        text::is_blank(after),
    ensures
        detect::direct_gateway(before + url + after) == detect::direct_gateway(url),
{
    lemma_padding(before, url, after);
}

/// The case of a host does not matter.
pub proof fn law_host_ignores_case(host: Seq<char>, other: Seq<char>)
    requires
        text::lowered(host) == text::lowered(other),
    ensures
        detect::zhipu_host(host) == detect::zhipu_host(other),
{
}

/// A host that only begins or ends like one of Zhipu's own is another host.
pub proof fn law_no_host_lookalikes(host: Seq<char>, more: Seq<char>)
    requires
        detect::zhipu_host(host),
        more.len() > 0,
    ensures
        !detect::zhipu_host(host + more),
        !detect::zhipu_host(more + host),
{
    reveal_strlit("api.z.ai");
    reveal_strlit("open.bigmodel.cn");
    text::lemma_lowered(host, more);
    text::lemma_lowered(more, host);
    let first = "api.z.ai"@;
    let second = "open.bigmodel.cn"@;
    assert(first.len() == 8 && first[0] == 'a' && first[7] == 'i');
    assert(second.len() == 16 && second[0] == 'o' && second[15] == 'n');
    let low = text::lowered(host);
    assert((low + text::lowered(more))[0] == low[0]);
    assert((text::lowered(more) + low).last() == low.last());
}

/// The keys that tell the model and the shape of a request are none of those
/// that a rewrite touches.
proof fn lemma_shape_keys()
    ensures
        !is_control_key("model"@) && !is_control_key("messages"@) && !is_control_key("input"@)
            && !is_control_key("instructions"@),
{
    reveal_strlit("thinking");
    reveal_strlit("reasoning_effort");
    reveal_strlit("reasoning");
    reveal_strlit("output_config");
    reveal_strlit("model");
    reveal_strlit("messages");
    reveal_strlit("input");
    reveal_strlit("instructions");
    assert("thinking"@.len() == 8 && "thinking"@[0] == 't');
    assert("reasoning_effort"@.len() == 16);
    assert("reasoning"@.len() == 9);
    assert("output_config"@.len() == 13);
    assert("model"@.len() == 5);
    assert("messages"@.len() == 8 && "messages"@[0] == 'm');
    assert("input"@.len() == 5);
    assert("instructions"@.len() == 12);
}

/// The keys of the controls that a rewrite touches.
pub open spec fn is_control_key(key: Seq<char>) -> bool {
    ||| key == "thinking"@
    ||| key == "reasoning_effort"@
    ||| key == "reasoning"@
    ||| key == "output_config"@
}

/// A rewrite leaves every top-level member alone that is no reasoning control.
pub proof fn law_other_members_stay(
    body: Json,
    original: Option<Glm53ReasoningIntent>,
    key: Seq<char>,
)
    requires
        !is_control_key(key),
    ensures
        request::normalized(body, original).member(key) == body.member(key),
{
    if let Some(intent) = request::due_intent(body, original) {
        let fields = body.fields();
        let thinking = request::enabled_thinking(Json::Object(fields).member("thinking"@));
        let tiered = request::with_effort(fields.insert("thinking"@, thinking), intent.effort);
        request::lemma_output_effort(tiered.remove("reasoning"@));
        request::lemma_output_effort(fields.remove("thinking"@).remove("reasoning_effort"@));
        let messages = Json::Object(request::messages_fields(fields, intent.effort));
        let responses = Json::Object(request::responses_fields(fields, intent.effort));
        assert(messages.member(key) == Json::Object(fields).member(key));
        assert(responses.member(key) == Json::Object(fields).member(key));
    }
}

/// What is left of `output_config` once its effort value is out.
proof fn lemma_output_config(fields: Map<Seq<char>, Json>, key: Seq<char>)
    ensures
        Json::Object(request::without_output_effort(fields)).path("output_config"@, "effort"@)
            is None,
        Json::Object(request::without_output_effort(fields)).member("output_config"@) != Some(
            Json::Object(json::no_fields()),
        ),
        key != "effort"@ ==> Json::Object(request::without_output_effort(fields)).path(
            "output_config"@,
            key,
        ) == Json::Object(fields).path("output_config"@, key),
{
    if let Some(Json::Object(config)) = Json::Object(fields).member("output_config"@) {
        let rest = config.remove("effort"@);
        if key != "effort"@ && config.contains_key(key) {
            assert(rest.contains_key(key));
            assert(!json::no_fields().contains_key(key));
        }
    }
}

/// The tier as it stands in a rewritten request.
pub open spec fn tier_text(effort: Option<Glm53Effort>) -> Option<Json> {
    match effort {
        Some(tier) => Some(Json::Text(tier.word())),
        None => None,
    }
}

/// A request for messages as the API takes it: thinking is switched on and has
/// no token budget, the top-level effort value is the tier, if there is one,
/// and there is no other control.
pub open spec fn is_legal_messages(sent: Json, effort: Option<Glm53Effort>) -> bool {
    &&& sent is Object
    &&& sent.path("thinking"@, "type"@) == Some(Json::Text("enabled"@))
    &&& sent.path("thinking"@, "budget_tokens"@) is None
    &&& sent.member("reasoning_effort"@) == tier_text(effort)
    &&& sent.member("reasoning"@) is None
    &&& sent.path("output_config"@, "effort"@) is None
    &&& sent.member("output_config"@) != Some(Json::Object(json::no_fields()))
}

/// A request for responses as the API takes it: the effort value, under
/// `reasoning`, is the tier, if there is one, and there is no other control.
pub open spec fn is_legal_responses(sent: Json, effort: Option<Glm53Effort>) -> bool {
    &&& sent is Object
    &&& sent.member("thinking"@) is None
    &&& sent.member("reasoning_effort"@) is None
    &&& sent.path("reasoning"@, "effort"@) == tier_text(effort)
    &&& sent.member("reasoning"@) != Some(Json::Null)
    &&& sent.member("reasoning"@) != Some(Json::Object(json::no_fields()))
    &&& sent.path("output_config"@, "effort"@) is None
    &&& sent.member("output_config"@) != Some(Json::Object(json::no_fields()))
}

/// The members that a rewrite for messages gives are legal.
proof fn lemma_messages_legal(fields: Map<Seq<char>, Json>, effort: Option<Glm53Effort>)
    ensures
        is_legal_messages(Json::Object(request::messages_fields(fields, effort)), effort),
{
    let thinking = request::enabled_thinking(Json::Object(fields).member("thinking"@));
    let single = request::with_effort(
        fields.insert("thinking"@, thinking),
        effort,
    ).remove("reasoning"@);
    request::lemma_keys();
    request::lemma_output_effort(single);
    lemma_output_config(single, "effort"@);
    let sent = Json::Object(request::without_output_effort(single));
    assert(sent.member("thinking"@) == Json::Object(single).member("thinking"@));
    assert(sent.member("reasoning_effort"@) == Json::Object(single).member("reasoning_effort"@));
    assert(sent.member("reasoning"@) == Json::Object(single).member("reasoning"@));
}

/// The members that a rewrite for responses gives are legal.
proof fn lemma_responses_legal(fields: Map<Seq<char>, Json>, effort: Option<Glm53Effort>)
    ensures
        is_legal_responses(Json::Object(request::responses_fields(fields, effort)), effort),
{
    let bare = fields.remove("thinking"@).remove("reasoning_effort"@);
    let clean = request::without_output_effort(bare);
    request::lemma_keys();
    request::lemma_output_effort(bare);
    lemma_output_config(bare, "effort"@);
    let sent = Json::Object(request::with_reasoning(clean, effort));
    assert(sent.member("thinking"@) == Json::Object(clean).member("thinking"@));
    assert(sent.member("reasoning_effort"@) == Json::Object(clean).member("reasoning_effort"@));
    assert(sent.member("output_config"@) == Json::Object(clean).member("output_config"@));
    if effort is Some {
        assert(!json::no_fields().contains_key("effort"@));
    }
}

/// A rewritten request for messages holds only what the API takes: thinking is
/// switched on and has no token budget, the top-level effort value is a tier
/// or is not there, and there is no other control.
pub proof fn law_messages_are_legal(
    body: Json,
    original: Option<Glm53ReasoningIntent>,
    intent: Glm53ReasoningIntent,
)
    requires
        request::has_messages(body),
        request::due_intent(body, original) == Some(intent),
    ensures
        is_legal_messages(request::normalized(body, original), intent.effort),
{
    lemma_messages_legal(body.fields(), intent.effort);
}

/// A rewritten request for responses holds only what the API takes: its effort
/// value, under `reasoning`, is a tier or is not there, and there is no other
/// control.
pub proof fn law_responses_are_legal(
    body: Json,
    original: Option<Glm53ReasoningIntent>,
    intent: Glm53ReasoningIntent,
)
    requires
        !request::has_messages(body),
        request::due_intent(body, original) == Some(intent),
    ensures
        is_legal_responses(request::normalized(body, original), intent.effort),
{
    lemma_responses_legal(body.fields(), intent.effort);
}

/// Whether a request on a direct gateway is one that the library rewrites as
/// soon as somebody asks for reasoning.
pub open spec fn is_rewritable(body: Json) -> bool {
    &&& request::targets_glm_5_3(body)
    &&& request::has_messages(body) || request::has_response_input(body)
}

/// A request as the API takes it, in its own shape and with its tier.
pub open spec fn is_legal(body: Json, sent: Json, effort: Option<Glm53Effort>) -> bool {
    if request::has_messages(body) {
        is_legal_messages(sent, effort)
    } else {
        is_legal_responses(sent, effort)
    }
}

/// A tier that the outbound request names is sent, whatever was asked for at
/// first.
pub proof fn law_outbound_tier_holds(
    body: Json,
    original: Option<Glm53ReasoningIntent>,
    tier: Glm53Effort,
)
    requires
        is_rewritable(body),
        intent::captured(body) == intent::asks(Some(tier)),
    ensures
        is_legal(body, request::normalized(body, original), Some(tier)),
{
    let intent = request::due_intent(body, original)->0;
    if request::has_messages(body) {
        law_messages_are_legal(body, original, intent);
    } else {
        law_responses_are_legal(body, original, intent);
    }
}

/// A tier that was asked for at first is sent where the outbound request has
/// no control left or one that names no tier.
pub proof fn law_lost_tier_is_restored(body: Json, tier: Glm53Effort)
    requires
        is_rewritable(body),
        intent::captured(body) is None || intent::captured(body) == intent::asks(None),
    ensures
        is_legal(body, request::normalized(body, intent::asks(Some(tier))), Some(tier)),
{
    let original = intent::asks(Some(tier));
    let intent = request::due_intent(body, original)->0;
    if request::has_messages(body) {
        law_messages_are_legal(body, original, intent);
    } else {
        law_responses_are_legal(body, original, intent);
    }
}

/// Thinking that is switched off is never forwarded: it asks for the lowest
/// tier, whatever else the request says and whatever was asked for at first,
/// and that tier is sent.
pub proof fn law_disabled_is_low(body: Json, original: Option<Glm53ReasoningIntent>)
    requires
        intent::thinking_kind(body) == Some("disabled"@),
    ensures
        intent::captured(body) == intent::asks(Some(Glm53Effort::Low)),
        is_rewritable(body) ==> is_legal(
            body,
            request::normalized(body, original),
            Some(Glm53Effort::Low),
        ),
{
    if is_rewritable(body) {
        law_outbound_tier_holds(body, original, Glm53Effort::Low);
    }
}

/// What stands beside the effort value in `output_config` stays.
pub proof fn law_output_config_siblings_stay(
    body: Json,
    original: Option<Glm53ReasoningIntent>,
    key: Seq<char>,
)
    requires
        key != "effort"@,
    ensures
        request::normalized(body, original).path("output_config"@, key) == body.path(
            "output_config"@,
            key,
        ),
{
    if let Some(intent) = request::due_intent(body, original) {
        let fields = body.fields();
        let thinking = request::enabled_thinking(Json::Object(fields).member("thinking"@));
        let single = request::with_effort(
            fields.insert("thinking"@, thinking),
            intent.effort,
        ).remove("reasoning"@);
        let bare = fields.remove("thinking"@).remove("reasoning_effort"@);
        request::lemma_keys();
        lemma_output_config(single, key);
        lemma_output_config(bare, key);
        let clean = request::without_output_effort(bare);
        assert(Json::Object(single).member("output_config"@) == body.member("output_config"@));
        assert(Json::Object(bare).member("output_config"@) == body.member("output_config"@));
        assert(Json::Object(request::with_reasoning(clean, intent.effort)).member(
            "output_config"@,
        ) == Json::Object(clean).member("output_config"@));
    }
}

/// What kind of value a rewrite leaves of `output_config`.
pub(crate) proof fn lemma_output_config_kind(
    body: Json,
    original: Option<Glm53ReasoningIntent>,
)
    requires
        request::due_intent(body, original) is Some,
    ensures
        match body.member("output_config"@) {
            Some(Json::Object(_)) => request::normalized(body, original).member(
                "output_config"@,
            ) is None || request::normalized(body, original).member(
                "output_config"@,
            ) matches Some(Json::Object(_)),
            other => request::normalized(body, original).member("output_config"@) == other,
        },
{
    let intent = request::due_intent(body, original)->0;
    let fields = body.fields();
    let thinking = request::enabled_thinking(Json::Object(fields).member("thinking"@));
    let single = request::with_effort(
        fields.insert("thinking"@, thinking),
        intent.effort,
    ).remove("reasoning"@);
    let bare = fields.remove("thinking"@).remove("reasoning_effort"@);
    let clean = request::without_output_effort(bare);
    request::lemma_keys();
    assert(Json::Object(single).member("output_config"@) == body.member("output_config"@));
    assert(Json::Object(bare).member("output_config"@) == body.member("output_config"@));
    assert(Json::Object(request::with_reasoning(clean, intent.effort)).member("output_config"@)
        == Json::Object(clean).member("output_config"@));
}

/// In a request for messages, what stands in `thinking` beside its type and
/// its token budget stays.
pub proof fn law_thinking_siblings_stay(
    body: Json,
    original: Option<Glm53ReasoningIntent>,
    key: Seq<char>,
)
    requires
        request::has_messages(body),
        key != "type"@,
        key != "budget_tokens"@,
    ensures
        request::normalized(body, original).path("thinking"@, key) == body.path("thinking"@, key),
{
    if let Some(intent) = request::due_intent(body, original) {
        let fields = body.fields();
        let thinking = request::enabled_thinking(Json::Object(fields).member("thinking"@));
        let single = request::with_effort(
            fields.insert("thinking"@, thinking),
            intent.effort,
        ).remove("reasoning"@);
        request::lemma_keys();
        request::lemma_output_effort(single);
        let sent = request::normalized(body, original);
        assert(sent.member("thinking"@) == Json::Object(single).member("thinking"@));
        assert(sent.member("thinking"@) == Some(thinking));
    }
}

/// In a request for responses, what stands in `reasoning` beside its effort
/// value stays.
pub proof fn law_reasoning_siblings_stay(
    body: Json,
    original: Option<Glm53ReasoningIntent>,
    key: Seq<char>,
)
    requires
        !request::has_messages(body),
        key != "effort"@,
    ensures
        request::normalized(body, original).path("reasoning"@, key) == body.path("reasoning"@, key),
{
    if let Some(intent) = request::due_intent(body, original) {
        let fields = body.fields();
        let bare = fields.remove("thinking"@).remove("reasoning_effort"@);
        let clean = request::without_output_effort(bare);
        request::lemma_keys();
        request::lemma_output_effort(bare);
        assert(Json::Object(clean).member("reasoning"@) == body.member("reasoning"@));
        if let Some(Json::Object(members)) = body.member("reasoning"@) {
            let rest = members.remove("effort"@);
            if members.contains_key(key) {
                assert(rest.contains_key(key));
                assert(!json::no_fields().contains_key(key));
            }
        }
    }
}

/// A request for another model, one of an unknown shape, and one for which
/// nobody asked for reasoning stay as they are.
pub proof fn law_others_stay(body: Json, original: Option<Glm53ReasoningIntent>)
    requires
        !request::targets_glm_5_3(body) || (!request::has_messages(body)
            && !request::has_response_input(body)) || (intent::captured(body) is None
            && original is None),
    ensures
        request::due_intent(body, original) is None,
        request::normalized(body, original) == body,
{
}

/// What a rewrite reports: that a request changed is true of every request
/// for which it says so, and of no other, save one whose `output_config` was
/// an empty object before.
pub proof fn law_reported_change(body: Json, original: Option<Glm53ReasoningIntent>)
    requires
        request::due_intent(body, original) is Some,
    ensures
        request::normalized(body, original) != request::without_empty_config(body)
            ==> request::normalized(body, original) != body,
        body.member("output_config"@) != Some(Json::Object(json::no_fields())) ==> (
        request::normalized(body, original) != request::without_empty_config(body)
            <==> request::normalized(body, original) != body),
{
    let intent = request::due_intent(body, original)->0;
    if request::has_messages(body) {
        law_messages_are_legal(body, original, intent);
    } else {
        law_responses_are_legal(body, original, intent);
    }
}

/// Rewriting a legal request for messages to its own tier changes nothing.
proof fn lemma_legal_messages_stay(sent: Json, effort: Option<Glm53Effort>)
    requires
        is_legal_messages(sent, effort),
    ensures
        request::messages_fields(sent.fields(), effort) == sent.fields(),
{
    let fields = sent.fields();
    let thinking = sent.member("thinking"@)->0;
    let members = thinking.fields();
    request::lemma_keys();
    request::lemma_same_fields(members, "type"@, Json::Text("enabled"@));
    request::lemma_same_fields(members, "budget_tokens"@, Json::Null);
    assert(request::enabled_thinking(Some(thinking)) == thinking);
    request::lemma_same_fields(fields, "thinking"@, thinking);
    if let Some(tier) = effort {
        request::lemma_same_fields(fields, "reasoning_effort"@, Json::Text(tier.word()));
    } else {
        request::lemma_same_fields(fields, "reasoning_effort"@, Json::Null);
    }
    request::lemma_same_fields(fields, "reasoning"@, Json::Null);
    request::lemma_output_effort(fields);
}

/// Rewriting a legal request for responses to its own tier changes nothing.
proof fn lemma_legal_responses_stay(sent: Json, effort: Option<Glm53Effort>)
    requires
        is_legal_responses(sent, effort),
    ensures
        request::responses_fields(sent.fields(), effort) == sent.fields(),
{
    let fields = sent.fields();
    request::lemma_same_fields(fields, "thinking"@, Json::Null);
    request::lemma_same_fields(fields, "reasoning_effort"@, Json::Null);
    request::lemma_output_effort(fields);
    if let Some(Json::Object(members)) = sent.member("reasoning"@) {
        if let Some(tier) = effort {
            request::lemma_same_fields(members, "effort"@, Json::Text(tier.word()));
        } else {
            request::lemma_same_fields(members, "effort"@, Json::Null);
        }
        request::lemma_same_fields(fields, "reasoning"@, Json::Object(members));
    }
}

/// The word that switches thinking on is in lower case and means nothing else.
pub(crate) proof fn lemma_enabled_word()
    ensures
        text::lowered("enabled"@) == "enabled"@,
        "enabled"@ != "disabled"@,
        "enabled"@ != "adaptive"@,
{
    reveal_strlit("enabled");
    reveal_strlit("disabled");
    reveal_strlit("adaptive");
    assert("enabled"@.len() == 7);
    assert("disabled"@.len() == 8);
    assert("adaptive"@.len() == 8);
    assert(text::lowered("enabled"@) =~= "enabled"@);
}

/// What a legal request asks for is the tier that it holds. Without a tier it
/// asks for none: a request for messages still has thinking switched on, and
/// one for responses has a control left only if `reasoning` is there.
pub proof fn law_legal_request_asks_for_its_tier(sent: Json, effort: Option<Glm53Effort>)
    requires
        is_legal_messages(sent, effort) || is_legal_responses(sent, effort),
    ensures
        is_legal_messages(sent, effort) || effort is Some || sent.member("reasoning"@) is Some
            ==> intent::captured(sent) == intent::asks(effort),
        is_legal_responses(sent, effort) && effort is None && sent.member("reasoning"@) is None
            ==> intent::captured(sent) is None,
{
    lemma_enabled_word();
    if let Some(tier) = effort {
        law_tier_words_name_themselves(tier);
    }
}

/// A second pass over a rewritten request, with the same first intent or with
/// none, changes nothing and reports no change.
pub proof fn law_second_pass_changes_nothing(
    body: Json,
    original: Option<Glm53ReasoningIntent>,
    again: Option<Glm53ReasoningIntent>,
)
    requires
        again == original || again is None,
    ensures
        ({
            let sent = request::normalized(body, original);
            &&& request::normalized(sent, again) == sent
            &&& request::due_intent(sent, again) is Some ==> request::without_empty_config(sent)
                == sent
        }),
{
    let sent = request::normalized(body, original);
    if let Some(intent) = request::due_intent(body, original) {
        let effort = intent.effort;
        lemma_shape_keys();
        law_other_members_stay(body, original, "model"@);
        law_other_members_stay(body, original, "messages"@);
        if request::has_messages(body) {
            law_messages_are_legal(body, original, intent);
            law_legal_request_asks_for_its_tier(sent, effort);
            lemma_legal_messages_stay(sent, effort);
            assert(request::due_intent(sent, again) == Some(intent));
        } else {
            law_responses_are_legal(body, original, intent);
            law_legal_request_asks_for_its_tier(sent, effort);
            lemma_legal_responses_stay(sent, effort);
        }
    }
}

/// Taking `output_config.effort` out a second time changes nothing.
pub proof fn law_output_effort_goes_once(fields: Map<Seq<char>, Json>)
    ensures
        request::without_output_effort(request::without_output_effort(fields))
            == request::without_output_effort(fields),
{
    let clean = request::without_output_effort(fields);
    lemma_output_config(fields, "effort"@);
    request::lemma_output_effort(clean);
}

/// Rewriting for responses a second time with the same tier changes nothing,
/// and the second rewrite reports no change: the first leaves no empty
/// `output_config` behind.
pub proof fn law_responses_rewrite_is_idempotent(body: Json, effort: Option<Glm53Effort>)
    ensures
        request::responses_body(request::responses_body(body, effort), effort)
            == request::responses_body(body, effort),
        request::without_empty_config(request::responses_body(body, effort))
            == request::responses_body(body, effort),
{
    if body is Object || effort is Some {
        let sent = request::responses_body(body, effort);
        lemma_responses_legal(body.fields(), effort);
        lemma_legal_responses_stay(sent, effort);
    }
}

/// Maps with the same members are the same.
pub(crate) proof fn lemma_same_members(left: Map<Seq<char>, Json>, right: Map<Seq<char>, Json>)
    requires
        forall|key: Seq<char>|
            #[trigger] Json::Object(left).member(key) == Json::Object(right).member(key),
    ensures
        left == right,
{
    assert forall|key: Seq<char>| #[trigger]
        left.dom().contains(key) == right.dom().contains(key) by {
        assert(Json::Object(left).member(key) == Json::Object(right).member(key));
    }
    assert(left.dom() =~= right.dom());
    assert forall|key: Seq<char>| left.dom().contains(key) implies #[trigger] left[key]
        == right[key] by {
        assert(Json::Object(left).member(key) == Json::Object(right).member(key));
    }
    assert(left =~= right);
}

/// Of two rewrites for messages the last one holds: the request is what the
/// second tier alone makes of it. With the same tier, the second rewrite
/// changes nothing and reports no change.
pub proof fn law_last_messages_rewrite_wins(
    fields: Map<Seq<char>, Json>,
    first: Option<Glm53Effort>,
    second: Option<Glm53Effort>,
)
    ensures
        request::messages_fields(request::messages_fields(fields, first), second)
            == request::messages_fields(fields, second),
        request::without_empty_config(Json::Object(request::messages_fields(fields, first)))
            == Json::Object(request::messages_fields(fields, first)),
{
    let once = request::messages_fields(fields, first);
    let alone = request::messages_fields(fields, second);
    let thinking = request::enabled_thinking(Json::Object(fields).member("thinking"@));
    let single = request::with_effort(fields.insert("thinking"@, thinking), first).remove(
        "reasoning"@,
    );
    let other = request::with_effort(fields.insert("thinking"@, thinking), second).remove(
        "reasoning"@,
    );
    lemma_messages_legal(fields, first);
    request::lemma_keys();
    request::lemma_output_effort(single);
    request::lemma_output_effort(other);
    assert(Json::Object(once).member("thinking"@) == Some(thinking)) by {
        assert(Json::Object(single).member("thinking"@) == Some(thinking));
    }
    let members = thinking.fields();
    request::lemma_same_fields(members, "type"@, Json::Text("enabled"@));
    request::lemma_same_fields(members, "budget_tokens"@, Json::Null);
    assert(request::enabled_thinking(Some(thinking)) == thinking);
    let again = request::with_effort(once.insert("thinking"@, thinking), second).remove(
        "reasoning"@,
    );
    assert(Json::Object(again).member("output_config"@) == Json::Object(once).member(
        "output_config"@,
    ));
    request::lemma_output_effort(again);
    assert forall|key: Seq<char>| #[trigger]
        Json::Object(again).member(key) == Json::Object(alone).member(key) by {
        if key == "output_config"@ {
            assert(Json::Object(single).member(key) == Json::Object(fields).member(key));
            assert(Json::Object(other).member(key) == Json::Object(fields).member(key));
        } else {
            assert(Json::Object(once).member(key) == Json::Object(single).member(key));
            assert(Json::Object(alone).member(key) == Json::Object(other).member(key));
        }
    }
    lemma_same_members(again, alone);
}

/// Of two rewrites for responses the last one holds, unless the first puts its
/// tier in the place of a `reasoning` that is neither an object nor null and
/// the second, without a tier, would have left that as it was.
pub proof fn law_last_responses_rewrite_wins(
    fields: Map<Seq<char>, Json>,
    first: Option<Glm53Effort>,
    second: Option<Glm53Effort>,
)
    requires
        first is Some && second is None ==> match Json::Object(fields).member("reasoning"@) {
            Some(Json::Object(_)) => true,
            Some(Json::Null) => true,
            Some(_) => false,
            None => true,
        },
    ensures
        request::responses_fields(request::responses_fields(fields, first), second)
            == request::responses_fields(fields, second),
{
    let bare = fields.remove("thinking"@).remove("reasoning_effort"@);
    let clean = request::without_output_effort(bare);
    let once = request::with_reasoning(clean, first);
    lemma_responses_legal(fields, first);
    request::lemma_keys();
    request::lemma_output_effort(bare);
    request::lemma_same_fields(once, "thinking"@, Json::Null);
    request::lemma_same_fields(once, "reasoning_effort"@, Json::Null);
    request::lemma_output_effort(once);
    assert(Json::Object(bare).member("reasoning"@) == Json::Object(fields).member("reasoning"@));
    let twice = request::with_reasoning(once, second);
    let alone = request::with_reasoning(clean, second);
    assert forall|key: Seq<char>| #[trigger]
        Json::Object(twice).member(key) == Json::Object(alone).member(key) by {
        if key == "reasoning"@ {
            lemma_reasoning_twice(clean, first, second);
        } else {
            assert(Json::Object(once).member(key) == Json::Object(clean).member(key));
        }
    }
    lemma_same_members(twice, alone);
}

/// What two settings of `reasoning.effort` leave of `reasoning`.
proof fn lemma_reasoning_twice(
    fields: Map<Seq<char>, Json>,
    first: Option<Glm53Effort>,
    second: Option<Glm53Effort>,
)
    requires
        first is Some && second is None ==> match Json::Object(fields).member("reasoning"@) {
            Some(Json::Object(_)) => true,
            Some(Json::Null) => true,
            Some(_) => false,
            None => true,
        },
    ensures
        Json::Object(
            request::with_reasoning(request::with_reasoning(fields, first), second),
        ).member("reasoning"@) == Json::Object(request::with_reasoning(fields, second)).member(
            "reasoning"@,
        ),
{
    let none = json::no_fields();
    assert(none.remove("effort"@) =~= none);
    assert forall|a: Json, b: Json| #[trigger]
        none.insert("effort"@, a).insert("effort"@, b) == none.insert("effort"@, b) by {
        assert(none.insert("effort"@, a).insert("effort"@, b) =~= none.insert("effort"@, b));
    }
    assert forall|a: Json| #[trigger] none.insert("effort"@, a).remove("effort"@) == none by {
        assert(none.insert("effort"@, a).remove("effort"@) =~= none);
    }
    if let Some(Json::Object(members)) = Json::Object(fields).member("reasoning"@) {
        let rest = members.remove("effort"@);
        assert(rest.remove("effort"@) =~= rest);
        assert forall|a: Json, b: Json| #[trigger]
            members.insert("effort"@, a).insert("effort"@, b) == members.insert("effort"@, b) by {
            assert(members.insert("effort"@, a).insert("effort"@, b) =~= members.insert(
                "effort"@,
                b,
            ));
        }
        assert forall|a: Json| #[trigger]
            members.insert("effort"@, a).remove("effort"@) == rest by {
            assert(members.insert("effort"@, a).remove("effort"@) =~= rest);
        }
        assert forall|a: Json| #[trigger]
            rest.insert("effort"@, a) == members.insert("effort"@, a) by {
            assert(rest.insert("effort"@, a) =~= members.insert("effort"@, a));
        }
    }
}

/// An effort value that is put into a rewritten request for messages afterwards
/// and names a tier holds, whatever was asked for at first: a second pass
/// writes the tier in the API's own word and leaves the rest as it is.
pub proof fn law_later_tier_wins(
    body: Json,
    original: Option<Glm53ReasoningIntent>,
    value: Seq<char>,
    tier: Glm53Effort,
    again: Option<Glm53ReasoningIntent>,
)
    requires
        request::has_messages(body),
        request::due_intent(body, original) is Some,
        effort::effort_named(value) == Some(tier),
    ensures
        ({
            let sent = request::normalized(body, original);
            let overridden = Json::Object(
                sent.fields().insert("reasoning_effort"@, Json::Text(value)),
            );
            let second = request::normalized(overridden, again);
            &&& second == Json::Object(
                sent.fields().insert("reasoning_effort"@, Json::Text(tier.word())),
            )
            &&& is_legal_messages(second, Some(tier))
        }),
{
    let sent = request::normalized(body, original);
    let fields = sent.fields();
    let overridden = Json::Object(fields.insert("reasoning_effort"@, Json::Text(value)));
    let wanted = Json::Object(fields.insert("reasoning_effort"@, Json::Text(tier.word())));
    let intent = request::due_intent(body, original)->0;
    law_messages_are_legal(body, original, intent);
    lemma_shape_keys();
    request::lemma_keys();
    law_other_members_stay(body, original, "model"@);
    law_other_members_stay(body, original, "messages"@);
    assert(wanted.member("thinking"@) == sent.member("thinking"@));
    assert(wanted.member("output_config"@) == sent.member("output_config"@));
    assert(wanted.member("reasoning"@) == sent.member("reasoning"@));
    lemma_legal_messages_stay(wanted, Some(tier));
    lemma_enabled_word();
    assert(overridden.member("thinking"@) == sent.member("thinking"@));
    assert(overridden.member("model"@) == sent.member("model"@));
    assert(overridden.member("messages"@) == sent.member("messages"@));
    assert(intent::captured(overridden) == intent::asks(Some(tier)));
    let thinking = request::enabled_thinking(sent.member("thinking"@));
    assert(overridden.fields().insert("thinking"@, thinking).insert(
        "reasoning_effort"@,
        Json::Text(tier.word()),
    ) =~= wanted.fields().insert("thinking"@, thinking).insert(
        "reasoning_effort"@,
        Json::Text(tier.word()),
    ));
}

/// Neither case nor white space at the ends matters to a model name.
pub proof fn law_model_ignores_case_and_space(
    model: Seq<char>,
    other: Seq<char>,
    before: Seq<char>,
    after: Seq<char>,
)
    requires
        text::lowered(model) == text::lowered(other),
        text::is_blank(before),
        text::is_blank(after),
    ensures
        detect::names_glm_5_3(before + model + after) == detect::names_glm_5_3(other),
{
    lemma_padding(before, model, after);
    text::lemma_trimmed(model);
    text::lemma_trimmed(other);
}

/// The characters of the context marker.
pub(crate) proof fn lemma_marker()
    ensures
        detect::ONE_M_CONTEXT_MARKER@ == seq!['[', '1', 'm', ']'],
{
    reveal_strlit("[1m]");
    assert("[1m]"@ =~= seq!['[', '1', 'm', ']']);
}

/// The context marker, in any case, does not matter at the end of a model name
/// that has none yet.
pub proof fn law_model_ignores_marker(model: Seq<char>, marker: Seq<char>)
    requires
        text::lowered(marker) == detect::ONE_M_CONTEXT_MARKER@,
        !detect::ONE_M_CONTEXT_MARKER@.is_suffix_of(text::lowered(text::trimmed(model))),
    ensures
        detect::plain_name(model + marker) == detect::plain_name(model),
        detect::names_glm_5_3(model + marker) == detect::names_glm_5_3(model),
{
    lemma_marker();
    text::lemma_lowered(marker, marker);
    assert(marker[0] == '[' && marker[3] == ']') by {
        assert(text::lowered(marker)[0] == text::lower_char(marker[0]));
        assert(text::lowered(marker)[3] == text::lower_char(marker[3]));
    }
    assert(!text::is_blank(marker)) by {
        assert(!text::is_white_space(marker[0]));
    }
    assert(text::trimmed_end(marker) == marker);
    assert(text::trimmed_start(marker) == marker);
    let start = text::trimmed_start(model);
    text::lemma_trimmed_end_concat(model, marker);
    text::lemma_trimmed_start_concat(model, marker);
    text::lemma_trimmed_start(model);
    text::lemma_trimmed(model);
    assert(text::trimmed(model + marker) == start + marker) by {
        if text::is_blank(model) {
            assert(start + marker =~= marker);
        }
    }
    text::lemma_lowered(start, marker);
    text::lemma_trimmed_end(start);
    let whole = text::lowered(start) + detect::ONE_M_CONTEXT_MARKER@;
    assert(whole.subrange(whole.len() - 4, whole.len() as int)
        =~= detect::ONE_M_CONTEXT_MARKER@);
    assert(whole.take(whole.len() - 4) =~= text::lowered(start));
}

/// Taking the context marker off a path is taking it off what follows a slash.
proof fn lemma_marker_under_path(front: Seq<char>, name: Seq<char>)
    requires
        front.len() > 0,
        front.last() == '/',
    ensures
        detect::without_marker(front + name) == front + detect::without_marker(name),
{
    lemma_marker();
    let marker = detect::ONE_M_CONTEXT_MARKER@;
    let whole = front + name;
    if name.len() >= 4 {
        assert(whole.subrange(whole.len() - 4, whole.len() as int) =~= name.subrange(
            name.len() - 4,
            name.len() as int,
        ));
        assert(whole.take(whole.len() - 4) =~= front + name.take(name.len() - 4));
        text::lemma_trimmed_end_concat(front, name.take(name.len() - 4));
        text::lemma_trimmed_end(name.take(name.len() - 4));
        assert(text::trimmed_end(front) == front);
        assert(front + Seq::<char>::empty() =~= front);
    } else if marker.is_suffix_of(whole) {
        let tail = whole.subrange(whole.len() - 4, whole.len() as int);
        assert(tail[3 - name.len()] == '/');
    }
}

/// Under a path that ends in a slash, the last segment is that of what follows.
proof fn lemma_segment_under_path(front: Seq<char>, name: Seq<char>, segment: Seq<char>)
    requires
        front.len() > 0,
        front.last() == '/',
        !segment.contains('/'),
    ensures
        detect::ends_in_segment(front + name, segment) == detect::ends_in_segment(name, segment),
{
    let whole = front + name;
    let size = segment.len() as int;
    if name.len() >= size {
        assert(whole.subrange(whole.len() - size, whole.len() as int) =~= name.subrange(
            name.len() - size,
            name.len() as int,
        ));
    } else if segment.is_suffix_of(whole) {
        let at = size - name.len() - 1;
        assert(segment[at] == whole.subrange(whole.len() - size, whole.len() as int)[at]);
        assert(segment[at] == '/');
    }
}

/// The model's own name holds no slash.
pub(crate) proof fn lemma_model_word()
    ensures
        "glm-5.3"@ == seq!['g', 'l', 'm', '-', '5', '.', '3'],
        !"glm-5.3"@.contains('/'),
{
    reveal_strlit("glm-5.3");
    assert("glm-5.3"@ =~= seq!['g', 'l', 'm', '-', '5', '.', '3']);
}

/// A path of vendors before a model name does not matter.
pub proof fn law_model_ignores_vendor_path(path: Seq<char>, model: Seq<char>)
    requires
        model.len() > 0 ==> !text::is_white_space(model[0]),
    ensures
        detect::names_glm_5_3(path + seq!['/'] + model) == detect::names_glm_5_3(model),
{
    let slash = seq!['/'];
    let front = path + slash;
    let start = text::trimmed_start(path);
    let end = text::trimmed_end(model);
    assert(!text::is_white_space(slash[0]));
    assert(!text::is_blank(slash));
    assert(front.last() == '/');
    assert(!text::is_white_space(front[front.len() - 1]));
    assert(!text::is_blank(front));
    text::lemma_trimmed_end(model);
    text::lemma_trimmed_end_concat(front, model);
    if model.len() == 0 {
        assert(end =~= Seq::<char>::empty());
        assert(front + end =~= front);
    } else {
        assert(!text::is_blank(model));
        assert(end[0] == model[0]);
    }
    assert(text::trimmed_end(front + model) == front + end);
    assert(text::trimmed(model) == end);
    text::lemma_trimmed_start_concat(front, end);
    text::lemma_trimmed_start_concat(path, slash);
    text::lemma_trimmed_start(path);
    assert(text::trimmed_start(front) == start + slash) by {
        if text::is_blank(path) {
            assert(start + slash =~= slash);
        }
    }
    assert(text::trimmed(front + model) == start + slash + end);
    text::lemma_lowered(start + slash, end);
    text::lemma_lowered(start, slash);
    let low = text::lowered(start + slash);
    assert(low.last() == '/');
    lemma_marker_under_path(low, text::lowered(end));
    lemma_model_word();
    lemma_segment_under_path(low, detect::without_marker(text::lowered(end)), "glm-5.3"@);
}

/// White space holds no slash and none of the characters of the marker.
proof fn lemma_blank(s: Seq<char>, i: int)
    requires
        text::is_blank(s),
        0 <= i < s.len(),
    ensures
        s[i] != '/',
        s[i] != '[',
        s[i] != '1',
        s[i] != 'm',
        s[i] != ']',
{
    assert(text::is_white_space(s[i]));
}

/// A trimmed name is its plain form, followed by at most white space and the
/// context marker, and never ends within the marker.
proof fn lemma_name_tail(model: Seq<char>) -> (tail: Seq<char>)
    requires
        detect::names_glm_5_3(model),
    ensures
        text::lowered(text::trimmed_start(model)) == detect::plain_name(model) + tail,
        !tail.contains('/'),
        ({
            let last = (detect::plain_name(model) + tail).last();
            last != '[' && last != '1' && last != 'm'
        }),
{
    lemma_marker();
    lemma_model_word();
    let start = text::trimmed_start(model);
    let kept = text::trimmed_end(start);
    let gap = start.skip(kept.len() as int);
    let plain = detect::plain_name(model);
    text::lemma_trimmed(model);
    text::lemma_trimmed_end(start);
    text::lemma_lowered(kept, gap);
    text::lemma_lowered(gap, gap);
    let name = text::lowered(kept);
    let after = text::lowered(gap);
    let marker = detect::ONE_M_CONTEXT_MARKER@;
    assert(plain == detect::without_marker(name));
    assert(plain.last() == '3') by {
        let from = plain.len() - 7;
        assert(plain.subrange(from, plain.len() as int)[6] == plain[from + 6]);
    }
    assert forall|i: int| 0 <= i < after.len() implies after[i] != '/' by {
        lemma_blank(after, i);
    }
    if after.len() > 0 {
        lemma_blank(after, after.len() - 1);
    }
    if marker.is_suffix_of(name) {
        let body = name.take(name.len() - 4);
        text::lemma_trimmed_end(body);
        let space = body.skip(plain.len() as int);
        let tail = space + marker + after;
        assert(name =~= body + marker);
        assert(name + after =~= plain + tail);
        assert forall|i: int| 0 <= i < tail.len() implies tail[i] != '/' by {
            if i < space.len() {
                lemma_blank(space, i);
            }
        }
        tail
    } else {
        after
    }
}

/// Two strings that are not blank are trimmed at the outer ends only.
proof fn lemma_joined(model: Seq<char>, more: Seq<char>)
    requires
        !text::is_blank(model),
        !text::is_blank(more),
    ensures
        text::lowered(text::trimmed(model + more)) == text::lowered(text::trimmed_start(model))
            + text::lowered(text::trimmed_end(more)),
{
    let end = text::trimmed_end(more);
    text::lemma_trimmed_end_concat(model, more);
    text::lemma_trimmed_start_concat(model, end);
    text::lemma_lowered(text::trimmed_start(model), end);
}

/// Trimming and lower case bring no slash in.
proof fn lemma_no_slash(s: Seq<char>)
    requires
        !s.contains('/'),
    ensures
        !text::trimmed_end(s).contains('/'),
        !text::lowered(s).contains('/'),
{
    let end = text::trimmed_end(s);
    text::lemma_trimmed_end(s);
    assert forall|i: int| 0 <= i < end.len() implies end[i] != '/' by {
        assert((end + s.skip(end.len() as int))[i] == s[i]);
        assert(s.contains(s[i]));
    }
    text::lemma_lowered(s, s);
    assert forall|i: int| 0 <= i < s.len() implies text::lowered(s)[i] != '/' by {
        text::lemma_lower_char(s[i]);
        assert(s.contains(s[i]));
    }
}

/// Taking the context marker off a name that goes on after its front leaves
/// the front and something behind it.
proof fn lemma_marker_behind(front: Seq<char>, low: Seq<char>) -> (rest: Seq<char>)
    requires
        front.len() > 0,
        front.last() != '[' && front.last() != '1' && front.last() != 'm',
        low.len() > 0,
        !low.contains('/'),
        detect::ONE_M_CONTEXT_MARKER@.is_suffix_of(low) ==> !text::is_blank(
            low.take(low.len() - 4),
        ),
    ensures
        detect::without_marker(front + low) == front + rest,
        rest.len() > 0,
        !rest.contains('/'),
{
    lemma_marker();
    let marker = detect::ONE_M_CONTEXT_MARKER@;
    let whole = front + low;
    if marker.is_suffix_of(whole) {
        let cut = whole.subrange(whole.len() - 4, whole.len() as int);
        if low.len() < 4 {
            assert(cut[3 - low.len()] == front.last());
            assert(false);
        }
        assert(low.subrange(low.len() - 4, low.len() as int) =~= cut);
        let body = low.take(low.len() - 4);
        text::lemma_trimmed_end(body);
        text::lemma_trimmed_end_concat(front, body);
        assert(whole.take(whole.len() - 4) =~= front + body);
        assert(!body.contains('/')) by {
            assert forall|i: int| 0 <= i < body.len() implies body[i] != '/' by {
                assert(low.contains(low[i]));
            }
        }
        lemma_no_slash(body);
        text::trimmed_end(body)
    } else {
        low
    }
}

/// A name of GLM-5.3 with something behind it that has a plain form and holds
/// no slash is another model.
proof fn lemma_more_than_marker(model: Seq<char>, more: Seq<char>)
    requires
        detect::names_glm_5_3(model),
        !more.contains('/'),
        detect::plain_name(more).len() > 0,
    ensures
        !detect::names_glm_5_3(model + more),
{
    lemma_marker();
    lemma_model_word();
    lemma_plain_of_blank(model);
    lemma_plain_of_blank(more);
    let plain = detect::plain_name(model);
    let tail = lemma_name_tail(model);
    let front = plain + tail;
    let end = text::trimmed_end(more);
    let low = text::lowered(end);
    lemma_joined(model, more);
    lemma_no_slash(more);
    lemma_no_slash(end);
    text::lemma_trimmed_end(more);
    text::lemma_lowered(end, end);
    if detect::ONE_M_CONTEXT_MARKER@.is_suffix_of(low) {
        lemma_marked_rest(more);
    }
    let rest = lemma_marker_behind(front, low);
    let added = tail + rest;
    assert(front + rest =~= plain + added);
    lemma_longer_segment(plain, added, "glm-5.3"@);
}

/// The plain form of white space is empty.
proof fn lemma_plain_of_blank(name: Seq<char>)
    ensures
        text::is_blank(name) ==> detect::plain_name(name).len() == 0,
{
    lemma_marker();
    text::lemma_trimmed(name);
    text::lemma_lowered(text::trimmed(name), name);
}

/// Where a name ends in the context marker and has a plain form, something
/// other than white space stands before the marker.
proof fn lemma_marked_rest(name: Seq<char>)
    requires
        detect::plain_name(name).len() > 0,
        detect::ONE_M_CONTEXT_MARKER@.is_suffix_of(text::lowered(text::trimmed_end(name))),
    ensures
        ({
            let low = text::lowered(text::trimmed_end(name));
            !text::is_blank(low.take(low.len() - 4))
        }),
{
    lemma_marker();
    let marker = detect::ONE_M_CONTEXT_MARKER@;
    let end = text::trimmed_end(name);
    let kept = text::trimmed_start(end);
    let gap = end.take(end.len() - kept.len());
    text::lemma_trimmed_start(end);
    text::lemma_lowered(gap, kept);
    text::lemma_lowered(kept, kept);
    let low = text::lowered(end);
    let inner = text::lowered(kept);
    let cut = low.subrange(low.len() - 4, low.len() as int);
    assert(low == text::lowered(gap) + inner);
    if inner.len() < 4 {
        let at = low.len() - 4;
        assert(low[at] == cut[0]);
        assert(text::lowered(gap)[at] == '[');
        lemma_blank(text::lowered(gap), at);
    }
    assert(inner.subrange(inner.len() - 4, inner.len() as int) =~= cut);
    assert(marker.is_suffix_of(inner));
    let before = inner.take(inner.len() - 4);
    text::lemma_trimmed_end(before);
    if text::is_blank(low.take(low.len() - 4)) {
        assert forall|i: int| 0 <= i < before.len() implies text::is_white_space(
            #[trigger] before[i],
        ) by {
            assert(low.take(low.len() - 4)[gap.len() + i] == before[i]);
        }
    }
}

/// Text without a plain form is white space or the context marker alone.
proof fn lemma_marker_alone(more: Seq<char>)
    requires
        detect::plain_name(more).len() == 0,
        !text::is_blank(more),
    ensures
        text::lowered(text::trimmed(more)) == detect::ONE_M_CONTEXT_MARKER@,
{
    lemma_marker();
    let marker = detect::ONE_M_CONTEXT_MARKER@;
    let end = text::trimmed_end(more);
    let kept = text::trimmed(more);
    text::lemma_trimmed(more);
    text::lemma_trimmed_start(end);
    text::lemma_lowered(kept, kept);
    let low = text::lowered(kept);
    let body = low.take(low.len() - 4);
    text::lemma_trimmed_end(body);
    if body.len() > 0 {
        text::lemma_lower_char(kept[0]);
        assert(body[0] == low[0]);
        assert(!text::is_white_space(body[0]));
    }
    assert(low =~= marker);
}

/// With white space and a context marker behind it, the plain form of a name is
/// the name itself, trimmed and in lower case.
proof fn lemma_name_and_marker(model: Seq<char>, more: Seq<char>)
    requires
        !text::is_blank(model),
        !text::is_blank(more),
        text::lowered(text::trimmed(more)) == detect::ONE_M_CONTEXT_MARKER@,
    ensures
        detect::plain_name(model + more) == text::lowered(text::trimmed(model)),
{
    lemma_marker();
    let marker = detect::ONE_M_CONTEXT_MARKER@;
    let end = text::trimmed_end(more);
    let kept = text::trimmed_start(end);
    let gap = end.take(end.len() - kept.len());
    let start = text::trimmed_start(model);
    text::lemma_trimmed(model);
    text::lemma_trimmed_start(end);
    lemma_joined(model, more);
    text::lemma_lowered(gap, kept);
    text::lemma_lowered(gap, gap);
    let front = text::lowered(start) + text::lowered(gap);
    let whole = text::lowered(text::trimmed(model + more));
    assert(whole =~= front + marker);
    assert(whole.subrange(whole.len() - 4, whole.len() as int) =~= marker);
    assert(whole.take(whole.len() - 4) =~= front);
    text::lemma_trimmed_end_concat(text::lowered(start), text::lowered(gap));
    text::lemma_trimmed_end(start);
}

/// A name of GLM-5.3 with white space and a context marker behind it keeps its
/// plain form, unless it had a marker already and is now another model.
proof fn lemma_only_marker(model: Seq<char>, more: Seq<char>)
    requires
        detect::names_glm_5_3(model),
        detect::plain_name(more).len() == 0,
    ensures
        detect::plain_name(model + more) == detect::plain_name(model)
            || !detect::names_glm_5_3(model + more),
{
    lemma_marker();
    lemma_model_word();
    lemma_plain_of_blank(model);
    if text::is_blank(more) {
        text::lemma_trimmed_end_concat(model, more);
    } else {
        lemma_marker_alone(more);
        lemma_name_and_marker(model, more);
        let marker = detect::ONE_M_CONTEXT_MARKER@;
        let name = text::lowered(text::trimmed(model));
        if marker.is_suffix_of(name) {
            let before = name.take(name.len() - 4);
            text::lemma_trimmed_end(before);
            let plain = detect::plain_name(model);
            let space = before.skip(plain.len() as int);
            let added = space + marker;
            assert(name =~= before + marker);
            assert(before == plain + space);
            assert(name =~= plain + added);
            assert forall|i: int| 0 <= i < added.len() implies added[i] != '/' by {
                if i < space.len() {
                    lemma_blank(space, i);
                }
            }
            lemma_longer_segment(plain, added, "glm-5.3"@);
        }
    }
}

/// A name never has a model's capabilities for beginning like it: what is put
/// behind a name of GLM-5.3 and changes its plain form, without beginning
/// another segment, makes it another model.
pub proof fn law_model_is_exact(model: Seq<char>, more: Seq<char>)
    requires
        detect::names_glm_5_3(model),
        !more.contains('/'),
        detect::plain_name(model + more) != detect::plain_name(model),
    ensures
        !detect::names_glm_5_3(model + more),
{
    if detect::plain_name(more).len() > 0 {
        lemma_more_than_marker(model, more);
    } else {
        lemma_only_marker(model, more);
    }
}

/// More characters without a slash make a last segment longer.
proof fn lemma_longer_segment(path: Seq<char>, added: Seq<char>, segment: Seq<char>)
    requires
        detect::ends_in_segment(path, segment),
        !segment.contains('/'),
        !added.contains('/'),
        added.len() > 0,
    ensures
        !detect::ends_in_segment(path + added, segment),
{
    let whole = path + added;
    let at = whole.len() - segment.len() - 1;
    let from = path.len() - segment.len();
    if at >= path.len() {
        assert(whole[at] == added[at - path.len()]);
    } else {
        assert(path.subrange(from, path.len() as int)[at - from] == whole[at]);
        assert(segment.contains(segment[at - from]));
    }
}

} // verus!
