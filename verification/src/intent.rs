//! What a request asks for.
use crate::effort;
use crate::effort::Glm53Effort;
use crate::json;
use crate::json::Json;
use crate::text;
use serde_json::Value;
use vstd::prelude::*;

verus! {

/// A request for reasoning, read before a converter between wire formats can
/// turn a tier into a plain switch. Without a tier it stands for a control
/// that is there but names none.
#[derive(Debug, Clone, Copy, PartialEq, Eq, Structural)]
pub struct Glm53ReasoningIntent {
    pub effort: Option<Glm53Effort>,
}

impl Glm53ReasoningIntent {
    pub fn new(effort: Option<Glm53Effort>) -> (intent: Self)
        ensures
            intent.effort == effort,
    {
        Glm53ReasoningIntent { effort }
    }
}

/// An intent with or without a tier.
pub open spec fn asks(effort: Option<Glm53Effort>) -> Option<Glm53ReasoningIntent> {
    Some(Glm53ReasoningIntent { effort })
}

/// The word under `thinking.type`, in lower case.
pub open spec fn thinking_kind(body: Json) -> Option<Seq<char>> {
    match json::text_of(body.path("thinking"@, "type"@)) {
        Some(word) => Some(text::lowered(word)),
        None => None,
    }
}

/// The tier that `thinking.budget_tokens` stands for.
pub open spec fn thinking_budget(body: Json) -> Option<Glm53Effort> {
    match json::unsigned_of(body.path("thinking"@, "budget_tokens"@)) {
        Some(budget) => Some(effort::budget_effort(budget)),
        None => None,
    }
}

/// The effort value that a request states in words. Where it states several,
/// the first of `reasoning_effort` and `reasoning.effort` holds.
pub open spec fn stated_effort(body: Json) -> Option<Seq<char>> {
    match json::text_of(body.member("reasoning_effort"@)) {
        Some(word) => Some(word),
        None => json::text_of(body.path("reasoning"@, "effort"@)),
    }
}

/// What a request asks for, in the order in which its controls count: thinking
/// switched off, an effort value, reasoning set to null, the effort value of
/// `output_config`, and last the kind of thinking.
pub open spec fn captured(body: Json) -> Option<Glm53ReasoningIntent> {
    if thinking_kind(body) == Some("disabled"@) {
        asks(Some(Glm53Effort::Low))
    } else if let Some(word) = stated_effort(body) {
        asks(effort::effort_named(word))
    } else if body.member("reasoning"@) == Some(Json::Null) {
        asks(Some(Glm53Effort::Low))
    } else if let Some(word) = json::text_of(body.path("output_config"@, "effort"@)) {
        asks(effort::effort_named(word))
    } else if thinking_kind(body) == Some("adaptive"@) {
        asks(Some(Glm53Effort::Max))
    } else if thinking_kind(body) == Some("enabled"@) {
        asks(thinking_budget(body))
    } else if thinking_kind(body) is Some || body.member("reasoning"@) is Some {
        asks(None)
    } else {
        None
    }
}

/// The JSON Pointers below lead to plain keys.
proof fn lemma_pointers()
    ensures
        json::is_plain_key("thinking"@),
        json::is_plain_key("type"@),
        json::is_plain_key("budget_tokens"@),
        json::is_plain_key("reasoning"@),
        json::is_plain_key("effort"@),
        json::is_plain_key("output_config"@),
        "/thinking/type"@ == json::pointer_to("thinking"@, "type"@),
        "/thinking/budget_tokens"@ == json::pointer_to("thinking"@, "budget_tokens"@),
        "/reasoning/effort"@ == json::pointer_to("reasoning"@, "effort"@),
        "/output_config/effort"@ == json::pointer_to("output_config"@, "effort"@),
{
    reveal_strlit("thinking");
    reveal_strlit("type");
    reveal_strlit("budget_tokens");
    reveal_strlit("reasoning");
    reveal_strlit("effort");
    reveal_strlit("output_config");
    reveal_strlit("/thinking/type");
    reveal_strlit("/thinking/budget_tokens");
    reveal_strlit("/reasoning/effort");
    reveal_strlit("/output_config/effort");
    assert("/thinking/type"@ =~= json::pointer_to("thinking"@, "type"@));
    assert("/thinking/budget_tokens"@ =~= json::pointer_to("thinking"@, "budget_tokens"@));
    assert("/reasoning/effort"@ =~= json::pointer_to("reasoning"@, "effort"@));
    assert("/output_config/effort"@ =~= json::pointer_to("output_config"@, "effort"@));
}

/// Reads the string at the end of a JSON Pointer.
fn pointer_text<'a>(
    body: &'a Value,
    pointer: &str,
    Ghost(first): Ghost<Seq<char>>,
    Ghost(second): Ghost<Seq<char>>,
) -> (word: Option<&'a str>)
    requires
        json::is_plain_key(first),
        json::is_plain_key(second),
        pointer@ == json::pointer_to(first, second),
    ensures
        match word {
            Some(w) => json::text_of(json::json(*body).path(first, second)) == Some(w@),
            None => json::text_of(json::json(*body).path(first, second)) is None,
        },
{
    match body.pointer(pointer) {
        Some(found) => found.as_str(),
        None => None,
    }
}

/// Reads what a request asks for, whether it has the shape of Anthropic's
/// messages, of chat completions or of OpenAI's responses. A control that is
/// there but names no known tier gives an intent without a tier, so that an
/// illegal field can be taken out without inventing a tier. No control at all
/// gives `None`: GLM-5.3 then keeps its own default.
pub fn capture_glm_5_3_reasoning_intent(body: &Value) -> (intent: Option<Glm53ReasoningIntent>)
    ensures
        intent == captured(json::json(*body)),
{
    proof {
        lemma_pointers();
    }
    let thinking_type: Option<String> = match pointer_text(
        body,
        "/thinking/type",
        Ghost("thinking"@),
        Ghost("type"@),
    ) {
        Some(word) => Some(word.to_ascii_lowercase()),
        None => None,
    };
    let kind: Option<&str> = match &thinking_type {
        Some(word) => Some(word.as_str()),
        None => None,
    };
    if is_word(kind, "disabled") {
        return Some(Glm53ReasoningIntent::new(Some(Glm53Effort::Low)));
    }
    if let Some(word) = json::get_text(body, "reasoning_effort") {
        return Some(Glm53ReasoningIntent::new(effort::map_effort(word)));
    }
    if let Some(word) = pointer_text(
        body,
        "/reasoning/effort",
        Ghost("reasoning"@),
        Ghost("effort"@),
    ) {
        return Some(Glm53ReasoningIntent::new(effort::map_effort(word)));
    }
    let reasoning = json::value_get(body, "reasoning");
    if let Some(value) = reasoning {
        if value.is_null() {
            return Some(Glm53ReasoningIntent::new(Some(Glm53Effort::Low)));
        }
    }
    if let Some(word) = pointer_text(
        body,
        "/output_config/effort",
        Ghost("output_config"@),
        Ghost("effort"@),
    ) {
        return Some(Glm53ReasoningIntent::new(effort::map_effort(word)));
    }
    if is_word(kind, "adaptive") {
        Some(Glm53ReasoningIntent::new(Some(Glm53Effort::Max)))
    } else if is_word(kind, "enabled") {
        let budget: Option<u64> = match body.pointer("/thinking/budget_tokens") {
            Some(found) => found.as_u64(),
            None => None,
        };
        Some(
            Glm53ReasoningIntent::new(
                match budget {
                    Some(tokens) => Some(effort::budget_to_effort(tokens)),
                    None => None,
                },
            ),
        )
    } else if kind.is_some() || reasoning.is_some() {
        Some(Glm53ReasoningIntent::new(None))
    } else {
        None
    }
}

/// Whether there is a word and it is `word`.
fn is_word(found: Option<&str>, word: &str) -> (same: bool)
    ensures
        same == (found is Some && found->0@ == word@),
{
    match found {
        Some(w) => text::same_text(w, word),
        None => false,
    }
}

/// What holds of what an outbound request asks for and what the client asked
/// for at first: the outbound tier, where it names one, otherwise the first.
pub open spec fn merged(
    outbound: Option<Glm53ReasoningIntent>,
    original: Option<Glm53ReasoningIntent>,
) -> Option<Glm53ReasoningIntent> {
    match (outbound, original) {
        (None, _) => original,
        (Some(current), Some(fallback)) => if current.effort is Some {
            outbound
        } else {
            asks(fallback.effort)
        },
        (Some(_), None) => outbound,
    }
}

/// Joins what an outbound request asks for with what the client asked for
/// before the request was converted.
pub fn merge_intent(
    outbound: Option<Glm53ReasoningIntent>,
    original: Option<Glm53ReasoningIntent>,
) -> (intent: Option<Glm53ReasoningIntent>)
    ensures
        intent == merged(outbound, original),
{
    match (outbound, original) {
        (Some(current), Some(fallback)) if current.effort.is_none() => {
            Some(Glm53ReasoningIntent::new(fallback.effort))
        },
        (Some(current), _) => Some(current),
        (None, fallback) => fallback,
    }
}

} // verus!
