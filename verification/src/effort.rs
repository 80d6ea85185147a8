//! The effort tiers of GLM-5.3.
use crate::text;
use vstd::prelude::*;

verus! {

/// The effort tiers that Zhipu's API takes.
#[derive(Debug, Clone, Copy, PartialEq, Eq, Structural)]
pub enum Glm53Effort {
    Low,
    High,
    Max,
}

impl Glm53Effort {
    /// The word that stands for the tier in a request.
    pub open spec fn word(self) -> Seq<char> {
        match self {
            Glm53Effort::Low => "low"@,
            Glm53Effort::High => "high"@,
            Glm53Effort::Max => "max"@,
        }
    }

    /// The strength of the tier, from the lowest up.
    pub open spec fn rank(self) -> int {
        match self {
            Glm53Effort::Low => 0,
            Glm53Effort::High => 1,
            Glm53Effort::Max => 2,
        }
    }

    /// The word that stands for the tier in a request.
    pub fn as_str(self) -> (word: &'static str)
        ensures
            word@ == self.word(),
            self == Glm53Effort::Low ==> word@ == "low"@,
            self == Glm53Effort::High ==> word@ == "high"@,
            self == Glm53Effort::Max ==> word@ == "max"@,
    {
        match self {
            Glm53Effort::Low => "low",
            Glm53Effort::High => "high",
            Glm53Effort::Max => "max",
        }
    }
}

/// The tier that a word in lower case stands for. GLM-5.3 has no tier for
/// "off" or "minimal": both fall to its lowest.
pub open spec fn effort_word(word: Seq<char>) -> Option<Glm53Effort> {
    if word == "none"@ || word == "off"@ || word == "disabled"@ || word == "minimal"@ || word
        == "low"@ {
        Some(Glm53Effort::Low)
    } else if word == "medium"@ || word == "high"@ {
        Some(Glm53Effort::High)
    } else if word == "xhigh"@ || word == "max"@ || word == "ultra"@ {
        Some(Glm53Effort::Max)
    } else {
        None
    }
}

/// The tier that a client's effort value stands for, whatever its case and
/// the white space round it.
pub open spec fn effort_named(value: Seq<char>) -> Option<Glm53Effort> {
    effort_word(text::lowered(text::trimmed(value)))
}

/// No word stands for two tiers.
pub(crate) proof fn lemma_words_differ()
    ensures
        "none"@ != "medium"@,
        "none"@ != "high"@,
        "none"@ != "xhigh"@,
        "none"@ != "max"@,
        "none"@ != "ultra"@,
        "off"@ != "medium"@,
        "off"@ != "high"@,
        "off"@ != "xhigh"@,
        "off"@ != "max"@,
        "off"@ != "ultra"@,
        "disabled"@ != "medium"@,
        "disabled"@ != "high"@,
        "disabled"@ != "xhigh"@,
        "disabled"@ != "max"@,
        "disabled"@ != "ultra"@,
        "minimal"@ != "medium"@,
        "minimal"@ != "high"@,
        "minimal"@ != "xhigh"@,
        "minimal"@ != "max"@,
        "minimal"@ != "ultra"@,
        "low"@ != "medium"@,
        "low"@ != "high"@,
        "low"@ != "xhigh"@,
        "low"@ != "max"@,
        "low"@ != "ultra"@,
        "medium"@ != "xhigh"@,
        "medium"@ != "max"@,
        "medium"@ != "ultra"@,
        "high"@ != "xhigh"@,
        "high"@ != "max"@,
        "high"@ != "ultra"@,
{
    reveal_strlit("none");
    assert("none"@.len() == 4 && "none"@[0] == 'n');
    reveal_strlit("off");
    assert("off"@.len() == 3 && "off"@[0] == 'o');
    reveal_strlit("disabled");
    assert("disabled"@.len() == 8 && "disabled"@[0] == 'd');
    reveal_strlit("minimal");
    assert("minimal"@.len() == 7 && "minimal"@[0] == 'm');
    reveal_strlit("low");
    assert("low"@.len() == 3 && "low"@[0] == 'l');
    reveal_strlit("medium");
    assert("medium"@.len() == 6 && "medium"@[0] == 'm');
    reveal_strlit("high");
    assert("high"@.len() == 4 && "high"@[0] == 'h');
    reveal_strlit("xhigh");
    assert("xhigh"@.len() == 5 && "xhigh"@[0] == 'x');
    reveal_strlit("max");
    assert("max"@.len() == 3 && "max"@[0] == 'm');
    reveal_strlit("ultra");
    assert("ultra"@.len() == 5 && "ultra"@[0] == 'u');
}

/// The tier that a client's effort value stands for; `None` for a value that
/// names no tier.
pub fn map_effort(value: &str) -> (effort: Option<Glm53Effort>)
    ensures
        effort == effort_named(value@),
        ({
            let word = text::lowered(text::trimmed(value@));
            &&& effort == Some(Glm53Effort::Low) <==> (word == "none"@ || word == "off"@ || word
                == "disabled"@ || word == "minimal"@ || word == "low"@)
            &&& effort == Some(Glm53Effort::High) <==> (word == "medium"@ || word == "high"@)
            &&& effort == Some(Glm53Effort::Max) <==> (word == "xhigh"@ || word == "max"@ || word
                == "ultra"@)
        }),
{
    proof {
        lemma_words_differ();
    }
    let lower = value.trim().to_ascii_lowercase();
    let word = lower.as_str();
    if text::same_text(word, "none") || text::same_text(word, "off")
        || text::same_text(word, "disabled") || text::same_text(word, "minimal")
        || text::same_text(word, "low") {
        Some(Glm53Effort::Low)
    } else if text::same_text(word, "medium") || text::same_text(word, "high") {
        Some(Glm53Effort::High)
    } else if text::same_text(word, "xhigh") || text::same_text(word, "max")
        || text::same_text(word, "ultra") {
        Some(Glm53Effort::Max)
    } else {
        None
    }
}

/// The tier that a token budget stands for.
pub open spec fn budget_effort(budget: u64) -> Glm53Effort {
    if budget <= 2_048 {
        Glm53Effort::Low
    } else if budget <= 16_384 {
        Glm53Effort::High
    } else {
        Glm53Effort::Max
    }
}

/// The tier that a token budget stands for: the larger the budget, the higher
/// the tier.
pub fn budget_to_effort(budget: u64) -> (effort: Glm53Effort)
    ensures
        effort == budget_effort(budget),
        effort == Glm53Effort::Low <==> budget <= 2_048,
        effort == Glm53Effort::High <==> 2_048 < budget <= 16_384,
        effort == Glm53Effort::Max <==> 16_384 < budget,
{
    match budget {
        0..=2_048 => Glm53Effort::Low,
        2_049..=16_384 => Glm53Effort::High,
        _ => Glm53Effort::Max,
    }
}

} // verus!
