//! What requests ask for, and how they are rewritten.
use glm_reasoning::{
    capture_glm_5_3_reasoning_intent, normalize_direct_zhipu_glm_5_3_request,
    normalize_glm_5_3_request, Glm53Effort, Glm53ReasoningIntent,
};
use serde_json::Value;

const ANTHROPIC: &str = "https://api.z.ai/api/anthropic";

fn value(text: &str) -> Value {
    serde_json::from_str(text).unwrap()
}

fn asks(effort: Option<Glm53Effort>) -> Option<Glm53ReasoningIntent> {
    Some(Glm53ReasoningIntent::new(effort))
}

fn captured(text: &str) -> Option<Glm53ReasoningIntent> {
    capture_glm_5_3_reasoning_intent(&value(text))
}

#[test]
fn messages_disabled_becomes_enabled_low_and_preserves_siblings() {
    let mut body = value(
        r#"{
            "model": "glm-5.3",
            "messages": [{ "role": "user", "content": "hi" }],
            "thinking": {
                "type": "disabled",
                "budget_tokens": 8192,
                "clear_thinking": false
            },
            "output_config": { "effort": "max", "verbosity": "low" }
        }"#,
    );

    assert!(normalize_direct_zhipu_glm_5_3_request(
        "https://api.z.ai/api/anthropic",
        &mut body,
        None,
    ));
    assert_eq!(
        body["thinking"],
        value(r#"{ "type": "enabled", "clear_thinking": false }"#)
    );
    assert_eq!(body["reasoning_effort"], "low");
    assert_eq!(body["output_config"], value(r#"{ "verbosity": "low" }"#));
}

#[test]
fn adaptive_claude_controls_become_enabled_max() {
    let mut body = value(
        r#"{
            "model": "zhipu/GLM-5.3[1M]",
            "messages": [{ "role": "user", "content": "hi" }],
            "thinking": { "type": "adaptive" },
            "output_config": { "effort": "max" }
        }"#,
    );

    normalize_direct_zhipu_glm_5_3_request(
        "https://open.bigmodel.cn/api/anthropic",
        &mut body,
        None,
    );
    assert_eq!(body["thinking"], value(r#"{ "type": "enabled" }"#));
    assert_eq!(body["reasoning_effort"], "max");
    assert!(body.get("output_config").is_none());
}

#[test]
fn legacy_budget_controls_collapse_to_legal_effort_tiers() {
    for (budget, expected) in [(2_048, "low"), (8_192, "high"), (24_576, "max")] {
        let mut body = value(
            r#"{
                "model": "glm-5.3",
                "messages": [{ "role": "user", "content": "hi" }],
                "thinking": { "type": "enabled" }
            }"#,
        );
        body["thinking"]["budget_tokens"] = Value::from(budget);

        normalize_direct_zhipu_glm_5_3_request(
            "https://api.z.ai/api/anthropic",
            &mut body,
            None,
        );
        assert_eq!(body["thinking"], value(r#"{ "type": "enabled" }"#));
        assert_eq!(body["reasoning_effort"], expected, "budget={budget}");
    }
}

#[test]
fn converted_chat_restores_original_effort_when_converter_kept_only_on_off() {
    let original = value(r#"{ "reasoning": { "effort": "medium" }, "input": "hi" }"#);
    let intent = capture_glm_5_3_reasoning_intent(&original);
    let mut converted = value(
        r#"{
            "model": "glm-5.3",
            "messages": [{ "role": "user", "content": "hi" }],
            "thinking": { "type": "enabled" }
        }"#,
    );

    assert!(normalize_direct_zhipu_glm_5_3_request(
        "https://open.bigmodel.cn/api/coding/paas/v4",
        &mut converted,
        intent,
    ));
    assert_eq!(converted["thinking"]["type"], "enabled");
    assert_eq!(converted["reasoning_effort"], "high");
}

#[test]
fn converted_messages_disable_wins_over_a_stronger_original_tier() {
    let original =
        capture_glm_5_3_reasoning_intent(&value(r#"{ "reasoning": { "effort": "max" } }"#));
    let mut converted = value(
        r#"{
            "model": "glm-5.3",
            "messages": [{ "role": "user", "content": "hi" }],
            "thinking": { "type": "disabled" }
        }"#,
    );

    normalize_direct_zhipu_glm_5_3_request(
        "https://api.z.ai/api/anthropic",
        &mut converted,
        original,
    );
    assert_eq!(converted["thinking"]["type"], "enabled");
    assert_eq!(converted["reasoning_effort"], "low");
}

#[test]
fn responses_none_becomes_low_and_preserves_reasoning_siblings() {
    let mut body = value(
        r#"{
            "model": "glm-5.3",
            "input": "hi",
            "reasoning": { "effort": "none", "summary": "auto" }
        }"#,
    );

    normalize_direct_zhipu_glm_5_3_request("https://api.z.ai/api/v1", &mut body, None);
    assert_eq!(body["reasoning"]["effort"], "low");
    assert_eq!(body["reasoning"]["summary"], "auto");
}

#[test]
fn responses_unknown_effort_is_dropped_without_losing_siblings() {
    let mut body = value(
        r#"{
            "model": "glm-5.3",
            "input": "hi",
            "reasoning": { "effort": "bogus", "summary": "auto" }
        }"#,
    );

    normalize_direct_zhipu_glm_5_3_request("https://api.z.ai/api/v1", &mut body, None);
    assert!(body["reasoning"].get("effort").is_none());
    assert_eq!(body["reasoning"]["summary"], "auto");
}

#[test]
fn responses_conversion_restores_disabled_intent_after_field_loss() {
    let original =
        capture_glm_5_3_reasoning_intent(&value(r#"{ "thinking": { "type": "disabled" } }"#));
    let mut converted = value(r#"{ "model": "glm-5.3", "input": "hi" }"#);

    normalize_direct_zhipu_glm_5_3_request("https://api.z.ai/api/v1", &mut converted, original);
    assert_eq!(converted["reasoning"], value(r#"{ "effort": "low" }"#));
}

/// The converters between wire formats are not part of this library: the
/// converted requests are written out.
#[test]
fn claude_to_chat_and_responses_restore_disabled_as_low() {
    let input = value(
        r#"{
            "model": "glm-5.3",
            "max_tokens": 128,
            "thinking": { "type": "disabled" },
            "messages": [{ "role": "user", "content": "hi" }]
        }"#,
    );
    let intent = capture_glm_5_3_reasoning_intent(&input);

    let mut chat = value(
        r#"{
            "model": "glm-5.3",
            "max_tokens": 128,
            "messages": [{ "role": "user", "content": "hi" }]
        }"#,
    );
    assert!(chat.get("thinking").is_none());
    normalize_direct_zhipu_glm_5_3_request(
        "https://open.bigmodel.cn/api/coding/paas/v4",
        &mut chat,
        intent,
    );
    assert_eq!(chat["thinking"]["type"], "enabled");
    assert_eq!(chat["reasoning_effort"], "low");

    let mut responses = value(
        r#"{
            "model": "glm-5.3",
            "max_output_tokens": 128,
            "input": [{ "role": "user", "content": "hi" }]
        }"#,
    );
    assert!(responses.get("reasoning").is_none());
    normalize_direct_zhipu_glm_5_3_request("https://api.z.ai/api/v1", &mut responses, intent);
    assert_eq!(responses["reasoning"], value(r#"{ "effort": "low" }"#));
}

/// The converters between wire formats are not part of this library: the
/// converted requests are written out.
#[test]
fn codex_to_chat_and_anthropic_never_forward_disabled() {
    let input = value(
        r#"{
            "model": "glm-5.3",
            "max_output_tokens": 128,
            "reasoning": null,
            "input": [{ "role": "user", "content": "hi" }]
        }"#,
    );
    let intent = capture_glm_5_3_reasoning_intent(&input);

    let mut chat = value(
        r#"{
            "model": "glm-5.3",
            "max_tokens": 128,
            "messages": [{ "role": "user", "content": "hi" }],
            "thinking": { "type": "disabled" }
        }"#,
    );
    assert_eq!(chat["thinking"]["type"], "disabled");
    normalize_direct_zhipu_glm_5_3_request(
        "https://open.bigmodel.cn/api/coding/paas/v4",
        &mut chat,
        intent,
    );
    assert_eq!(chat["thinking"]["type"], "enabled");
    assert_eq!(chat["reasoning_effort"], "low");

    let mut anthropic = value(
        r#"{
            "model": "glm-5.3",
            "max_tokens": 128,
            "messages": [{ "role": "user", "content": "hi" }]
        }"#,
    );
    assert!(anthropic.get("thinking").is_none());
    normalize_direct_zhipu_glm_5_3_request(
        "https://api.z.ai/api/anthropic",
        &mut anthropic,
        intent,
    );
    assert_eq!(anthropic["thinking"]["type"], "enabled");
    assert_eq!(anthropic["reasoning_effort"], "low");
}

#[test]
fn absent_controls_and_neighboring_models_remain_byte_identical() {
    let cases = [
        value(r#"{ "model": "glm-5.3", "messages": [{ "role": "user", "content": "hi" }] }"#),
        value(r#"{ "model": "glm-5.2", "messages": [], "thinking": { "type": "disabled" } }"#),
        value(r#"{ "model": "glm-5.3", "messages": [], "thinking": { "type": "disabled" } }"#),
    ];
    let urls = [
        "https://api.z.ai/api/anthropic",
        "https://api.z.ai/api/anthropic",
        "https://openrouter.ai/api/v1",
    ];

    for (mut body, url) in cases.into_iter().zip(urls) {
        let original = body.clone();
        assert!(!normalize_direct_zhipu_glm_5_3_request(
            url, &mut body, None
        ));
        assert_eq!(body, original);
    }
}

#[test]
fn unknown_wire_shapes_fail_open_even_with_a_captured_intent() {
    let intent =
        capture_glm_5_3_reasoning_intent(&value(r#"{ "thinking": { "type": "disabled" } }"#));
    let mut gemini = value(
        r#"{
            "model": "glm-5.3",
            "contents": [{ "role": "user", "parts": [{ "text": "hi" }] }],
            "generationConfig": {}
        }"#,
    );
    let original = gemini.clone();

    assert!(!normalize_direct_zhipu_glm_5_3_request(
        "https://api.z.ai/api/anthropic",
        &mut gemini,
        intent,
    ));
    assert_eq!(gemini, original);
}

#[test]
fn final_override_tier_wins_on_the_second_normalization_pass() {
    let original =
        capture_glm_5_3_reasoning_intent(&value(r#"{ "thinking": { "type": "disabled" } }"#));
    let mut body = value(
        r#"{
            "model": "glm-5.3",
            "messages": [{ "role": "user", "content": "hi" }]
        }"#,
    );
    normalize_direct_zhipu_glm_5_3_request(
        "https://api.z.ai/api/anthropic",
        &mut body,
        original,
    );
    assert_eq!(body["reasoning_effort"], "low");

    body["reasoning_effort"] = Value::from("max");
    normalize_direct_zhipu_glm_5_3_request("https://api.z.ai/api/anthropic", &mut body, None);
    assert_eq!(body["thinking"]["type"], "enabled");
    assert_eq!(body["reasoning_effort"], "max");
}

#[test]
fn captured_controls_count_in_order() {
    let low = asks(Some(Glm53Effort::Low));
    let high = asks(Some(Glm53Effort::High));
    let max = asks(Some(Glm53Effort::Max));
    assert_eq!(
        captured(r#"{ "thinking": { "type": "DISABLED" }, "reasoning_effort": "max" }"#),
        low
    );
    assert_eq!(
        captured(r#"{ "reasoning_effort": "max", "reasoning": { "effort": "low" } }"#),
        max
    );
    assert_eq!(
        captured(r#"{ "reasoning": { "effort": "high" }, "output_config": { "effort": "max" } }"#),
        high
    );
    assert_eq!(
        captured(r#"{ "reasoning": null, "output_config": { "effort": "max" } }"#),
        low
    );
    assert_eq!(
        captured(r#"{ "output_config": { "effort": "medium" }, "thinking": { "type": "adaptive" } }"#),
        high
    );
    assert_eq!(captured(r#"{ "thinking": { "type": "Adaptive" } }"#), max);
    // A value that is no string is passed over.
    assert_eq!(
        captured(r#"{ "reasoning_effort": 3, "reasoning": { "effort": "low" } }"#),
        low
    );
}

#[test]
fn captured_budgets_are_unsigned_integers() {
    for (budget, expected) in [
        ("2048", Some(Glm53Effort::Low)),
        ("2049", Some(Glm53Effort::High)),
        ("16385", Some(Glm53Effort::Max)),
        ("18446744073709551615", Some(Glm53Effort::Max)),
        ("18446744073709551616", None),
        ("-1", None),
        ("2048.0", None),
        ("\"2048\"", None),
        ("null", None),
    ] {
        let text =
            format!(r#"{{ "thinking": {{ "type": "enabled", "budget_tokens": {budget} }} }}"#);
        assert_eq!(captured(&text), asks(expected), "{budget}");
    }
    assert_eq!(captured(r#"{ "thinking": { "type": "enabled" } }"#), asks(None));
}

#[test]
fn captured_controls_without_a_tier_and_no_controls_differ() {
    assert_eq!(captured(r#"{ "thinking": { "type": "auto" } }"#), asks(None));
    assert_eq!(captured(r#"{ "reasoning_effort": "bogus" }"#), asks(None));
    assert_eq!(captured(r#"{ "reasoning": {} }"#), asks(None));
    assert_eq!(captured(r#"{ "reasoning": "low" }"#), asks(None));
    assert_eq!(captured(r#"{ "reasoning": { "effort": 1 } }"#), asks(None));
    for text in [
        "{}",
        "null",
        "true",
        "\"reasoning\"",
        "[{ \"reasoning\": null }]",
        r#"{ "thinking": "disabled" }"#,
        r#"{ "thinking": { "type": 1 } }"#,
        r#"{ "thinking": ["disabled"] }"#,
        r#"{ "reasoning_effort": null }"#,
        r#"{ "output_config": { "effort": null } }"#,
        r#"{ "messages": [{ "reasoning_effort": "max" }] }"#,
    ] {
        assert_eq!(captured(text), None, "{text}");
    }
}

#[test]
fn messages_get_the_whole_legal_form() {
    let mut body = value(
        r#"{
            "model": "glm-5.3",
            "messages": [],
            "thinking": "on",
            "reasoning_effort": 7,
            "reasoning": { "effort": " XHIGH ", "summary": "auto" },
            "output_config": { "effort": "low" },
            "temperature": 0.5
        }"#,
    );
    assert!(normalize_glm_5_3_request(&mut body, None));
    assert_eq!(
        body,
        value(
            r#"{
                "model": "glm-5.3",
                "messages": [],
                "thinking": { "type": "enabled" },
                "reasoning_effort": "max",
                "temperature": 0.5
            }"#
        )
    );
}

#[test]
fn messages_without_a_tier_lose_an_unknown_effort() {
    let mut body = value(
        r#"{
            "model": "glm-5.3",
            "messages": [],
            "thinking": { "type": "Enabled", "budget_tokens": null, "keep": [1, -2, 2.5] },
            "reasoning_effort": "bogus"
        }"#,
    );
    assert!(normalize_glm_5_3_request(&mut body, None));
    assert_eq!(
        body,
        value(
            r#"{
                "model": "glm-5.3",
                "messages": [],
                "thinking": { "type": "enabled", "keep": [1, -2, 2.5] }
            }"#
        )
    );
}

#[test]
fn responses_get_the_whole_legal_form() {
    let mut body = value(
        r#"{
            "model": "glm-5.3",
            "instructions": "be brief",
            "thinking": { "type": "adaptive", "x": 1 },
            "reasoning_effort": "medium",
            "reasoning": "auto",
            "output_config": { "effort": "low", "verbosity": "high" }
        }"#,
    );
    assert!(normalize_glm_5_3_request(&mut body, None));
    assert_eq!(
        body,
        value(
            r#"{
                "model": "glm-5.3",
                "instructions": "be brief",
                "reasoning": { "effort": "high" },
                "output_config": { "verbosity": "high" }
            }"#
        )
    );
}

#[test]
fn responses_without_a_tier_lose_an_empty_reasoning() {
    for reasoning in ["{}", r#"{ "effort": "bogus" }"#, r#"{ "effort": 1 }"#] {
        let text = format!(r#"{{ "model": "glm-5.3", "input": "hi", "reasoning": {reasoning} }}"#);
        let mut body = value(&text);
        assert!(normalize_glm_5_3_request(&mut body, None), "{reasoning}");
        assert_eq!(body, value(r#"{ "model": "glm-5.3", "input": "hi" }"#));
    }
    // A value of another kind stays.
    let mut body = value(r#"{ "model": "glm-5.3", "input": "hi", "reasoning": "auto" }"#);
    let before = body.clone();
    assert!(!normalize_glm_5_3_request(&mut body, None));
    assert_eq!(body, before);
    // Null under an effort value that names no tier goes.
    let mut body = value(
        r#"{ "model": "glm-5.3", "input": "hi", "reasoning": null, "reasoning_effort": "bogus" }"#,
    );
    assert!(normalize_glm_5_3_request(&mut body, None));
    assert_eq!(body, value(r#"{ "model": "glm-5.3", "input": "hi" }"#));
}

#[test]
fn reasoning_alone_is_enough_for_the_responses_shape() {
    let mut body = value(r#"{ "model": "glm-5.3", "reasoning": null }"#);
    assert!(normalize_glm_5_3_request(&mut body, None));
    assert_eq!(
        body,
        value(r#"{ "model": "glm-5.3", "reasoning": { "effort": "low" } }"#)
    );
}

#[test]
fn a_second_pass_changes_nothing() {
    let original = asks(Some(Glm53Effort::High));
    for text in [
        r#"{ "model": "glm-5.3", "messages": [], "thinking": { "type": "disabled" }, "output_config": { "effort": "x", "v": 1 } }"#,
        r#"{ "model": "glm-5.3", "messages": [], "reasoning": { "effort": "bogus" } }"#,
        r#"{ "model": "glm-5.3", "input": [], "reasoning": { "effort": "ultra", "summary": "auto" } }"#,
        r#"{ "model": "glm-5.3", "reasoning": { "effort": "bogus" } }"#,
        r#"{ "model": "glm-5.3", "input": [], "output_config": {} }"#,
    ] {
        for first in [None, original, asks(None)] {
            let mut body = value(text);
            normalize_direct_zhipu_glm_5_3_request(ANTHROPIC, &mut body, first);
            for again in [first, None] {
                let sent = body.clone();
                let reported = normalize_direct_zhipu_glm_5_3_request(ANTHROPIC, &mut body, again);
                assert!(!reported, "{text}");
                assert_eq!(body, sent, "{text}");
            }
        }
    }
}

#[test]
fn a_lost_tier_comes_back_and_an_outbound_tier_holds() {
    let original = asks(Some(Glm53Effort::High));
    for (text, expected) in [
        (r#"{ "model": "glm-5.3", "messages": [] }"#, "high"),
        (r#"{ "model": "glm-5.3", "messages": [], "reasoning_effort": "bogus" }"#, "high"),
        (r#"{ "model": "glm-5.3", "messages": [], "reasoning_effort": "max" }"#, "max"),
        (r#"{ "model": "glm-5.3", "messages": [], "thinking": { "type": "disabled" } }"#, "low"),
    ] {
        let mut body = value(text);
        assert!(normalize_glm_5_3_request(&mut body, original));
        assert_eq!(body["thinking"]["type"], "enabled");
        assert_eq!(body["reasoning_effort"], expected, "{text}");
    }
    let mut body = value(r#"{ "model": "glm-5.3", "input": "hi", "thinking": { "type": "auto" } }"#);
    assert!(normalize_glm_5_3_request(&mut body, original));
    assert_eq!(
        body,
        value(r#"{ "model": "glm-5.3", "input": "hi", "reasoning": { "effort": "high" } }"#)
    );
}

#[test]
fn a_later_effort_value_is_written_as_its_tier() {
    let mut body = value(
        r#"{ "model": "glm-5.3", "messages": [], "thinking": { "type": "disabled", "k": 1 } }"#,
    );
    assert!(normalize_glm_5_3_request(&mut body, None));
    body["reasoning_effort"] = Value::from(" Medium ");
    assert!(normalize_glm_5_3_request(&mut body, asks(Some(Glm53Effort::Max))));
    assert_eq!(
        body,
        value(
            r#"{
                "model": "glm-5.3",
                "messages": [],
                "thinking": { "type": "enabled", "k": 1 },
                "reasoning_effort": "high"
            }"#
        )
    );
}

#[test]
fn of_two_rewrites_for_messages_the_last_tier_wins() {
    let mut body = value(
        r#"{
            "model": "glm-5.3",
            "messages": [],
            "thinking": { "type": "adaptive", "budget_tokens": 9, "k": true },
            "reasoning": { "summary": "auto" },
            "output_config": { "effort": "x", "v": 1 },
            "reasoning_effort": "low"
        }"#,
    );
    let mut alone = body.clone();
    alone["reasoning_effort"] = Value::from("max");
    assert!(normalize_glm_5_3_request(&mut alone, None));

    assert!(normalize_glm_5_3_request(&mut body, None));
    assert_eq!(body["reasoning_effort"], "low");
    body["reasoning_effort"] = Value::from("max");
    assert!(!normalize_glm_5_3_request(&mut body, None));
    assert_eq!(body, alone);
}

#[test]
fn of_two_rewrites_for_responses_the_last_tier_wins() {
    let mut body = value(
        r#"{
            "model": "glm-5.3",
            "input": "hi",
            "reasoning": { "effort": "none", "summary": "auto" },
            "output_config": { "effort": "x", "v": 1 }
        }"#,
    );
    let mut alone = body.clone();
    alone["reasoning"]["effort"] = Value::from("ultra");
    assert!(normalize_glm_5_3_request(&mut alone, None));

    assert!(normalize_glm_5_3_request(&mut body, None));
    assert_eq!(body["reasoning"]["effort"], "low");
    body["reasoning"]["effort"] = Value::from("ultra");
    assert!(normalize_glm_5_3_request(&mut body, None));
    assert_eq!(body, alone);
    assert!(!normalize_glm_5_3_request(&mut body, None));
    assert_eq!(body, alone);
}

#[test]
fn a_rewritten_request_asks_for_its_tier() {
    for (text, expected) in [
        (
            r#"{ "model": "glm-5.3", "messages": [], "thinking": { "type": "adaptive" } }"#,
            asks(Some(Glm53Effort::Max)),
        ),
        (
            r#"{ "model": "glm-5.3", "messages": [], "reasoning_effort": "bogus" }"#,
            asks(None),
        ),
        (
            r#"{ "model": "glm-5.3", "input": "hi", "thinking": { "type": "disabled" } }"#,
            asks(Some(Glm53Effort::Low)),
        ),
        (
            r#"{ "model": "glm-5.3", "input": "hi", "reasoning": { "effort": "bogus", "summary": "auto" } }"#,
            asks(None),
        ),
        (
            r#"{ "model": "glm-5.3", "input": "hi", "reasoning": { "effort": "bogus" } }"#,
            None,
        ),
    ] {
        let mut body = value(text);
        assert!(normalize_glm_5_3_request(&mut body, None));
        assert_eq!(capture_glm_5_3_reasoning_intent(&body), expected, "{text}");
    }
}

#[test]
fn an_empty_output_config_goes_unreported() {
    let mut body = value(
        r#"{
            "model": "glm-5.3",
            "messages": [],
            "thinking": { "type": "enabled" },
            "reasoning_effort": "high",
            "output_config": {}
        }"#,
    );
    assert!(!normalize_glm_5_3_request(&mut body, None));
    assert!(body.get("output_config").is_none());
    assert_eq!(body["reasoning_effort"], "high");

    // One that is no object stays.
    let mut body = value(
        r#"{
            "model": "glm-5.3",
            "messages": [],
            "thinking": { "type": "enabled" },
            "output_config": []
        }"#,
    );
    assert!(!normalize_glm_5_3_request(&mut body, None));
    assert_eq!(body["output_config"], value("[]"));
}

#[test]
fn values_that_name_no_model_stay() {
    let intent = asks(Some(Glm53Effort::Low));
    for text in [
        "null",
        "[]",
        "\"glm-5.3\"",
        "{}",
        r#"{ "messages": [] }"#,
        r#"{ "model": 5.3, "messages": [] }"#,
        r#"{ "model": "glm-5.3v", "messages": [] }"#,
    ] {
        let mut body = value(text);
        let before = body.clone();
        assert!(!normalize_direct_zhipu_glm_5_3_request(
            ANTHROPIC, &mut body, intent
        ));
        assert_eq!(body, before, "{text}");
    }
}
