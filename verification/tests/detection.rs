//! Which models and gateways are concerned, and what effort values mean.
use glm_reasoning::{
    budget_to_effort, is_direct_zhipu_gateway, is_glm_5_3_model, is_zhipu_host, map_effort,
    merge_intent, Glm53Effort, Glm53ReasoningIntent,
};

#[test]
fn model_detection_is_exact_and_normalizes_supported_wrappers() {
    for model in [
        "glm-5.3",
        "GLM-5.3",
        "glm-5.3[1M]",
        "zhipu/glm-5.3",
        "models/zai-org/GLM-5.3[1m]",
    ] {
        assert!(is_glm_5_3_model(model), "{model}");
    }
    for model in ["glm-5.2", "glm-5.30", "glm-5.3v", "glm-5.3-air"] {
        assert!(!is_glm_5_3_model(model), "{model}");
    }
}

#[test]
fn direct_gateway_detection_rejects_host_lookalikes_and_aggregators() {
    for url in [
        "https://api.z.ai/api/anthropic",
        "https://open.bigmodel.cn/api/coding/paas/v4",
    ] {
        assert!(is_direct_zhipu_gateway(url), "{url}");
    }
    for url in [
        "https://api.z.ai.evil.example/v1",
        "https://openrouter.ai/api/v1",
        "https://api.siliconflow.cn/v1",
        "not-a-url",
    ] {
        assert!(!is_direct_zhipu_gateway(url), "{url}");
    }
}

#[test]
fn effort_mapping_covers_the_client_superset() {
    for (input, expected) in [
        ("none", Glm53Effort::Low),
        ("off", Glm53Effort::Low),
        ("disabled", Glm53Effort::Low),
        ("minimal", Glm53Effort::Low),
        ("low", Glm53Effort::Low),
        ("medium", Glm53Effort::High),
        ("high", Glm53Effort::High),
        ("xhigh", Glm53Effort::Max),
        ("max", Glm53Effort::Max),
        ("ultra", Glm53Effort::Max),
    ] {
        assert_eq!(map_effort(input), Some(expected), "{input}");
    }
    assert_eq!(map_effort("unknown"), None);
}

#[test]
fn model_names_ignore_space_case_marker_and_vendor_path() {
    for model in [
        "  glm-5.3\t",
        "\u{3000}GLM-5.3\u{a0}",
        "glm-5.3 [1m]",
        "glm-5.3 [1M]  ",
        "models/glm-5.3",
        "a/b/c/Glm-5.3",
        "models/models/glm-5.3",
        "/glm-5.3",
    ] {
        assert!(is_glm_5_3_model(model), "{model}");
    }
}

#[test]
fn nothing_but_the_exact_name_is_the_model() {
    for model in [
        "",
        " ",
        "[1m]",
        "models/",
        "glm-5.3/",
        "glm-5.3/air",
        "xglm-5.3",
        "glm 5.3",
        "glm-5.3[1m][1m]",
        "glm-5.3[2m]",
        "[1m]glm-5.3",
        "zhipu/ glm-5.3",
        "glm-5.3é",
    ] {
        assert!(!is_glm_5_3_model(model), "{model}");
    }
}

#[test]
fn what_follows_the_name_makes_another_model() {
    for model in ["glm-5.3", "GLM-5.3[1m]", "zhipu/glm-5.3 "] {
        assert!(is_glm_5_3_model(model));
        for more in ["0", "v", "-air", " v", "0[1m]", "x [1m] "] {
            let longer = format!("{model}{more}");
            assert!(!is_glm_5_3_model(&longer), "{longer}");
        }
    }
}

#[test]
fn gateway_urls_are_trimmed_and_hosts_compared_without_case() {
    assert!(is_direct_zhipu_gateway("  https://api.z.ai/api/anthropic\n"));
    assert!(is_direct_zhipu_gateway("HTTPS://API.Z.AI/v1"));
    assert!(is_direct_zhipu_gateway("http://user:pw@Open.BigModel.CN:8443/x?y#z"));
    // A scheme of its own keeps the case of its host.
    assert!(is_direct_zhipu_gateway("custom://API.z.ai/v1"));
}

#[test]
fn urls_without_a_zhipu_host_are_no_gateway() {
    for url in [
        "",
        "api.z.ai",
        "data:text/plain,api.z.ai",
        "unix:/api.z.ai",
        "https://",
        "https://example.com/api.z.ai",
        "https://api.z.ai@example.com/",
        "https://sub.api.z.ai/",
        "https://z.ai/",
    ] {
        assert!(!is_direct_zhipu_gateway(url), "{url}");
    }
}

#[test]
fn hosts_of_zhipu_and_no_lookalikes() {
    assert!(is_zhipu_host(Some("api.z.ai")));
    assert!(is_zhipu_host(Some("OPEN.bigmodel.cn")));
    assert!(!is_zhipu_host(Some("api.z.ai.")));
    assert!(!is_zhipu_host(Some("xapi.z.ai")));
    assert!(!is_zhipu_host(Some(" api.z.ai")));
    assert!(!is_zhipu_host(Some("")));
    assert!(!is_zhipu_host(None));
}

#[test]
fn effort_values_ignore_space_and_case() {
    assert_eq!(map_effort("  HIGH\n"), Some(Glm53Effort::High));
    assert_eq!(map_effort("\u{2003}Ultra"), Some(Glm53Effort::Max));
    assert_eq!(map_effort("OFF "), Some(Glm53Effort::Low));
    for value in ["", "  ", "lo w", "lowest", "hig", "ｌow"] {
        assert_eq!(map_effort(value), None, "{value}");
    }
}

#[test]
fn tier_words_name_themselves() {
    assert_eq!(Glm53Effort::Low.as_str(), "low");
    assert_eq!(Glm53Effort::High.as_str(), "high");
    assert_eq!(Glm53Effort::Max.as_str(), "max");
    for tier in [Glm53Effort::Low, Glm53Effort::High, Glm53Effort::Max] {
        assert_eq!(map_effort(tier.as_str()), Some(tier));
    }
}

#[test]
fn budgets_fall_into_tiers_at_their_bounds() {
    assert_eq!(budget_to_effort(0), Glm53Effort::Low);
    assert_eq!(budget_to_effort(2_048), Glm53Effort::Low);
    assert_eq!(budget_to_effort(2_049), Glm53Effort::High);
    assert_eq!(budget_to_effort(16_384), Glm53Effort::High);
    assert_eq!(budget_to_effort(16_385), Glm53Effort::Max);
    assert_eq!(budget_to_effort(u64::MAX), Glm53Effort::Max);
}

#[test]
fn merging_prefers_an_outbound_tier_and_restores_a_lost_one() {
    let low = Some(Glm53ReasoningIntent::new(Some(Glm53Effort::Low)));
    let max = Some(Glm53ReasoningIntent::new(Some(Glm53Effort::Max)));
    let bare = Some(Glm53ReasoningIntent::new(None));
    assert_eq!(merge_intent(low, max), low);
    assert_eq!(merge_intent(bare, max), max);
    assert_eq!(merge_intent(bare, bare), bare);
    assert_eq!(merge_intent(bare, None), bare);
    assert_eq!(merge_intent(low, None), low);
    assert_eq!(merge_intent(None, max), max);
    assert_eq!(merge_intent(None, None), None);
}

#[test]
fn merging_in_a_row_can_be_grouped_either_way() {
    let intents = [
        None,
        Some(Glm53ReasoningIntent::new(None)),
        Some(Glm53ReasoningIntent::new(Some(Glm53Effort::Low))),
        Some(Glm53ReasoningIntent::new(Some(Glm53Effort::Max))),
    ];
    for a in intents {
        assert_eq!(merge_intent(a, a), a);
        for b in intents {
            for c in intents {
                assert_eq!(
                    merge_intent(merge_intent(a, b), c),
                    merge_intent(a, merge_intent(b, c))
                );
            }
        }
    }
}
