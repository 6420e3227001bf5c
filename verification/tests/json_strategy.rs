use moagan::json_strategy::{
    max_continuation_attempts, needs_assistant_prefill, strategy_by_model, strategy_for,
    JsonRecoveryStrategy, DEFAULT_STRATEGY,
};
use moagan::text_map::TextMap;

#[test]
fn default_is_lenient() {
    assert_eq!(
        JsonRecoveryStrategy::default(),
        JsonRecoveryStrategy::Lenient
    );
}

#[test]
fn default_strategy_constant_is_lenient() {
    assert_eq!(DEFAULT_STRATEGY, JsonRecoveryStrategy::Lenient);
}

#[test]
fn strategy_for_kimi_models_is_lenient() {
    for model in ["kimi-k2.7-code", "kimi-k3", "kimi-k2.6"] {
        assert_eq!(
            strategy_for(model, None),
            JsonRecoveryStrategy::Lenient,
            "kimi model {model} should resolve to Lenient"
        );
    }
}

#[test]
fn strategy_for_glm_models_is_lenient() {
    for model in ["glm-5.1", "glm-5.2"] {
        assert_eq!(
            strategy_for(model, None),
            JsonRecoveryStrategy::Lenient,
            "glm model {model} should resolve to Lenient"
        );
    }
}

#[test]
fn strategy_for_hy3_is_lenient() {
    assert_eq!(strategy_for("hy3", None), JsonRecoveryStrategy::Lenient);
}

#[test]
fn strategy_for_mimo_models_is_lenient() {
    for model in ["mimo-v2.5", "mimo-v2.5-pro"] {
        assert_eq!(
            strategy_for(model, None),
            JsonRecoveryStrategy::Lenient,
            "mimo model {model} should resolve to Lenient"
        );
    }
}

#[test]
fn strategy_for_deepseek_models_is_prompt_prefill() {
    for model in ["deepseek-v4-pro", "deepseek-v4-flash"] {
        assert_eq!(
            strategy_for(model, None),
            JsonRecoveryStrategy::PromptPrefill,
            "deepseek model {model} should resolve to PromptPrefill"
        );
    }
}

#[test]
fn strategy_for_minimax_models_is_continuation() {
    for model in ["minimax-m3", "minimax-m2.7", "minimax-m2.5"] {
        assert_eq!(
            strategy_for(model, None),
            JsonRecoveryStrategy::Continuation,
            "minimax model {model} should resolve to Continuation"
        );
    }
}

#[test]
fn strategy_for_gpt_5_6_luna_is_strict() {
    assert_eq!(
        strategy_for("gpt-5.6-luna", None),
        JsonRecoveryStrategy::Strict
    );
}

#[test]
fn strategy_for_unknown_model_returns_default() {
    assert_eq!(
        strategy_for("gpt-7-future", None),
        JsonRecoveryStrategy::Lenient
    );
    assert_eq!(strategy_for("", None), JsonRecoveryStrategy::Lenient);
}

#[test]
fn strategy_for_lookup_is_case_insensitive() {
    assert_eq!(strategy_for("KIMI-K3", None), JsonRecoveryStrategy::Lenient);
    assert_eq!(
        strategy_for("Minimax-M3", None),
        JsonRecoveryStrategy::Continuation
    );
    assert_eq!(
        strategy_for("DeepSeek-V4-Pro", None),
        JsonRecoveryStrategy::PromptPrefill
    );
    assert_eq!(
        strategy_for("GPT-5.6-LUNA", None),
        JsonRecoveryStrategy::Strict
    );
}

#[test]
fn strategy_for_first_match_wins() {
    assert_eq!(
        strategy_for("kimi-k3-future", None),
        JsonRecoveryStrategy::Lenient, // = DEFAULT_STRATEGY
        "models that don't match an entry fall through to default"
    );
}

#[test]
fn strategy_for_profile_override_wins_over_table() {
    let mut overrides = TextMap::new();
    overrides.insert("deepseek-v4-pro".to_string(), JsonRecoveryStrategy::Strict);
    assert_eq!(
        strategy_for("deepseek-v4-pro", Some(&overrides)),
        JsonRecoveryStrategy::Strict
    );
}

#[test]
fn strategy_for_profile_override_can_be_downgraded_to_lenient() {
    let mut overrides = TextMap::new();
    overrides.insert("gpt-5.6-luna".to_string(), JsonRecoveryStrategy::Lenient);
    assert_eq!(
        strategy_for("gpt-5.6-luna", Some(&overrides)),
        JsonRecoveryStrategy::Lenient
    );
}

#[test]
fn strategy_for_profile_override_only_affects_target_model() {
    let mut overrides = TextMap::new();
    overrides.insert(
        "gpt-5.6-luna".to_string(),
        JsonRecoveryStrategy::PromptPrefill,
    );
    assert_eq!(
        strategy_for("gpt-5.6-luna", Some(&overrides)),
        JsonRecoveryStrategy::PromptPrefill
    );
    assert_eq!(
        strategy_for("kimi-k3", Some(&overrides)),
        JsonRecoveryStrategy::Lenient
    );
    assert_eq!(
        strategy_for("gpt-7-future", Some(&overrides)),
        JsonRecoveryStrategy::Lenient
    );
}

#[test]
fn strategy_for_empty_profile_overrides_is_no_op() {
    let overrides: TextMap<JsonRecoveryStrategy> = TextMap::new();
    assert_eq!(
        strategy_for("kimi-k3", Some(&overrides)),
        strategy_for("kimi-k3", None)
    );
}

#[test]
fn strategy_for_override_key_is_case_sensitive() {
    let mut overrides = TextMap::new();
    overrides.insert("kimi-k3".to_string(), JsonRecoveryStrategy::Strict);
    assert_eq!(
        strategy_for("kimi-k3", Some(&overrides)),
        JsonRecoveryStrategy::Strict
    );
    assert_eq!(
        strategy_for("KIMI-K3", Some(&overrides)),
        JsonRecoveryStrategy::Lenient // matches the table via eq_ignore_ascii_case
    );
}

#[test]
fn needs_assistant_prefill_only_for_prompt_prefill() {
    assert!(needs_assistant_prefill(JsonRecoveryStrategy::PromptPrefill));
    assert!(!needs_assistant_prefill(JsonRecoveryStrategy::Strict));
    assert!(!needs_assistant_prefill(JsonRecoveryStrategy::Lenient));
    assert!(!needs_assistant_prefill(JsonRecoveryStrategy::Continuation));
}

#[test]
fn max_continuation_attempts_per_strategy() {
    assert_eq!(max_continuation_attempts(JsonRecoveryStrategy::Strict), 0);
    assert_eq!(max_continuation_attempts(JsonRecoveryStrategy::Lenient), 0);
    assert_eq!(
        max_continuation_attempts(JsonRecoveryStrategy::Continuation),
        2
    );
    assert_eq!(
        max_continuation_attempts(JsonRecoveryStrategy::PromptPrefill),
        0
    );
}

#[test]
fn strategy_table_has_no_duplicate_keys() {
    let mut seen: Vec<String> = Vec::new();
    for (k, _) in strategy_by_model() {
        let lower = k.to_ascii_lowercase();
        assert!(
            !seen.contains(&lower),
            "STRATEGY_BY_MODEL contains a case-insensitive duplicate for {k}"
        );
        seen.push(lower);
    }
}
