use moagan::capabilities::{ProviderCapabilities, OPENCODE_GO_MAX_TOKENS_CAP};
use moagan::config::{SecretString, SectionConfig};
use moagan::error::Error;
use moagan::opencode_go::{
    check_kind, endpoint_path_for, is_temperature_rejection, temperature_override_for,
    OpenCodeGoDispatch, OpenCodeGoProvider, Routed,
};
use moagan::provider::Provider;
use moagan::role::Role;
use moagan::wire::{Knob, Request, Response, Usage};

fn config() -> SectionConfig {
    SectionConfig {
        kind: "opencode_go".into(),
        endpoint: "https://opencode.ai/zen/go/v1".into(),
        model: "kimi-k2.7-code".into(),
        max_tokens: Some(8192),
        omit_max_tokens: false,
    }
}

fn config_for(model: &str) -> SectionConfig {
    SectionConfig {
        model: model.into(),
        ..config()
    }
}

fn provider_for(model: &str) -> OpenCodeGoProvider {
    OpenCodeGoProvider::new(&config_for(model), SecretString::new("dummy".into()))
        .unwrap_or_else(|e| panic!("{model} must be routed, got {e:?}"))
}

fn refusal(spec: &SectionConfig) -> Error {
    match OpenCodeGoProvider::new(spec, SecretString::new("dummy".into())) {
        Ok(_) => panic!("the section must be refused"),
        Err(e) => e,
    }
}

fn request(model: &str, temperature: Option<f32>) -> Request {
    Request {
        role: Role::Route,
        model: model.into(),
        system: "sys".into(),
        user: "user".into(),
        max_tokens: Some(1_000_000),
        temperature: temperature.map(|t| Knob { bits: t.to_bits() }),
        top_p: None,
        response_schema: None,
        stream: false,
        extra_messages: vec![],
        attachments: vec![],
        tool_choice: None,
    }
}

fn rejected(message: &str) -> Result<(u16, Response), Error> {
    Err(Error::Provider {
        message: message.into(),
        http_status: Some(400),
    })
}

#[test]
fn is_blocked_recognises_minimax_family() {
    assert!(OpenCodeGoProvider::is_blocked("minimax-m3"));
    assert!(OpenCodeGoProvider::is_blocked("minimax-m2.7"));
    assert!(OpenCodeGoProvider::is_blocked("minimax-m2.5"));
}

#[test]
fn is_blocked_allows_other_models() {
    assert!(!OpenCodeGoProvider::is_blocked("kimi-k2.7-code"));
    assert!(!OpenCodeGoProvider::is_blocked("deepseek-v4-flash"));
    assert!(!OpenCodeGoProvider::is_blocked("gpt-5.6-luna"));
    assert!(!OpenCodeGoProvider::is_blocked("kimi-k3"));
    assert!(!OpenCodeGoProvider::is_blocked("glm-5.2"));
    assert!(!OpenCodeGoProvider::is_blocked("qwen3.7-max"));
    assert!(!OpenCodeGoProvider::is_blocked("mimo-v2.5"));
    assert!(!OpenCodeGoProvider::is_blocked("hy3"));
}

#[test]
fn opencode_go_from_config_errors_when_key_missing() {
    let result = OpenCodeGoProvider::from_config(&config(), None);
    assert!(matches!(result, Err(Error::InvalidApiKey { .. })));
}

#[test]
fn new_errors_when_model_is_blocked() {
    let cfg = config_for("minimax-m3");
    let result = OpenCodeGoProvider::new(&cfg, SecretString::new("dummy".into()));
    assert!(matches!(result, Err(Error::InvalidArgs(_))));
}

#[test]
fn new_errors_when_kind_mismatch() {
    let cfg = SectionConfig {
        kind: "minimax".into(),
        ..config()
    };
    let result = OpenCodeGoProvider::new(&cfg, SecretString::new("dummy".into()));
    assert!(matches!(result, Err(Error::InvalidArgs(_))));
}

#[test]
fn temperature_override_for_known_incompatible_model() {
    let fixed = temperature_override_for("kimi-k3").map(|k| f32::from_bits(k.bits));
    assert_eq!(fixed, Some(1.0));
}

#[test]
fn temperature_override_for_unlisted_model_returns_none() {
    assert_eq!(temperature_override_for("kimi-k2.7-code"), None);
    assert_eq!(temperature_override_for("gpt-5.6-luna"), None);
    assert_eq!(temperature_override_for("qwen3.7-max"), None);
}

#[test]
fn detect_temperature_rejection_patterns() {
    let body = r#"{"error":"invalid temperature: only 1 is allowed for this model"}"#;
    assert!(is_temperature_rejection(body));
    let body2 = r#"{"error":"model not found"}"#;
    assert!(!is_temperature_rejection(body2));
    assert!(is_temperature_rejection("Temperature MUST be 1"));
    assert!(!is_temperature_rejection("only 1 is allowed"));
    assert!(!is_temperature_rejection("the temperature is fine"));
}

#[test]
fn provider_name_is_opencode_go_for_chat_completions() {
    let provider = provider_for("kimi-k2.7-code");
    assert_eq!(provider.name(), "opencode_go");
    assert_eq!(provider.model(), "kimi-k2.7-code");
    let base = provider.endpoint();
    assert_eq!(base, "https://opencode.ai/zen/go/v1");
    assert_eq!(
        provider.url(),
        "https://opencode.ai/zen/go/v1/chat/completions"
    );
}

#[test]
fn provider_routes_to_anthropic_for_messages_model() {
    let provider = provider_for("qwen3.7-max");
    assert_eq!(provider.endpoint(), "https://opencode.ai/zen/go/v1");
    assert_eq!(provider.url(), "https://opencode.ai/zen/go/v1/messages");
}

#[test]
fn provider_routes_to_responses_for_responses_model() {
    let provider = provider_for("gpt-5.6-luna");
    assert_eq!(provider.endpoint(), "https://opencode.ai/zen/go/v1");
    assert_eq!(provider.url(), "https://opencode.ai/zen/go/v1/responses");
}

#[test]
fn provider_routes_to_chat_completions_for_chat_model() {
    let provider = provider_for("mimo-v2.5");
    assert_eq!(provider.endpoint(), "https://opencode.ai/zen/go/v1");
    assert_eq!(
        provider.url(),
        "https://opencode.ai/zen/go/v1/chat/completions"
    );
}

#[test]
fn dispatcher_does_not_double_append_path() {
    let cfg = SectionConfig {
        model: "qwen3.7-max".into(),
        endpoint: "https://opencode.ai/zen/go/v1".into(),
        ..config()
    };
    let provider = OpenCodeGoProvider::new(&cfg, SecretString::new("dummy".into())).ok();
    let provider = provider.expect("the model is on the roster");
    assert_eq!(provider.endpoint(), "https://opencode.ai/zen/go/v1");
    assert_eq!(provider.url(), "https://opencode.ai/zen/go/v1/messages");
    assert_eq!(
        provider.url().matches("/v1/messages").count(),
        1,
        "routed path must appear exactly once, got: {}",
        provider.url()
    );
}

#[test]
fn provider_rejects_model_not_on_roster() {
    let cfg = config_for("unsupported-model");
    let result = OpenCodeGoProvider::new(&cfg, SecretString::new("dummy".into()));
    assert!(matches!(result, Err(Error::InvalidArgs(_))));
}

#[test]
fn endpoint_path_for_known_models() {
    assert_eq!(endpoint_path_for("gpt-5.6-luna"), Some("responses"));
    assert_eq!(endpoint_path_for("minimax-m3"), Some("messages"));
    assert_eq!(endpoint_path_for("qwen3.7-max"), Some("messages"));
    assert_eq!(
        endpoint_path_for("kimi-k2.7-code"),
        Some("chat/completions")
    );
    assert_eq!(endpoint_path_for("mimo-v2.5-pro"), Some("chat/completions"));
    assert_eq!(endpoint_path_for("hy3"), Some("chat/completions"));
    assert_eq!(
        endpoint_path_for("deepseek-v4-flash"),
        Some("chat/completions")
    );
    assert_eq!(endpoint_path_for("unknown"), None);
}

#[test]
fn refusals_name_what_is_wrong() {
    assert_eq!(
        refusal(&SectionConfig {
            kind: "minimax".into(),
            ..config_for("minimax-m3")
        }),
        Error::InvalidArgs("opencode_go provider got kind 'minimax'".into())
    );
    assert_eq!(
        refusal(&config_for("minimax-m2.5")),
        Error::InvalidArgs(
            "model 'minimax-m2.5' is blocked for opencode_go; use direct minimax provider instead"
                .into()
        )
    );
    assert_eq!(
        refusal(&config_for("m")),
        Error::InvalidArgs("model 'm' is not on the OpenCode Go model roster".into())
    );
    assert_eq!(check_kind("opencode_go", "got '"), Ok(()));
    assert_eq!(
        check_kind("x", "got '"),
        Err(Error::InvalidArgs("got 'x'".into()))
    );
}

#[test]
fn keys_come_before_models() {
    let blocked = config_for("minimax-m3");
    match OpenCodeGoProvider::from_config(&blocked, None) {
        Err(Error::InvalidApiKey { message, .. }) => assert_eq!(
            message,
            "OPENCODE_GO_API_KEY not set; provide via env, --api-key, or api_keys.toml"
        ),
        _ => panic!("the key is looked for first"),
    }
    let found = Some(Ok("k".to_string()));
    assert!(matches!(
        OpenCodeGoProvider::from_config(&blocked, found),
        Err(Error::InvalidArgs(_))
    ));
    let found = Some(Ok("k".to_string()));
    match OpenCodeGoProvider::from_config(&config(), found) {
        Ok(OpenCodeGoProvider {
            inner: Routed::Chat(p),
        }) => assert_eq!(p.api_key.expose(), "k"),
        _ => panic!("the section is good"),
    }
}

#[test]
fn every_route_stays_below_the_cap() {
    for model in ["kimi-k3", "qwen3.7-max", "gpt-5.6-luna"] {
        let p = provider_for(model);
        assert_eq!(p.max_tokens_probe_ceiling(), OPENCODE_GO_MAX_TOKENS_CAP);
        let sent = p.effective_max_tokens(&request(model, None), None);
        assert!(sent <= OPENCODE_GO_MAX_TOKENS_CAP, "{model} sends {sent}");
    }
    assert_eq!(OPENCODE_GO_MAX_TOKENS_CAP, 16_384);
}

#[test]
fn trailing_slashes_of_the_base_are_dropped() {
    let cfg = SectionConfig {
        endpoint: "https://opencode.ai/zen/go/v1//".into(),
        ..config()
    };
    let p = OpenCodeGoProvider::new(&cfg, SecretString::new("dummy".into())).ok();
    let p = p.expect("the section is good");
    assert_eq!(p.endpoint(), "https://opencode.ai/zen/go/v1");
    assert_eq!(p.url(), "https://opencode.ai/zen/go/v1/chat/completions");
}

#[test]
fn routes_have_their_own_capabilities_and_urls() {
    assert_eq!(
        provider_for("hy3").capabilities(),
        Some(ProviderCapabilities::OpenAiCompat)
    );
    assert_eq!(provider_for("qwen3.6-plus").capabilities(), None);
    let responses = provider_for("gpt-5.6-luna");
    assert_eq!(
        responses.capabilities(),
        Some(ProviderCapabilities::OpenCodeGoResponses)
    );
    match responses.inner {
        Routed::Responses(p) => {
            assert_eq!(OpenCodeGoDispatch::url(&p), p.responses_url());
        }
        _ => panic!("the model is served by the Responses API"),
    }
}

#[test]
fn fixed_temperatures_are_sent() {
    let first = OpenCodeGoProvider::first_request(request("kimi-k3", Some(0.6)));
    assert_eq!(first.temperature, Some(Knob { bits: 1.0f32.to_bits() }));
    let other = OpenCodeGoProvider::first_request(request("hy3", Some(0.6)));
    assert_eq!(other, request("hy3", Some(0.6)));
}

#[test]
fn a_refused_temperature_is_tried_once_more() {
    let no = rejected("http 400: invalid temperature");
    let second = OpenCodeGoProvider::second_request(request("hy3", Some(0.6)), &no);
    assert_eq!(second, Some(request("hy3", Some(1.0))));
    assert_eq!(OpenCodeGoProvider::second_request(request("hy3", Some(1.0)), &no), None);
    let unset = OpenCodeGoProvider::second_request(request("hy3", None), &no);
    assert_eq!(unset, Some(request("hy3", Some(1.0))));
    let other = rejected("http 400: no such model");
    assert_eq!(OpenCodeGoProvider::second_request(request("hy3", Some(0.6)), &other), None);
    let throttled = Err(Error::Throttled {
        message: "invalid temperature".into(),
        http_status: Some(429),
    });
    assert_eq!(OpenCodeGoProvider::second_request(request("hy3", Some(0.6)), &throttled), None);
    let fine = Ok((
        200,
        Response {
            text: "invalid temperature".into(),
            finish_reason: None,
            truncated: false,
            usage: Usage::default(),
        },
    ));
    assert_eq!(OpenCodeGoProvider::second_request(request("hy3", Some(0.6)), &fine), None);
}
