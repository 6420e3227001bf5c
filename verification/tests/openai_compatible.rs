use std::sync::Arc;

use moagan::capabilities::{ProviderCapabilities, DEEPSEEK_MAX_TOKENS_CAP};
use moagan::config::{ModelConfig, ProviderConfig, ResolvedModelConfig, SecretString};
use moagan::error::Error;
use moagan::openai_compatible::{
    read_reply, ChatChoice, ChatResponse, ChatUsage, OpenAICompatibleProvider,
};
use moagan::probe::{ProbeOutcome, ProbeTransport, MAX_AUTOPROBE_CEILING, MIN_AUTOPROBE_FLOOR};
use moagan::probe_table::MaxTokensTable;
use moagan::provider::Provider;
use moagan::role::{role_requires_json, Role};
use moagan::transport::{Exchange, Step, MAX_RESPONSE_BYTES};
use moagan::wire::{Message, Request};

struct CappedTransport {
    cap: u32,
}

impl ProbeTransport for CappedTransport {
    fn probe_send(&self, n: u32) -> ProbeOutcome {
        if n <= self.cap {
            ProbeOutcome::Accepted
        } else {
            ProbeOutcome::Rejected
        }
    }
}

fn config(endpoint: Option<&str>, models: Vec<ModelConfig>) -> ProviderConfig {
    ProviderConfig {
        endpoint: endpoint.map(|e| e.to_owned()),
        models,
        omit_max_tokens: false,
    }
}

fn model(id: &str, max_tokens: Option<u32>) -> ModelConfig {
    ModelConfig {
        id: id.into(),
        endpoint: None,
        max_tokens,
    }
}

fn with_cap(cfg: &ProviderConfig, cap: Option<u32>) -> OpenAICompatibleProvider {
    OpenAICompatibleProvider::new_with_kind_cap(cfg, SecretString::new("dummy".into()), cap)
        .unwrap_or_else(|e| panic!("the section is good, got {e:?}"))
}

fn without_cap(cfg: &ProviderConfig) -> OpenAICompatibleProvider {
    OpenAICompatibleProvider::new(cfg, SecretString::new("dummy".into()))
        .unwrap_or_else(|e| panic!("the section is good, got {e:?}"))
}

fn provider(endpoint: &str) -> OpenAICompatibleProvider {
    without_cap(&config(Some(endpoint), Vec::new()))
}

fn provider_with_model(_kind: &str, endpoint: &str, id: &str) -> OpenAICompatibleProvider {
    without_cap(&config(Some(endpoint), vec![model(id, None)]))
}

fn json_request(role: Role, model: &str) -> Request {
    Request {
        role,
        model: model.into(),
        system: "system".into(),
        user: "user".into(),
        max_tokens: Some(128),
        temperature: None,
        top_p: None,
        response_schema: None,
        stream: false,
        extra_messages: vec![],
        attachments: vec![],
        tool_choice: None,
    }
}

fn asking_for(max_tokens: u32) -> Request {
    Request {
        max_tokens: Some(max_tokens),
        ..json_request(Role::Route, "kimi-k3")
    }
}

fn message(role: &str, content: &str) -> Message {
    Message {
        role: role.into(),
        content: content.into(),
    }
}

fn reply(content: &str, finish_reason: Option<&str>) -> ChatResponse {
    ChatResponse {
        choices: vec![ChatChoice {
            content: content.into(),
            finish_reason: finish_reason.map(|r| r.to_owned()),
        }],
        usage: Some(ChatUsage {
            prompt_tokens: 1,
            completion_tokens: 2,
        }),
    }
}

#[test]
fn chat_url_handles_known_suffixes() {
    assert_eq!(
        provider("https://api.deepseek.com/v1").chat_url(),
        "https://api.deepseek.com/v1/chat/completions"
    );
    assert_eq!(
        provider("https://api.deepseek.com/v1/chat/completions").chat_url(),
        "https://api.deepseek.com/v1/chat/completions"
    );
    assert_eq!(
        provider("https://api.deepseek.com").chat_url(),
        "https://api.deepseek.com/v1/chat/completions"
    );
}

#[test]
fn serializes_chat_request_with_provider_cap() {
    let p = without_cap(&config(None, vec![model("deepseek-v4-flash", Some(8192))]));
    assert_eq!(p.provider_max_tokens, Some(8192));
    let plan = p.plan(&asking_for(32_768), None, false);
    assert_eq!(plan.body.max_tokens, Some(8192));
}

#[test]
fn openai_compat_request_includes_response_format_for_normal_models() {
    let p = provider_with_model(
        "deepseek",
        "https://api.deepseek.com/v1",
        "deepseek-v4-flash",
    );
    let body = p.build_chat_request(&json_request(Role::Route, "deepseek-v4-flash"));
    assert_eq!(body.response_format.map(|f| f.kind), Some("json_object"));
}

#[test]
fn openai_compat_request_omits_response_format_for_opted_out_models() {
    for model in [
        "glm-5.1",
        "glm-5.2",
        "kimi-k2.6",
        "kimi-k2.7-code",
        "deepseek-v4-pro",
        "kimi-k3",
    ] {
        let p = provider_with_model("opencode", "https://opencode.ai/zen/go/v1", model);
        let body = p.build_chat_request(&json_request(Role::Route, model));
        assert!(
            body.response_format.is_none(),
            "opted-out model {model} must omit response_format from the body"
        );
    }
}

#[test]
fn openai_compat_request_omits_response_format_for_non_json_role() {
    let p = provider_with_model(
        "deepseek",
        "https://api.deepseek.com/v1",
        "deepseek-v4-flash",
    );
    let body = p.build_chat_request(&json_request(Role::Propose, "deepseek-v4-flash"));
    assert!(body.response_format.is_none());
}

#[test]
fn opencode_request_omits_response_format_for_opted_out_models() {
    let p = provider_with_model(
        "opencode",
        "https://opencode.ai/zen/go/v1",
        "kimi-k2.7-code",
    );
    let body = p.build_chat_request(&json_request(Role::Route, "kimi-k2.7-code"));
    assert_eq!(body.model, "kimi-k2.7-code");
    assert!(
        body.response_format.is_none(),
        "OpenCode request for opted-out model must omit response_format"
    );
    assert!(role_requires_json(Role::Route));
}

#[test]
fn intake_role_is_in_role_requires_json_for_prefill() {
    assert!(role_requires_json(Role::Intake));
    for role in [
        Role::Intake,
        Role::Clarify,
        Role::Route,
        Role::Gate,
        Role::Critique,
        Role::Repair,
        Role::Rank,
        Role::Synthesizer,
        Role::Adversary,
        Role::Decomposer,
        Role::MergeSynthesizer,
    ] {
        assert!(
            role_requires_json(role),
            "{role:?} must remain a JSON-required role"
        );
    }
    for role in [Role::Sketch, Role::Deliver] {
        assert!(
            !role_requires_json(role),
            "{role:?} must NOT be on role_requires_json"
        );
    }
}

#[test]
fn opencode_request_keeps_response_format_for_non_opted_out_models() {
    for model in ["mimo-v2.5", "deepseek-v4-flash", "hy3"] {
        let p = provider_with_model("opencode", "https://opencode.ai/zen/go/v1", model);
        let body = p.build_chat_request(&json_request(Role::Route, model));
        assert_eq!(
            body.response_format.map(|f| f.kind),
            Some("json_object"),
            "non-opted-out model {model} must keep response_format: json_object"
        );
    }
}

#[test]
fn prompt_prefill_appends_assistant_brace_message() {
    let p = provider_with_model(
        "deepseek",
        "https://api.deepseek.com/v1",
        "deepseek-v4-flash",
    );
    let body = p.build_chat_request(&json_request(Role::Route, "deepseek-v4-flash"));
    assert_eq!(body.messages.len(), 3);
    assert_eq!(body.messages[2], message("assistant", "{"));
}

#[test]
fn non_prefill_models_skip_assistant_message() {
    let p = provider_with_model("opencode", "https://opencode.ai/zen/go/v1", "kimi-k3");
    let body = p.build_chat_request(&json_request(Role::Route, "kimi-k3"));
    assert_eq!(
        body.messages,
        vec![message("system", "system"), message("user", "user")]
    );
    assert_eq!(body.model, "kimi-k3");
    assert_eq!(body.max_tokens, Some(128));
    assert_eq!(body.temperature, None);
    assert_eq!(body.top_p, None);
    assert!(!body.stream);
}

#[test]
fn prompt_prefill_does_not_overwrite_existing_extra_messages() {
    let p = provider_with_model(
        "deepseek",
        "https://api.deepseek.com/v1",
        "deepseek-v4-flash",
    );
    let mut req = json_request(Role::Route, "deepseek-v4-flash");
    req.extra_messages = vec![message("assistant", "[CUSTOM]")];
    let body = p.build_chat_request(&req);
    assert_eq!(body.messages.len(), 3);
    assert_eq!(
        body.messages[2],
        message("assistant", "[CUSTOM]"),
        "caller-supplied extra_messages must win over the per-model prefill"
    );
}

#[test]
fn opencode_backed_provider_clamps_max_tokens_to_hard_cap() {
    let p = with_cap(
        &config(Some("http://h"), vec![model("kimi-k3", None)]),
        Some(u32::MAX),
    );
    let plan = p.plan(&asking_for(1_000_000), None, false);
    assert_eq!(plan.url, "http://h/v1/chat/completions");
    assert_eq!(plan.body.max_tokens, Some(1_000_000));
    match p.next(
        1,
        plan.max_retries,
        Exchange::Decoded {
            status: 200,
            reply: reply("ok", Some("stop")),
        },
    ) {
        Step::Done(Ok((status, _response))) => assert_eq!(status, 200),
        _ => panic!("a reply ends the call"),
    }
}

#[test]
fn deepseek_direct_provider_clamps_to_deepseek_max_tokens_cap() {
    let p = with_cap(
        &config(Some("http://h"), Vec::new()),
        Some(DEEPSEEK_MAX_TOKENS_CAP),
    );
    let plan = p.plan(&asking_for(1_000_000), None, false);
    assert_eq!(plan.body.max_tokens, Some(DEEPSEEK_MAX_TOKENS_CAP));
    assert_eq!(DEEPSEEK_MAX_TOKENS_CAP, 393_216);
}

#[test]
fn deepseek_direct_provider_probe_ceiling_is_deepseek_max_tokens_cap() {
    let p = with_cap(&config(None, Vec::new()), Some(DEEPSEEK_MAX_TOKENS_CAP));
    assert_eq!(p.max_tokens_probe_ceiling(), DEEPSEEK_MAX_TOKENS_CAP);
    let p_no_cap = without_cap(&config(None, Vec::new()));
    assert_eq!(p_no_cap.max_tokens_probe_ceiling(), MAX_AUTOPROBE_CEILING);
}

#[test]
fn deepseek_direct_provider_uses_no_kind_cap() {
    let p = without_cap(&config(None, Vec::new()));
    assert_eq!(p.kind_hard_cap, None);
}

#[test]
fn new_with_kind_cap_stores_cap_in_field() {
    let p = with_cap(&config(None, Vec::new()), Some(u32::MAX));
    assert_eq!(p.kind_hard_cap, Some(u32::MAX));
}

#[test]
fn openai_compat_clamps_max_tokens_to_table_value() {
    let mut table = MaxTokensTable::empty(MIN_AUTOPROBE_FLOOR);
    let discovered = table
        .probe_and_store(
            "deepseek-v4-flash",
            "deepseek-v4-flash",
            &CappedTransport { cap: 6_000 },
            MAX_AUTOPROBE_CEILING,
        )
        .expect("probe_and_store");
    let p = provider_with_model("deepseek", "http://h", "deepseek-v4-flash")
        .with_max_tokens_table(Arc::new(table));
    let plan = p.plan(&asking_for(1_000_000), None, false);
    assert_eq!(plan.body.max_tokens, Some(discovered));
}

#[test]
fn the_environment_sets_the_ceiling_of_calls() {
    let p = with_cap(
        &config(Some("http://h"), vec![model("m", Some(8192))]),
        Some(4096),
    );
    let plan = p.plan(&asking_for(1_000_000), Some("2048"), false);
    assert_eq!(plan.body.max_tokens, Some(2048));
    assert_eq!(
        p.effective_max_tokens(&asking_for(1_000_000), Some("2048")),
        2048
    );
}

#[test]
fn absent_ceilings_stay_absent() {
    let p = with_cap(&config(Some("http://h"), Vec::new()), Some(4096));
    let req = Request {
        max_tokens: None,
        ..asking_for(1)
    };
    for probe in [false, true] {
        assert_eq!(p.plan(&req, Some("2048"), probe).body.max_tokens, None);
    }
}

#[test]
fn probes_are_sent_once_and_not_below_the_floor() {
    let p = with_cap(&config(Some("http://h"), Vec::new()), Some(4096));
    let plan = p.plan(&asking_for(1_000_000), Some("2048"), true);
    assert_eq!((plan.body.max_tokens, plan.max_retries), (Some(1_000_000), 0));
    let small = p.plan(&asking_for(2), None, true);
    assert_eq!(small.body.max_tokens, Some(MIN_AUTOPROBE_FLOOR));
}

#[test]
fn the_first_answer_is_the_reply() {
    let mut two = reply("cut", Some("length"));
    two.choices.push(ChatChoice {
        content: "other".into(),
        finish_reason: None,
    });
    let (status, r) = read_reply(201, two).unwrap();
    assert_eq!((status, r.text.as_str(), r.truncated), (201, "cut", true));
    assert_eq!(r.finish_reason.as_deref(), Some("length"));
    assert_eq!((r.usage.input_tokens, r.usage.output_tokens), (1, 2));
    let none = ChatResponse {
        choices: vec![],
        usage: None,
    };
    assert_eq!(
        read_reply(200, none),
        Err(Error::Provider {
            message: "openai-compat: empty choices array".into(),
            http_status: None
        })
    );
}

#[test]
fn replies_that_are_too_large_are_refused() {
    let fits = "x".repeat(MAX_RESPONSE_BYTES);
    assert!(read_reply(200, reply(&fits, None)).is_ok());
    let larger = format!("{fits}x");
    assert_eq!(
        read_reply(200, reply(&larger, None)),
        Err(Error::Provider {
            message: "response is 10485761 bytes, more than the limit of 10485760".into(),
            http_status: None
        })
    );
}

#[test]
fn any_failure_is_tried_again_until_the_last() {
    let p = provider("http://h");
    let refused = || Exchange::<ChatResponse>::Refused {
        status: 401,
        body: "why".into(),
    };
    assert!(matches!(p.next(1, 3, refused()), Step::Retry));
    match p.next(3, 3, refused()) {
        Step::Done(Err(e)) => assert_eq!(
            e,
            Error::Provider {
                message: "openai-compat: HTTP 401 after 3 attempts: why".into(),
                http_status: Some(401)
            }
        ),
        _ => panic!("that was the last attempt"),
    }
    match p.next(3, 3, Exchange::Unreachable("gone".into())) {
        Step::Done(Err(Error::Provider { message, .. })) => {
            assert_eq!(message, "openai-compat: network: gone")
        }
        _ => panic!("that was the last attempt"),
    }
    match p.next(1, 3, Exchange::Undecodable("eof".into())) {
        Step::Done(Err(Error::Provider { message, .. })) => assert_eq!(message, "decode: eof"),
        _ => panic!("what cannot be decoded is an error"),
    }
}

#[test]
fn names_come_from_the_section() {
    let bare = without_cap(&config(None, Vec::new()));
    assert_eq!(
        (bare.name(), bare.model(), bare.endpoint()),
        ("openai_compat", "", "http://localhost")
    );
    let resolved = ResolvedModelConfig {
        section: "deepseek".into(),
        id: "deepseek-v4-pro".into(),
        endpoint: "http://h".into(),
        max_tokens: None,
        omit_max_tokens: false,
    };
    let p = OpenAICompatibleProvider::from_resolved(&resolved, "deepseek", Some(Ok("k".into())))
        .unwrap_or_else(|e| panic!("the key is there, got {e:?}"));
    assert_eq!((p.name(), p.model()), ("deepseek", "deepseek-v4-pro"));
    assert_eq!(p.capabilities(), ProviderCapabilities::DeepSeek);
    assert_eq!(bare.capabilities(), ProviderCapabilities::OpenAiCompat);
    assert!(matches!(
        OpenAICompatibleProvider::from_resolved(&resolved, "deepseek", None),
        Err(Error::InvalidApiKey { .. })
    ));
}
