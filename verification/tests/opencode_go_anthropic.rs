use moagan::capabilities::OPENCODE_GO_MAX_TOKENS_CAP;
use moagan::config::{SecretString, SectionConfig};
use moagan::error::Error;
use moagan::messages_wire::MessagesExchange;
use moagan::opencode_go_anthropic::OpenCodeGoAnthropicProvider;
use moagan::provider::Provider;
use moagan::role::Role;
use moagan::transport::Step;
use moagan::wire::{Message, Request};

fn config(kind: &str, endpoint: &str, model: &str) -> SectionConfig {
    SectionConfig {
        kind: kind.into(),
        endpoint: endpoint.into(),
        model: model.into(),
        max_tokens: None,
        omit_max_tokens: false,
    }
}

fn provider(endpoint: &str, model: &str) -> OpenCodeGoAnthropicProvider {
    OpenCodeGoAnthropicProvider::new(
        &config("opencode_go", endpoint, model),
        SecretString::new("dummy".into()),
    )
    .unwrap_or_else(|e| panic!("the section is good, got {e:?}"))
}

#[test]
fn opencode_go_anthropic_messages_url_handles_known_suffixes() {
    let p = provider("https://opencode.ai/zen/go/v1", "qwen3.7-max");
    assert_eq!(p.messages_url(), "https://opencode.ai/zen/go/v1/messages");
}

#[test]
fn messages_url_handles_messages_suffix() {
    let p = provider("https://opencode.ai/zen/go/v1/messages", "minimax-m3");
    assert_eq!(p.messages_url(), "https://opencode.ai/zen/go/v1/messages");
}

#[test]
fn from_config_errors_when_kind_mismatch() {
    let result = OpenCodeGoAnthropicProvider::new(
        &config("minimax", "https://opencode.ai/zen/go/v1", "x"),
        SecretString::new("dummy".into()),
    );
    assert!(matches!(result, Err(Error::InvalidArgs(_))));
}

#[test]
fn opencode_go_anthropic_from_config_errors_when_key_missing() {
    let cfg = config("opencode_go", "https://opencode.ai/zen/go/v1", "x");
    let result = OpenCodeGoAnthropicProvider::from_config(&cfg, None);
    assert!(matches!(result, Err(Error::InvalidApiKey { .. })));
    let blank = OpenCodeGoAnthropicProvider::from_config(&cfg, Some("  ".into()));
    assert!(matches!(blank, Err(Error::InvalidApiKey { .. })));
    let set = OpenCodeGoAnthropicProvider::from_config(&cfg, Some("k".into()));
    assert_eq!(set.map(|p| p.api_key.expose().to_owned()), Ok("k".to_owned()));
}

fn request() -> Request {
    Request {
        role: Role::Deliver,
        model: "qwen3.7-max".into(),
        system: "sys".into(),
        user: "user".into(),
        max_tokens: Some(1_000_000),
        temperature: None,
        top_p: None,
        response_schema: None,
        stream: false,
        extra_messages: vec![],
        attachments: vec![],
        tool_choice: None,
    }
}

#[test]
fn reported_ceilings_are_on_the_wire() {
    let p = provider("https://opencode.ai/zen/go/v1", "qwen3.7-max");
    let plan = p.plan(&request());
    assert_eq!(plan.url, "https://opencode.ai/zen/go/v1/messages");
    assert_eq!(plan.max_retries, 3);
    assert_eq!(plan.body.max_tokens, Some(OPENCODE_GO_MAX_TOKENS_CAP));
    assert_eq!(p.effective_max_tokens(&request(), None), OPENCODE_GO_MAX_TOKENS_CAP);
    assert_eq!(p.max_tokens_probe_ceiling(), OPENCODE_GO_MAX_TOKENS_CAP);
    let user = Message {
        role: "user".into(),
        content: "user".into(),
    };
    assert_eq!(plan.body.messages, vec![user]);
}

#[test]
fn a_request_to_slow_down_ends_the_call() {
    let p = provider("https://opencode.ai/zen/go/v1", "qwen3.7-max");
    let slow = Error::Throttled {
        message: "slow".into(),
        http_status: Some(429),
    };
    match p.next(1, 3, MessagesExchange::Refused(slow.clone())) {
        Step::Done(Err(e)) => assert_eq!(e, slow),
        _ => panic!("there is no second attempt"),
    }
    let late = Error::Timeout {
        message: "late".into(),
        http_status: Some(504),
    };
    assert!(matches!(
        p.next(1, 3, MessagesExchange::Refused(late)),
        Step::Retry
    ));
}
