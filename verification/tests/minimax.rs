use std::sync::Arc;

use moagan::capabilities::{ProviderCapabilities, MINIMAX_MAX_TOKENS_CAP};
use moagan::circuit_breaker::CircuitBreaker;
use moagan::config::{ModelConfig, ProviderConfig, ResolvedModelConfig, SecretString};
use moagan::error::Error;
use moagan::messages_wire::MessagesExchange;
use moagan::minimax::MinimaxProvider;
use moagan::probe::{ProbeOutcome, ProbeTransport, MAX_AUTOPROBE_CEILING, MIN_AUTOPROBE_FLOOR};
use moagan::probe_table::MaxTokensTable;
use moagan::provider::Provider;
use moagan::role::Role;
use moagan::transport::{http_error, Step};
use moagan::wire::{Knob, Message, Request, Response, Usage};

struct CappedTransport {
    cap: u32,
}

impl ProbeTransport for CappedTransport {
    fn probe_send(&self, n: u32) -> ProbeOutcome {
        if n <= self.cap {
            ProbeOutcome::Accepted
        } else {
            ProbeOutcome::Rejected
        }
    }
}

fn config(endpoint: Option<&str>, models: Vec<ModelConfig>) -> ProviderConfig {
    ProviderConfig {
        endpoint: endpoint.map(|e| e.to_owned()),
        models,
        omit_max_tokens: false,
    }
}

fn model(id: &str, endpoint: Option<&str>, max_tokens: Option<u32>) -> ModelConfig {
    ModelConfig {
        id: id.into(),
        endpoint: endpoint.map(|e| e.to_owned()),
        max_tokens,
    }
}

fn provider(cfg: &ProviderConfig) -> MinimaxProvider {
    MinimaxProvider::new(cfg, SecretString::new("dummy".into()))
        .unwrap_or_else(|e| panic!("the section is good, got {e:?}"))
}

fn test_request() -> Request {
    Request {
        model: "MiniMax-M3".into(),
        role: Role::Intake,
        system: String::new(),
        user: "test".into(),
        max_tokens: Some(16),
        temperature: None,
        top_p: None,
        response_schema: None,
        stream: false,
        extra_messages: vec![],
        attachments: vec![],
        tool_choice: None,
    }
}

fn asking_for(max_tokens: u32) -> Request {
    Request {
        max_tokens: Some(max_tokens),
        ..test_request()
    }
}

fn reply(text: &str) -> Response {
    Response {
        text: text.into(),
        finish_reason: Some("end_turn".into()),
        truncated: false,
        usage: Usage::default(),
    }
}

fn probed_table() -> (Arc<MaxTokensTable>, u32) {
    let mut table = MaxTokensTable::empty(MIN_AUTOPROBE_FLOOR);
    let discovered = table
        .probe_and_store(
            "minimax",
            "MiniMax-M3",
            &CappedTransport { cap: 24_000 },
            MAX_AUTOPROBE_CEILING,
        )
        .expect("probe_and_store");
    (Arc::new(table), discovered)
}

#[test]
fn minimax_messages_url_handles_known_suffixes() {
    let p = provider(&config(None, Vec::new()));
    assert_eq!(
        p.messages_url(),
        "https://api.minimax.io/anthropic/v1/messages"
    );
}

#[test]
fn messages_url_handles_anthropic_suffix() {
    let p = provider(&config(None, Vec::new()));
    assert_eq!(
        p.messages_url(),
        "https://api.minimax.io/anthropic/v1/messages"
    );
    let p = provider(&config(Some("https://api.minimax.io/anthropic"), Vec::new()));
    assert_eq!(
        p.messages_url(),
        "https://api.minimax.io/anthropic/v1/messages"
    );
}

#[test]
fn minimax_from_config_errors_when_key_missing() {
    let cfg = config(None, Vec::new());
    let r = MinimaxProvider::from_config(&cfg, None);
    assert!(matches!(r, Err(Error::InvalidApiKey { .. })));
}

/// Makes a call, or a probe, against an upstream that gives these exchanges;
/// hands back the outcome and how many of them were used.
fn make_call(
    provider: &mut MinimaxProvider,
    exchanges: Vec<MessagesExchange>,
    probe: bool,
) -> (Result<(u16, Response), Error>, u32) {
    let plan = provider.plan(&test_request(), probe);
    let mut attempt = 0;
    for exchange in exchanges {
        attempt += 1;
        let step = provider.next(attempt, plan.max_retries, exchange);
        provider.record(&step, probe);
        if let Step::Done(outcome) = step {
            return (outcome, attempt);
        }
    }
    panic!("the upstream has nothing more to say");
}

fn refused(status: u16, body: &str) -> MessagesExchange {
    MessagesExchange::Refused(http_error(status, body))
}

fn answered(text: &str) -> MessagesExchange {
    MessagesExchange::Decoded {
        status: 200,
        response: reply(text),
    }
}

fn test_provider() -> MinimaxProvider {
    provider(&config(Some("http://h"), Vec::new())).with_max_retries(1)
}

#[test]
fn minimax_records_circuit_opening_on_provider_error() {
    let mut provider = test_provider();
    let (result, _) = make_call(&mut provider, vec![refused(500, "upstream failed")], false);
    assert!(matches!(result, Err(Error::Provider { .. })));
    assert_eq!(provider.breaker.failure_count(), 1);
}

#[test]
fn minimax_skips_circuit_recording_on_429() {
    let mut provider = test_provider();
    provider.max_retries = 2;
    let (result, calls) = make_call(&mut provider, vec![refused(429, ""), answered("ok")], false);
    assert!(matches!(result, Ok((200, _))));
    assert_eq!(calls, 2);
    assert_eq!(provider.breaker.failure_count(), 0);
}

#[test]
fn minimax_provider_breaker_opens_after_threshold() {
    let mut provider = test_provider();
    provider.breaker = CircuitBreaker::new(2);
    for _ in 0..2 {
        let (result, _) = make_call(&mut provider, vec![refused(503, "unavailable")], false);
        assert!(result.is_err());
    }
    assert_eq!(provider.breaker.failure_count(), 2);
    assert!(provider.breaker.is_open());
}

#[test]
fn the_breaker_hears_of_final_results_only() {
    let mut provider = test_provider().with_max_retries(3);
    let down = || refused(500, "down");
    let (result, calls) = make_call(&mut provider, vec![down(), down(), down()], false);
    assert!(result.is_err());
    assert_eq!(calls, 3);
    assert_eq!(provider.breaker.failure_count(), 1);
    let (result, _) = make_call(&mut provider, vec![down(), answered("ok")], false);
    assert!(result.is_ok());
    assert_eq!(provider.breaker.failure_count(), 0);
    assert!(!provider.breaker.is_open());
}

#[test]
fn probes_never_reach_the_breaker() {
    let mut provider = test_provider();
    provider.breaker = CircuitBreaker::new(1);
    let (result, calls) = make_call(&mut provider, vec![refused(500, "down")], true);
    assert!(result.is_err());
    assert_eq!(calls, 1);
    assert!(!provider.breaker.is_open());
    make_call(&mut provider, vec![refused(500, "down")], false).0.unwrap_err();
    assert!(provider.breaker.is_open());
    make_call(&mut provider, vec![answered("ok")], true).0.unwrap();
    assert!(provider.breaker.is_open());
}

#[test]
fn refused_keys_do_not_open_the_breaker() {
    let mut provider = test_provider();
    make_call(&mut provider, vec![refused(401, "no")], false).0.unwrap_err();
    make_call(&mut provider, vec![refused(429, "slow down")], false).0.unwrap_err();
    assert_eq!(provider.breaker.failure_count(), 0);
    make_call(&mut provider, vec![refused(504, "late")], false).0.unwrap_err();
    assert_eq!(provider.breaker.failure_count(), 1);
    assert_eq!(CircuitBreaker::default(), CircuitBreaker::new(5));
}

#[test]
fn throttled_calls_are_tried_again() {
    let provider = provider(&config(Some("http://h"), Vec::new())).with_max_retries(2);
    let slow = Error::Throttled {
        message: "slow down".into(),
        http_status: Some(429),
    };
    let first = provider.next(1, provider.max_retries, MessagesExchange::Refused(slow));
    assert!(matches!(first, Step::Retry));
    let second = provider.next(
        2,
        provider.max_retries,
        MessagesExchange::Decoded {
            status: 200,
            response: reply("ok"),
        },
    );
    assert!(matches!(second, Step::Done(Ok((200, _)))));
}

#[test]
fn new_round_trips_each_canonical_model() {
    let canonical = [
        "MiniMax-M3",
        "MiniMax-M2.7",
        "MiniMax-M2.7-highspeed",
        "MiniMax-M2.5",
    ];
    for id in canonical {
        let p = provider(&config(None, vec![model(id, None, None)]));
        assert_eq!(p.model(), id, "model name did not round-trip");
        assert_eq!(p.name(), "minimax");
        assert_eq!(p.endpoint(), "https://api.minimax.io/anthropic/v1/messages");
    }
}

#[test]
fn minimax_send_posts_anthropic_compatible_body() {
    let provider = provider(&config(Some("http://h"), Vec::new()));
    let req = Request {
        model: "MiniMax-M3".into(),
        role: Role::Intake,
        system: "you are minimax".into(),
        user: "hello upstream".into(),
        max_tokens: Some(32),
        temperature: Some(Knob { bits: 0.4f32.to_bits() }),
        top_p: Some(Knob { bits: 0.9f32.to_bits() }),
        response_schema: None,
        stream: false,
        extra_messages: vec![],
        attachments: vec![],
        tool_choice: None,
    };
    let plan = provider.plan(&req, false);
    assert_eq!(plan.url, "http://h/v1/messages");
    let step = provider.next(
        1,
        plan.max_retries,
        MessagesExchange::Decoded {
            status: 200,
            response: reply("ok"),
        },
    );
    match step {
        Step::Done(Ok((status, resp))) => {
            assert_eq!(status, 200);
            assert_eq!(resp.text, "ok");
        }
        _ => panic!("minimax send should succeed"),
    }

    let body = plan.body;
    assert_eq!(body.model, "MiniMax-M3");
    assert_eq!(body.max_tokens, Some(32));
    assert_eq!(body.system, "you are minimax");
    assert_eq!(
        body.messages,
        vec![
            Message {
                role: "user".into(),
                content: "hello upstream".into()
            },
            Message {
                role: "assistant".into(),
                content: "{".into()
            },
        ],
        "Intake must include the JSON prefill assistant message"
    );
    let temp = f32::from_bits(body.temperature.expect("temperature numeric").bits);
    assert!((temp - 0.4).abs() < 1e-6, "temperature must round-trip");
    let top_p = f32::from_bits(body.top_p.expect("top_p numeric").bits);
    assert!((top_p - 0.9).abs() < 1e-6, "top_p must round-trip");
}

#[test]
fn minimax_send_clamps_max_tokens_to_provider_cap() {
    let provider = provider(&config(
        None,
        vec![model("MiniMax-M3", Some("http://h"), Some(8192))],
    ));
    let plan = provider.plan(&asking_for(1_000_000), false);
    assert_eq!(plan.url, "http://h/v1/messages");
    assert_eq!(plan.body.max_tokens, Some(8192));
}

#[test]
fn send_clamps_max_tokens_to_minimax_hard_cap() {
    let provider = provider(&config(Some("http://h"), Vec::new()));
    let plan = provider.plan(&asking_for(1_000_000), false);
    assert_eq!(plan.body.max_tokens, Some(MINIMAX_MAX_TOKENS_CAP));
    assert_eq!(MINIMAX_MAX_TOKENS_CAP, 524_288);
}

#[test]
fn minimax_send_clamps_max_tokens_to_table_value() {
    let (table, discovered) = probed_table();
    let provider = provider(&config(Some("http://h"), Vec::new())).with_max_tokens_table(table);
    let plan = provider.plan(&asking_for(1_000_000), false);
    assert_eq!(plan.body.max_tokens, Some(discovered));
}

#[test]
fn effective_max_tokens_matches_send_clamp_chain() {
    let p = provider(&config(None, Vec::new()));
    assert_eq!(
        p.effective_max_tokens(&asking_for(1_000_000), None),
        MINIMAX_MAX_TOKENS_CAP,
        "with no caps the value must clamp to MINIMAX_MAX_TOKENS_CAP"
    );
    assert_eq!(
        p.effective_max_tokens(&asking_for(4096), None),
        4096,
        "requests below MINIMAX_MAX_TOKENS_CAP must pass through"
    );

    let p_op = provider(&config(None, vec![model("MiniMax-M3", None, Some(8192))]));
    assert_eq!(
        p_op.effective_max_tokens(&asking_for(1_000_000), None),
        8_192,
        "operator override must clamp below the request value"
    );

    let p_above = provider(&config(
        None,
        vec![model("MiniMax-M3", None, Some(2_000_000))],
    ));
    assert_eq!(
        p_above.effective_max_tokens(&asking_for(1_000_000), None),
        MINIMAX_MAX_TOKENS_CAP,
        "MINIMAX_MAX_TOKENS_CAP must still clamp an oversized operator override"
    );

    let (table, discovered) = probed_table();
    let p_table = provider(&config(None, Vec::new())).with_max_tokens_table(table);
    assert_eq!(
        p_table.effective_max_tokens(&asking_for(1_000_000), None),
        discovered,
        "table value ({discovered}) must win when below operator cap and MINIMAX_MAX_TOKENS_CAP"
    );
    assert_eq!(
        p_table.plan(&asking_for(1_000_000), false).body.max_tokens,
        Some(discovered)
    );
}

#[test]
fn probes_go_out_as_they_are_and_once() {
    let p = provider(&config(None, vec![model("MiniMax-M3", None, Some(8192))]));
    let plan = p.plan(&asking_for(1_000_000), true);
    assert_eq!(plan.body.max_tokens, Some(1_000_000));
    assert_eq!(plan.max_retries, 0);
    let lost = p.next(1, plan.max_retries, MessagesExchange::Unreachable("gone".into()));
    match lost {
        Step::Done(Err(e)) => assert_eq!(
            e,
            Error::Provider {
                message: "network: gone".into(),
                http_status: None
            }
        ),
        _ => panic!("a probe is made once"),
    }
}

#[test]
fn what_the_request_adds_is_sent_as_it_is() {
    let p = provider(&config(None, Vec::new()));
    let extra = Message {
        role: "assistant".into(),
        content: "[".into(),
    };
    let req = Request {
        extra_messages: vec![extra.clone()],
        ..test_request()
    };
    let messages = p.plan(&req, false).body.messages;
    assert_eq!(messages.len(), 2);
    assert_eq!(messages[1], extra);
}

#[test]
fn keys_that_cannot_be_used_are_reported_for_the_kind() {
    let cfg = config(None, Vec::new());
    let bad = Some(Err(Error::InvalidApiKey {
        message: "file is locked".into(),
        http_status: Some(1),
    }));
    match MinimaxProvider::from_config(&cfg, bad) {
        Err(e) => assert_eq!(
            e,
            Error::InvalidApiKey {
                message: "minimax: file is locked; check api_keys.toml and the env var fallback"
                    .into(),
                http_status: None
            }
        ),
        Ok(_) => panic!("the key cannot be used"),
    }
    let other = Some(Err(Error::Io("disk".into())));
    match MinimaxProvider::from_config(&cfg, other) {
        Err(e) => assert_eq!(e, Error::Io("disk".into())),
        Ok(_) => panic!("the lookup failed"),
    }
    let resolved = ResolvedModelConfig {
        section: "mine".into(),
        id: "MiniMax-M2.5".into(),
        endpoint: "http://h/v1".into(),
        max_tokens: Some(9),
        omit_max_tokens: false,
    };
    let p = MinimaxProvider::from_resolved(&resolved, "minimax", Some(Ok("k".into())))
        .unwrap_or_else(|e| panic!("the key is there, got {e:?}"));
    assert_eq!((p.name(), p.model()), ("mine", "MiniMax-M2.5"));
    assert_eq!(p.messages_url(), "http://h/v1/messages");
    assert_eq!(p.provider_max_tokens, Some(9));
    assert_eq!(p.capabilities(), ProviderCapabilities::Minimax);
    assert_eq!(p.max_tokens_probe_ceiling(), MINIMAX_MAX_TOKENS_CAP);
}

#[test]
fn failures_end_the_call_at_the_last_attempt() {
    let p = provider(&config(None, Vec::new()));
    let broken = http_error(503, "unavailable");
    assert!(matches!(
        p.next(1, 2, MessagesExchange::Refused(broken.clone())),
        Step::Retry
    ));
    match p.next(2, 2, MessagesExchange::Refused(broken.clone())) {
        Step::Done(Err(e)) => assert_eq!(e, broken),
        _ => panic!("that was the last attempt"),
    }
    let key = http_error(401, "no");
    match p.next(1, 3, MessagesExchange::Refused(key.clone())) {
        Step::Done(Err(e)) => assert_eq!(e, key),
        _ => panic!("a refused key stays refused"),
    }
    match p.next(1, 3, MessagesExchange::Undecodable("eof".into())) {
        Step::Done(Err(Error::Provider { message, .. })) => {
            assert_eq!(message, "decode response: eof")
        }
        _ => panic!("what cannot be decoded is an error"),
    }
    match p.next(1, 3, MessagesExchange::Unusable("no text".into())) {
        Step::Done(Err(Error::Provider { message, .. })) => assert_eq!(message, "no text"),
        _ => panic!("what holds no text is an error"),
    }
}
