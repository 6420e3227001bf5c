use std::sync::Arc;

use moagan::capabilities::ProviderCapabilities;
use moagan::config::{ModelConfig, ProviderConfig, ResolvedModelConfig, SecretString};
use moagan::error::Error;
use moagan::openai_compat::{build_responses_body, OpenAICompatProvider};
use moagan::probe::{ProbeOutcome, ProbeTransport, MAX_AUTOPROBE_CEILING, MIN_AUTOPROBE_FLOOR};
use moagan::probe_table::MaxTokensTable;
use moagan::provider::Provider;
use moagan::responses_wire::{
    accumulate_sse_responses, ResponsesBody, ResponsesContent, ResponsesOutput, ResponsesUsage,
    StreamEvent, StreamExchange,
};
use moagan::role::Role;
use moagan::sse::split_payloads;
use moagan::transport::{Exchange, Step};
use moagan::wire::{Knob, Request};
use serde_json::Value;

fn text_of(v: &Value) -> Option<String> {
    v.as_str().map(|s| s.to_owned())
}

fn decode_body(v: &Value) -> ResponsesBody {
    let items = v["output"].as_array().cloned().unwrap_or_default();
    let mut output = Vec::new();
    for item in &items {
        let mut content = Vec::new();
        for piece in item["content"].as_array().expect("content is an array") {
            content.push(ResponsesContent {
                kind: text_of(&piece["type"]).expect("pieces have a type"),
                text: text_of(&piece["text"]),
            });
        }
        output.push(ResponsesOutput { content });
    }
    let usage = v.get("usage").map(|u| ResponsesUsage {
        input_tokens: u["input_tokens"].as_u64().expect("a count"),
        output_tokens: u["output_tokens"].as_u64().expect("a count"),
    });
    ResponsesBody { output, usage }
}

fn events(stream: &[u8]) -> Vec<StreamEvent> {
    split_payloads(stream)
        .iter()
        .map(|payload| match serde_json::from_slice::<Value>(payload) {
            Ok(v) => StreamEvent::Delta(decode_body(&v)),
            Err(e) => StreamEvent::Undecodable(e.to_string()),
        })
        .collect()
}

fn decoded(json: &str) -> Exchange<ResponsesBody> {
    let v: Value = serde_json::from_str(json).expect("the reply is JSON");
    Exchange::Decoded {
        status: 200,
        reply: decode_body(&v),
    }
}

fn streamed(stream: &[u8]) -> StreamExchange {
    StreamExchange::Events {
        status: 200,
        events: events(stream),
    }
}

fn probed_table(provider: &str, model: &str, cap: u32) -> (Arc<MaxTokensTable>, u32) {
    let mut table = MaxTokensTable::empty(MIN_AUTOPROBE_FLOOR);
    let discovered = table
        .probe_and_store(
            provider,
            model,
            &CappedTransport { cap },
            MAX_AUTOPROBE_CEILING,
        )
        .expect("probe_and_store");
    (Arc::new(table), discovered)
}

const PLAIN: &str = r#"{"output":[{"content":[{"type":"output_text","text":"plain"}]}],
    "usage":{"input_tokens":7,"output_tokens":11}}"#;

const HELLO: &[u8] = b"\
data: {\"output\":[{\"content\":[{\"type\":\"output_text\",\"text\":\"Hello \"}]}]}\n\n\
data: {\"output\":[{\"content\":[{\"type\":\"output_text\",\"text\":\"world\"}]}]}\n\n\
data: {\"output\":[],\"usage\":{\"input_tokens\":12,\"output_tokens\":34}}\n\n\
data: [DONE]\n\n";

const BROKEN: &[u8] = b"\
data: {\"output\":[{\"content\":[{\"type\":\"output_text\",\"text\":\"ok\"}]}]}\n\n\
data: {not json}\n\n";

const TWO_COUNTS: &[u8] = b"\
data: {\"output\":[{\"content\":[{\"type\":\"output_text\",\"text\":\"Hello \"}]}],\"usage\":{\"input_tokens\":1,\"output_tokens\":2}}\n\n\
data: {\"output\":[{\"content\":[{\"type\":\"output_text\",\"text\":\"world\"}]}],\"usage\":{\"input_tokens\":3,\"output_tokens\":4}}\n\n\
data: [DONE]\n\n";

fn request(model: &str, max_tokens: u32, stream: bool) -> Request {
    Request {
        model: model.into(),
        role: Role::Intake,
        system: "sys".into(),
        user: "user".into(),
        max_tokens: Some(max_tokens),
        temperature: None,
        top_p: None,
        response_schema: None,
        stream,
        extra_messages: vec![],
        attachments: vec![],
        tool_choice: None,
    }
}

fn json_request(role: Role, model: &str) -> Request {
    Request {
        role,
        system: "system".into(),
        ..request(model, 128, false)
    }
}

struct CappedTransport {
    cap: u32,
}

impl ProbeTransport for CappedTransport {
    fn probe_send(&self, n: u32) -> ProbeOutcome {
        if n <= self.cap {
            ProbeOutcome::Accepted
        } else {
            ProbeOutcome::Rejected
        }
    }
}

fn config(endpoint: Option<&str>, models: Vec<ModelConfig>) -> ProviderConfig {
    ProviderConfig {
        endpoint: endpoint.map(|e| e.to_owned()),
        models,
        omit_max_tokens: false,
    }
}

fn model(id: &str, max_tokens: Option<u32>) -> ModelConfig {
    ModelConfig {
        id: id.into(),
        endpoint: None,
        max_tokens,
    }
}

fn provider(cfg: &ProviderConfig) -> OpenAICompatProvider {
    OpenAICompatProvider::new(cfg, SecretString::new("dummy".into()))
        .unwrap_or_else(|e| panic!("the section is good, got {e:?}"))
}

#[test]
fn openai_compat_responses_url_handles_known_suffixes() {
    let p = provider(&config(
        Some("https://opencode.ai/zen/go/v1/responses"),
        Vec::new(),
    ));
    assert_eq!(p.responses_url(), "https://opencode.ai/zen/go/v1/responses");
}

#[test]
fn openai_compat_responses_url_handles_responses_suffix() {
    let p = provider(&config(
        Some("https://opencode.ai/zen/go/v1/responses"),
        Vec::new(),
    ));
    assert_eq!(p.responses_url(), "https://opencode.ai/zen/go/v1/responses");
    assert_eq!(p.url(), p.responses_url());
    let p = provider(&config(Some("http://h/v1"), Vec::new()));
    assert_eq!(p.responses_url(), "http://h/v1/responses");
    let p = provider(&config(Some("http://h"), Vec::new()));
    assert_eq!(p.responses_url(), "http://h/v1/responses");
}

#[test]
fn openai_compat_from_config_errors_when_key_missing() {
    let cfg = config(None, Vec::new());
    let result = OpenAICompatProvider::from_config(&cfg, None);
    assert!(matches!(result, Err(Error::InvalidApiKey { .. })));
    let set = OpenAICompatProvider::from_config(&cfg, Some("k".into()));
    assert_eq!(set.map(|p| p.api_key.expose().to_owned()), Ok("k".to_owned()));
}

#[test]
fn openai_compat_streaming_consumes_sse_data_lines() {
    let p = provider(&config(Some("http://h/v1"), Vec::new()));
    let plan = p.plan(&request("minimax-m3", 256, true), false);
    assert_eq!(plan.url, "http://h/v1/responses");
    assert!(plan.body.stream);
    let (status, response) = p.finish_stream(streamed(HELLO)).unwrap();
    assert_eq!(status, 200);
    assert_eq!(response.text, "Hello world");
    assert_eq!(response.usage.input_tokens, 12);
    assert_eq!(response.usage.output_tokens, 34);
    assert!(!response.truncated);
    assert!(response.finish_reason.is_none());
}

#[test]
fn openai_compat_streaming_returns_error_on_mid_stream_failure() {
    let p = provider(&config(Some("http://h/v1"), Vec::new()));
    let err = p.finish_stream(streamed(BROKEN)).unwrap_err();
    match err {
        Error::Provider { message, .. } => assert!(
            message.contains("sse parse"),
            "expected sse parse error, got {message:?}"
        ),
        other => panic!("expected Error::Provider, got {other:?}"),
    }
}

#[test]
fn openai_compat_non_streaming_still_works() {
    let p = provider(&config(Some("http://h/v1"), Vec::new()));
    let plan = p.plan(&request("minimax-m3", 64, false), false);
    assert!(!plan.body.stream);
    match p.next(1, plan.max_retries, decoded(PLAIN)) {
        Step::Done(Ok((status, response))) => {
            assert_eq!(status, 200);
            assert_eq!(response.text, "plain");
            assert_eq!(response.usage.input_tokens, 7);
            assert_eq!(response.usage.output_tokens, 11);
        }
        _ => panic!("a reply ends the call"),
    }
}

#[test]
fn openai_compat_accumulate_sse_responses_joins_text_and_picks_last_usage() {
    let (text, usage) = accumulate_sse_responses(&events(TWO_COUNTS)).unwrap();
    assert_eq!(text, "Hello world");
    assert_eq!(usage.input_tokens, 3);
    assert_eq!(usage.output_tokens, 4);
}

#[test]
fn openai_compat_send_clamps_max_tokens_to_provider_cap() {
    let p = provider(&config(
        Some("http://h/v1"),
        vec![model("minimax-m3", Some(8192))],
    ));
    let plan = p.plan(&request("minimax-m3", 1_000_000, false), false);
    assert_eq!(plan.body.max_tokens, Some(8192));
}

#[test]
fn openai_compat_send_streaming_clamps_max_tokens_to_provider_cap() {
    let p = provider(&config(
        Some("http://h/v1"),
        vec![model("minimax-m3", Some(8192))],
    ));
    let plan = p.plan(&request("minimax-m3", 1_000_000, true), false);
    assert_eq!(plan.body.max_tokens, Some(8192));
    assert!(plan.body.stream);
}

#[test]
fn openai_compat_send_omits_max_tokens_when_omit_flag_set() {
    let cfg = ProviderConfig {
        omit_max_tokens: true,
        ..config(Some("http://h/v1"), vec![model("minimax-m3", None)])
    };
    let plan = provider(&cfg).plan(&request("minimax-m3", 1_000_000, false), false);
    assert_eq!(plan.body.model, "minimax-m3");
    assert_eq!(
        plan.body.max_tokens, None,
        "max_tokens must be absent when omit_max_tokens=true"
    );
}

#[test]
fn openai_compat_send_includes_max_tokens_when_omit_flag_unset() {
    let p = provider(&config(Some("http://h/v1"), Vec::new()));
    let plan = p.plan(&request("minimax-m3", 1024, false), false);
    assert_eq!(plan.body.max_tokens, Some(1024));
}

#[test]
fn send_does_not_clamp_max_tokens_when_no_probe_or_override() {
    let p = provider(&config(Some("http://h/v1"), Vec::new()));
    let plan = p.plan(&request("minimax-m3", 1_000_000, false), false);
    assert_eq!(plan.body.max_tokens, Some(1_000_000));
}

#[test]
fn openai_compat_send_streaming_clamps_max_tokens_to_opencode_go_hard_cap() {
    let p = provider(&config(Some("http://h/v1"), Vec::new()));
    let plan = p.plan(&request("minimax-m3", 1_000_000, true), false);
    assert_eq!(plan.body.max_tokens, Some(1_000_000));
}

#[test]
fn responses_wire_sets_text_format_when_role_requires_json_and_model_is_not_opted_out() {
    let req = json_request(Role::Intake, "gpt-5.6-luna");
    let body = build_responses_body(&req, &req.model, false, false);
    assert_eq!(body.text.map(|t| t.format.kind), Some("json_object"));
}

#[test]
fn responses_wire_omits_text_format_for_role_sketch() {
    let req = json_request(Role::Sketch, "gpt-5.6-luna");
    let body = build_responses_body(&req, &req.model, false, false);
    assert!(body.text.is_none(), "Sketch role must drop text.format");
}

#[test]
fn responses_wire_omits_text_format_for_opted_out_model() {
    let req = json_request(Role::Intake, "kimi-k3");
    let body = build_responses_body(&req, &req.model, false, false);
    assert!(
        body.text.is_none(),
        "opted-out model kimi-k3 must drop text.format"
    );
}

#[test]
fn openai_compat_responses_wire_includes_other_fields_unaffected() {
    let req = Request {
        role: Role::Route,
        temperature: Some(Knob { bits: 0.4f32.to_bits() }),
        top_p: Some(Knob { bits: 0.9f32.to_bits() }),
        ..request("minimax-m3", 256, false)
    };
    let body = build_responses_body(&req, &req.model, false, false);
    assert_eq!(body.model, "minimax-m3");
    assert_eq!(body.instructions.as_deref(), Some("sys"));
    assert_eq!(body.input, "user");
    assert_eq!(body.max_tokens, Some(256));
    let temp = f32::from_bits(body.temperature.unwrap().bits);
    assert!((temp - 0.4).abs() < 1e-6, "temperature must round-trip");
    let top_p = f32::from_bits(body.top_p.unwrap().bits);
    assert!((top_p - 0.9).abs() < 1e-6, "top_p must round-trip");
    assert!(!body.stream);
    assert_eq!(body.text.map(|t| t.format.kind), Some("json_object"));
}

#[test]
fn openai_compat_send_clamps_max_tokens_to_table_value() {
    let (table, discovered) = probed_table("gpt-5.6-luna", "gpt-5.6-luna", 10_000);
    let p = provider(&config(
        Some("http://h/v1"),
        vec![model("gpt-5.6-luna", None)],
    ))
    .with_max_tokens_table(table);
    let req = request("minimax-m3", 1_000_000, false);
    assert_eq!(p.plan(&req, false).body.max_tokens, Some(discovered));
    assert_eq!(p.effective_max_tokens(&req, None), discovered);
}

#[test]
fn openai_compat_probes_are_not_clamped() {
    let p = provider(&config(
        Some("http://h/v1"),
        vec![model("minimax-m3", Some(8192))],
    ));
    for stream in [false, true] {
        let plan = p.plan(&request("minimax-m3", 1_000_000, stream), true);
        assert_eq!(plan.body.max_tokens, Some(1_000_000));
    }
}

#[test]
fn openai_compat_bodies_name_the_model_they_are_built_for() {
    let body = build_responses_body(&request("m", 1, true), "other", true, true);
    assert_eq!(body.instructions.as_deref(), Some("sys"));
    assert_eq!(body.model, "other");
    assert_eq!(body.max_tokens, None);
    assert!(body.stream);
}

#[test]
fn openai_compat_failures_are_tried_again_but_for_a_refused_key() {
    let p = provider(&config(Some("http://h/v1"), Vec::new()));
    let refused = |status: u16| Exchange::<ResponsesBody>::Refused {
        status,
        body: "why".into(),
    };
    assert!(matches!(p.next(1, 3, refused(500)), Step::Retry));
    assert!(matches!(p.next(2, 3, refused(429)), Step::Retry));
    match p.next(3, 3, refused(500)) {
        Step::Done(Err(e)) => assert_eq!(
            e,
            Error::Provider {
                message: "http 500: why".into(),
                http_status: Some(500)
            }
        ),
        _ => panic!("that was the last attempt"),
    }
    assert!(matches!(
        p.next(1, 3, refused(401)),
        Step::Done(Err(Error::InvalidApiKey { .. }))
    ));
    assert!(matches!(
        p.next(1, 3, Exchange::Unreachable("gone".into())),
        Step::Retry
    ));
    match p.next(1, 3, Exchange::Undecodable("eof".into())) {
        Step::Done(Err(Error::Provider { message, .. })) => assert_eq!(message, "decode: eof"),
        _ => panic!("what cannot be decoded is an error"),
    }
}

#[test]
fn openai_compat_streams_are_not_tried_again() {
    let p = provider(&config(Some("http://h/v1"), Vec::new()));
    let message = |e: StreamExchange| match p.finish_stream(e) {
        Err(Error::Provider { message, .. }) => message,
        other => panic!("expected Error::Provider, got {other:?}"),
    };
    assert_eq!(message(StreamExchange::Unreachable("a".into())), "network: a");
    assert_eq!(message(StreamExchange::Broken("b".into())), "stream body read: b");
    assert_eq!(
        message(StreamExchange::Refused {
            status: 500,
            body: "c".into()
        }),
        "http 500: c"
    );
    let torn = StreamExchange::Events {
        status: 200,
        events: vec![StreamEvent::Unreadable("d".into())],
    };
    assert_eq!(message(torn), "sse io: d");
}

#[test]
fn openai_compat_takes_a_resolved_model() {
    let resolved = ResolvedModelConfig {
        section: "relay".into(),
        id: "m".into(),
        endpoint: "http://h".into(),
        max_tokens: Some(10),
        omit_max_tokens: true,
    };
    let p = OpenAICompatProvider::from_resolved(&resolved, "relay", Some(Ok("k".into())))
        .unwrap_or_else(|e| panic!("the key is there, got {e:?}"));
    assert_eq!((p.name(), p.model(), p.endpoint()), ("relay", "m", "http://h"));
    assert!(p.omit_max_tokens);
    assert_eq!(p.capabilities(), ProviderCapabilities::OpenAiCompat);
    let routed = provider(&config(Some("http://h/v1/responses"), Vec::new()));
    assert_eq!(
        routed.capabilities(),
        ProviderCapabilities::OpenCodeGoResponses
    );
    match OpenAICompatProvider::from_resolved(&resolved, "relay", None) {
        Err(Error::InvalidApiKey { message, .. }) => assert_eq!(
            message,
            "RELAY_API_KEY not set; provide via env, --api-key, or api_keys.toml"
        ),
        _ => panic!("there is no key"),
    }
}
