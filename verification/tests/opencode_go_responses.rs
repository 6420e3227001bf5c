use std::sync::Arc;

use moagan::capabilities::{ProviderCapabilities, OPENCODE_GO_MAX_TOKENS_CAP};
use moagan::config::{SecretString, SectionConfig};
use moagan::error::Error;
use moagan::opencode_go_responses::{build_responses_body, OpenCodeGoResponsesProvider};
use moagan::probe::{ProbeOutcome, ProbeTransport, MAX_AUTOPROBE_CEILING, MIN_AUTOPROBE_FLOOR};
use moagan::probe_table::MaxTokensTable;
use moagan::provider::Provider;
use moagan::responses_wire::{
    accumulate_sse_responses, ResponsesBody, ResponsesContent, ResponsesOutput, ResponsesUsage,
    StreamEvent, StreamExchange,
};
use moagan::role::Role;
use moagan::sse::split_payloads;
use moagan::transport::{Exchange, Step};
use moagan::wire::{Knob, Request};
use serde_json::Value;

fn text_of(v: &Value) -> Option<String> {
    v.as_str().map(|s| s.to_owned())
}

fn decode_body(v: &Value) -> ResponsesBody {
    let items = v["output"].as_array().cloned().unwrap_or_default();
    let mut output = Vec::new();
    for item in &items {
        let mut content = Vec::new();
        for piece in item["content"].as_array().expect("content is an array") {
            content.push(ResponsesContent {
                kind: text_of(&piece["type"]).expect("pieces have a type"),
                text: text_of(&piece["text"]),
            });
        }
        output.push(ResponsesOutput { content });
    }
    let usage = v.get("usage").map(|u| ResponsesUsage {
        input_tokens: u["input_tokens"].as_u64().expect("a count"),
        output_tokens: u["output_tokens"].as_u64().expect("a count"),
    });
    ResponsesBody { output, usage }
}

fn events(stream: &[u8]) -> Vec<StreamEvent> {
    split_payloads(stream)
        .iter()
        .map(|payload| match serde_json::from_slice::<Value>(payload) {
            Ok(v) => StreamEvent::Delta(decode_body(&v)),
            Err(e) => StreamEvent::Undecodable(e.to_string()),
        })
        .collect()
}

fn decoded(json: &str) -> Exchange<ResponsesBody> {
    let v: Value = serde_json::from_str(json).expect("the reply is JSON");
    Exchange::Decoded {
        status: 200,
        reply: decode_body(&v),
    }
}

fn streamed(stream: &[u8]) -> StreamExchange {
    StreamExchange::Events {
        status: 200,
        events: events(stream),
    }
}

fn probed_table(provider: &str, model: &str, cap: u32) -> (Arc<MaxTokensTable>, u32) {
    let mut table = MaxTokensTable::empty(MIN_AUTOPROBE_FLOOR);
    let discovered = table
        .probe_and_store(
            provider,
            model,
            &CappedTransport { cap },
            MAX_AUTOPROBE_CEILING,
        )
        .expect("probe_and_store");
    (Arc::new(table), discovered)
}

const PLAIN: &str = r#"{"output":[{"content":[{"type":"output_text","text":"plain"}]}],
    "usage":{"input_tokens":7,"output_tokens":11}}"#;

const HELLO: &[u8] = b"\
data: {\"output\":[{\"content\":[{\"type\":\"output_text\",\"text\":\"Hello \"}]}]}\n\n\
data: {\"output\":[{\"content\":[{\"type\":\"output_text\",\"text\":\"world\"}]}]}\n\n\
data: {\"output\":[],\"usage\":{\"input_tokens\":12,\"output_tokens\":34}}\n\n\
data: [DONE]\n\n";

const BROKEN: &[u8] = b"\
data: {\"output\":[{\"content\":[{\"type\":\"output_text\",\"text\":\"ok\"}]}]}\n\n\
data: {not json}\n\n";

const TWO_COUNTS: &[u8] = b"\
data: {\"output\":[{\"content\":[{\"type\":\"output_text\",\"text\":\"Hello \"}]}],\"usage\":{\"input_tokens\":1,\"output_tokens\":2}}\n\n\
data: {\"output\":[{\"content\":[{\"type\":\"output_text\",\"text\":\"world\"}]}],\"usage\":{\"input_tokens\":3,\"output_tokens\":4}}\n\n\
data: [DONE]\n\n";

fn request(model: &str, max_tokens: u32, stream: bool) -> Request {
    Request {
        model: model.into(),
        role: Role::Intake,
        system: "sys".into(),
        user: "user".into(),
        max_tokens: Some(max_tokens),
        temperature: None,
        top_p: None,
        response_schema: None,
        stream,
        extra_messages: vec![],
        attachments: vec![],
        tool_choice: None,
    }
}

fn json_request(role: Role, model: &str) -> Request {
    Request {
        role,
        system: "system".into(),
        ..request(model, 128, false)
    }
}

struct CappedTransport {
    cap: u32,
}

impl ProbeTransport for CappedTransport {
    fn probe_send(&self, n: u32) -> ProbeOutcome {
        if n <= self.cap {
            ProbeOutcome::Accepted
        } else {
            ProbeOutcome::Rejected
        }
    }
}

fn config(endpoint: &str, max_tokens: Option<u32>) -> SectionConfig {
    SectionConfig {
        kind: "opencode_go".into(),
        endpoint: endpoint.into(),
        model: "gpt-5.6-luna".into(),
        max_tokens,
        omit_max_tokens: false,
    }
}

fn provider(cfg: &SectionConfig) -> OpenCodeGoResponsesProvider {
    OpenCodeGoResponsesProvider::new(cfg, SecretString::new("dummy".into()))
        .unwrap_or_else(|e| panic!("the section is good, got {e:?}"))
}

#[test]
fn opencode_go_responses_responses_url_handles_known_suffixes() {
    let p = provider(&config("https://opencode.ai/zen/go/v1", None));
    assert_eq!(p.responses_url(), "https://opencode.ai/zen/go/v1/responses");
}

#[test]
fn opencode_go_responses_responses_url_handles_responses_suffix() {
    let p = provider(&config("https://opencode.ai/zen/go/v1/responses", None));
    assert_eq!(p.responses_url(), "https://opencode.ai/zen/go/v1/responses");
}

#[test]
fn opencode_go_responses_from_config_errors_when_key_missing() {
    let cfg = config("https://opencode.ai/zen/go/v1", None);
    let result = OpenCodeGoResponsesProvider::from_config(&cfg, None);
    assert!(matches!(result, Err(Error::InvalidApiKey { .. })));
    match OpenCodeGoResponsesProvider::from_config(&cfg, Some(" \t".into())) {
        Err(Error::InvalidApiKey { message, .. }) => assert_eq!(
            message,
            "OPENCODE_GO_API_KEY not set; provide via env, --api-key, or config file"
        ),
        _ => panic!("a blank key is none"),
    }
    let set = OpenCodeGoResponsesProvider::from_config(&cfg, Some(" k".into()));
    assert_eq!(set.map(|p| p.api_key.expose().to_owned()), Ok(" k".to_owned()));
}

#[test]
fn opencode_go_responses_streaming_consumes_sse_data_lines() {
    let p = provider(&config("http://h/v1", None));
    let plan = p.plan(&request("gpt-5.6-luna", 256, true));
    assert_eq!(plan.url, "http://h/v1/responses");
    assert!(plan.body.stream);
    let (status, response) = p.finish_stream(streamed(HELLO)).unwrap();
    assert_eq!(status, 200);
    assert_eq!(response.text, "Hello world");
    assert_eq!(response.usage.input_tokens, 12);
    assert_eq!(response.usage.output_tokens, 34);
    assert!(!response.truncated);
    assert!(response.finish_reason.is_none());
}

#[test]
fn opencode_go_responses_streaming_returns_error_on_mid_stream_failure() {
    let p = provider(&config("http://h/v1", None));
    let err = p.finish_stream(streamed(BROKEN)).unwrap_err();
    match err {
        Error::Provider { message, .. } => assert!(
            message.contains("sse parse"),
            "expected sse parse error, got {message:?}"
        ),
        other => panic!("expected Error::Provider, got {other:?}"),
    }
}

#[test]
fn opencode_go_responses_non_streaming_still_works() {
    let p = provider(&config("http://h/v1", None));
    let plan = p.plan(&request("gpt-5.6-luna", 64, false));
    assert!(!plan.body.stream);
    match p.next(1, plan.max_retries, decoded(PLAIN)) {
        Step::Done(Ok((status, response))) => {
            assert_eq!(status, 200);
            assert_eq!(response.text, "plain");
            assert_eq!(response.usage.input_tokens, 7);
            assert_eq!(response.usage.output_tokens, 11);
        }
        _ => panic!("a reply ends the call"),
    }
}

#[test]
fn opencode_go_responses_accumulate_sse_responses_joins_text_and_picks_last_usage() {
    let (text, usage) = accumulate_sse_responses(&events(TWO_COUNTS)).unwrap();
    assert_eq!(text, "Hello world");
    assert_eq!(usage.input_tokens, 3);
    assert_eq!(usage.output_tokens, 4);
}

#[test]
fn opencode_go_responses_send_clamps_max_tokens_to_provider_cap() {
    let p = provider(&config("http://h/v1", Some(8192)));
    let plan = p.plan(&request("gpt-5.6-luna", 1_000_000, false));
    assert_eq!(plan.body.max_tokens, Some(8192));
}

#[test]
fn opencode_go_responses_send_streaming_clamps_max_tokens_to_provider_cap() {
    let p = provider(&config("http://h/v1", Some(8192)));
    let plan = p.plan(&request("gpt-5.6-luna", 1_000_000, true));
    assert_eq!(plan.body.max_tokens, Some(8192));
    assert!(plan.body.stream);
}

#[test]
fn opencode_go_responses_send_omits_max_tokens_when_omit_flag_set() {
    let cfg = SectionConfig {
        omit_max_tokens: true,
        ..config("http://h/v1", Some(8192))
    };
    let plan = provider(&cfg).plan(&request("gpt-5.6-luna", 1_000_000, false));
    assert_eq!(plan.body.model, "gpt-5.6-luna");
    assert_eq!(
        plan.body.max_tokens, None,
        "max_tokens must be absent when omit_max_tokens=true"
    );
}

#[test]
fn opencode_go_responses_send_includes_max_tokens_when_omit_flag_unset() {
    let p = provider(&config("http://h/v1", None));
    let plan = p.plan(&request("gpt-5.6-luna", 1024, false));
    assert_eq!(plan.body.max_tokens, Some(1024));
}

#[test]
fn send_clamps_max_tokens_to_opencode_go_hard_cap() {
    let p = provider(&config("http://h/v1", None));
    let plan = p.plan(&request("gpt-5.6-luna", 1_000_000, false));
    assert_eq!(plan.body.max_tokens, Some(OPENCODE_GO_MAX_TOKENS_CAP));
}

#[test]
fn opencode_go_responses_send_streaming_clamps_max_tokens_to_opencode_go_hard_cap() {
    let p = provider(&config("http://h/v1", None));
    let plan = p.plan(&request("gpt-5.6-luna", 1_000_000, true));
    assert_eq!(plan.body.max_tokens, Some(OPENCODE_GO_MAX_TOKENS_CAP));
}

#[test]
fn responses_wire_sets_response_format_when_role_requires_json_and_model_is_not_opted_out() {
    let req = json_request(Role::Intake, "gpt-5.6-luna");
    let body = build_responses_body(&req, &req.model, false, false);
    assert_eq!(body.response_format.map(|f| f.kind), Some("json_object"));
}

#[test]
fn responses_wire_omits_response_format_for_role_sketch() {
    let req = json_request(Role::Sketch, "gpt-5.6-luna");
    let body = build_responses_body(&req, &req.model, false, false);
    assert!(
        body.response_format.is_none(),
        "Sketch role must drop response_format"
    );
}

#[test]
fn responses_wire_omits_response_format_for_opted_out_model() {
    let req = json_request(Role::Intake, "kimi-k3");
    let body = build_responses_body(&req, &req.model, false, false);
    assert!(
        body.response_format.is_none(),
        "opted-out model kimi-k3 must drop response_format"
    );
}

#[test]
fn opencode_go_responses_responses_wire_includes_other_fields_unaffected() {
    let req = Request {
        role: Role::Route,
        temperature: Some(Knob { bits: 0.4f32.to_bits() }),
        top_p: Some(Knob { bits: 0.9f32.to_bits() }),
        ..request("gpt-5.6-luna", 256, false)
    };
    let body = build_responses_body(&req, &req.model, false, false);
    assert_eq!(body.model, "gpt-5.6-luna");
    assert_eq!(body.instructions.as_deref(), Some("sys"));
    assert_eq!(body.input, "user");
    assert_eq!(body.max_tokens, Some(256));
    let temp = f32::from_bits(body.temperature.unwrap().bits);
    assert!((temp - 0.4).abs() < 1e-6, "temperature must round-trip");
    let top_p = f32::from_bits(body.top_p.unwrap().bits);
    assert!((top_p - 0.9).abs() < 1e-6, "top_p must round-trip");
    assert!(!body.stream);
    assert_eq!(body.response_format.map(|f| f.kind), Some("json_object"));
}

#[test]
fn opencode_go_responses_send_clamps_max_tokens_to_table_value() {
    let (table, discovered) = probed_table("opencode_go", "gpt-5.6-luna", 10_000);
    let p = provider(&config("http://h/v1", None)).with_max_tokens_table(table);
    let req = request("gpt-5.6-luna", 1_000_000, false);
    assert_eq!(p.plan(&req).body.max_tokens, Some(discovered));
    assert_eq!(p.effective_max_tokens(&req, None), discovered);
}

#[test]
fn opencode_go_responses_refuses_another_kind() {
    let cfg = SectionConfig {
        kind: "minimax".into(),
        ..config("http://h/v1", None)
    };
    match OpenCodeGoResponsesProvider::new(&cfg, SecretString::new("dummy".into())) {
        Err(e) => assert_eq!(
            e,
            Error::InvalidArgs("opencode_go_responses provider got kind 'minimax'".into())
        ),
        Ok(_) => panic!("the section is of another kind"),
    }
}

#[test]
fn opencode_go_responses_profile() {
    let p = provider(&config("http://h/v1", None));
    assert_eq!(p.capabilities(), ProviderCapabilities::OpenCodeGoResponses);
    assert_eq!(p.max_tokens_probe_ceiling(), OPENCODE_GO_MAX_TOKENS_CAP);
    assert_eq!(p.name(), "opencode_go");
}

#[test]
fn only_output_text_counts() {
    let mixed = r#"{"output":[{"content":[{"type":"reasoning","text":"hm"},
        {"type":"output_text"},{"type":"output_text","text":"a"}]},
        {"content":[{"type":"output_text","text":"b"}]}]}"#;
    let p = provider(&config("http://h/v1", None));
    match p.next(1, 3, decoded(mixed)) {
        Step::Done(Ok((_, response))) => {
            assert_eq!(response.text, "ab");
            assert_eq!(response.usage.output_tokens, 0);
        }
        _ => panic!("a reply ends the call"),
    }
}

#[test]
fn streams_join() {
    let head = events(HELLO);
    let count = head.len();
    let mut all = head;
    all.extend(events(
        b"data: {\"output\":[{\"content\":[{\"type\":\"output_text\",\"text\":\"!\"}]}]}\n",
    ));
    assert_eq!(all.len(), count + 1);
    let (text, usage) = accumulate_sse_responses(&all).unwrap();
    assert_eq!(text, "Hello world!");
    assert_eq!((usage.input_tokens, usage.output_tokens), (12, 34));
}
