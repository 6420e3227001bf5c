use std::sync::atomic::{AtomicBool, AtomicU32, AtomicUsize, Ordering};
use std::sync::Arc;

use moagan::capabilities::DEEPSEEK_MAX_TOKENS_CAP;
use moagan::config::{ProviderConfig, SecretString};
use moagan::error::Error;
use moagan::openai_compatible::OpenAICompatibleProvider;
use moagan::probe::{
    body_carries_max_tokens_rejection, body_from_provider_error, cap_from_captures,
    classify_status, detect_max_tokens, detect_max_tokens_with_phase0_cap_callback,
    is_max_tokens_rejection_error, parse_cap_from_error_body, quote_provider_model_keys,
    read_reply, MaxTokensTableFile, ProbeOutcome, ProbeReply, ProbeResult, ProbeTransport,
    ProviderProbeTransport, MAX_AUTOPROBE_CEILING, MAX_PROBE_SHIFT, MIN_AUTOPROBE_FLOOR,
};
use moagan::probe_table::MaxTokensTable;
use moagan::role::Role;
use moagan::sidecar::FileRead;
use moagan::wire::{Response, Usage};

#[derive(Clone)]
struct CappedTransport {
    accept_up_to: Arc<AtomicU32>,
}

impl ProbeTransport for CappedTransport {
    fn probe_send(&self, max_tokens: u32) -> ProbeOutcome {
        if max_tokens <= self.accept_up_to.load(Ordering::SeqCst) {
            ProbeOutcome::Accepted
        } else {
            ProbeOutcome::Rejected
        }
    }
}

fn cap(n: u32) -> CappedTransport {
    CappedTransport {
        accept_up_to: Arc::new(AtomicU32::new(n)),
    }
}

#[test]
fn detect_finds_cap_at_8k() {
    let got = detect_max_tokens(&cap(8192), MIN_AUTOPROBE_FLOOR, MAX_AUTOPROBE_CEILING).unwrap();
    assert_eq!(got, 8192);
}

#[test]
fn detect_finds_cap_at_524k() {
    let got = detect_max_tokens(&cap(524_288), MIN_AUTOPROBE_FLOOR, MAX_AUTOPROBE_CEILING).unwrap();
    assert!((524_000..=524_288).contains(&got), "got {got}");
}

#[test]
fn detect_caps_at_ceiling_when_provider_accepts_everything() {
    let got = detect_max_tokens(&cap(u32::MAX), MIN_AUTOPROBE_FLOOR, MAX_AUTOPROBE_CEILING).unwrap();
    assert_eq!(got, MAX_AUTOPROBE_CEILING);
}

#[test]
fn detect_returns_error_when_provider_rejects_everything() {
    let err = detect_max_tokens(&cap(MIN_AUTOPROBE_FLOOR - 1),
        MIN_AUTOPROBE_FLOOR,
        MAX_AUTOPROBE_CEILING,
    )
    .expect_err("provider rejects everything must error");
    match err {
        Error::Provider { message, .. } => assert!(message.contains("auto-probe failed")),
        other => panic!("expected Error::Provider, got {other:?}"),
    }
}

#[test]
fn floor_is_respected() {
    let got = detect_max_tokens(&cap(1024), 8192, MAX_AUTOPROBE_CEILING).unwrap();
    assert_eq!(got, 8192);
}

#[test]
fn ceiling_is_one_shifted_by_probe_shift() {
    assert_eq!(MAX_AUTOPROBE_CEILING, 1u32 << MAX_PROBE_SHIFT);
    assert_eq!(MAX_AUTOPROBE_CEILING, 1_073_741_824);
}

#[test]
fn floor_is_documented_value() {
    assert_eq!(MIN_AUTOPROBE_FLOOR, 1024);
}

#[test]
fn body_carries_max_tokens_signature() {
    assert!(body_carries_max_tokens_rejection(
        r#"{"type":"error","error":{"message":"max_tokens > 524288"}}"#
    ));
    assert!(body_carries_max_tokens_rejection(
        "max tokens limit reached"
    ));
    assert!(body_carries_max_tokens_rejection(
        "maximum context length exceeded"
    ));
    assert!(!body_carries_max_tokens_rejection(
        r#"{"error":"model not found"}"#
    ));
    assert!(!body_carries_max_tokens_rejection(""));
}

#[test]
fn response_layout_compiles() {
    let r = Response {
        text: String::new(),
        finish_reason: Some("end_turn".into()),
        truncated: false,
        usage: Usage::default(),
    };
    assert_eq!(r.text.len(), 0);
}

struct FlakyTransport {
    accept_up_to: u32,
    calls: Arc<AtomicUsize>,
}

impl ProbeTransport for FlakyTransport {
    fn probe_send(&self, max_tokens: u32) -> ProbeOutcome {
        let call_idx = self.calls.fetch_add(1, Ordering::SeqCst);
        if call_idx == 0 {
            return ProbeOutcome::Indeterminate;
        }
        if max_tokens <= self.accept_up_to {
            ProbeOutcome::Accepted
        } else {
            ProbeOutcome::Rejected
        }
    }
}

#[test]
fn m2_indeterminate_in_phase1_is_retried() {
    let calls = Arc::new(AtomicUsize::new(0));
    let t = FlakyTransport {
        accept_up_to: 524_288,
        calls: calls.clone(),
    };
    let got = detect_max_tokens(&t, MIN_AUTOPROBE_FLOOR, MAX_AUTOPROBE_CEILING).unwrap();
    assert!(
        (524_000..=524_288).contains(&got),
        "retry should recover cap, got {got}"
    );
}

#[test]
fn c2_generic_4xx_is_indeterminate_not_rejected() {
    let r = Response {
        text: r#"{"type":"error","error":{"message":"invalid api key"}}"#.into(),
        finish_reason: None,
        truncated: false,
        usage: Usage::default(),
    };
    assert!(!body_carries_max_tokens_rejection(&r.text));
    let r2 = Response {
        text: r#"{"type":"error","error":{"message":"max_tokens > 524288"}}"#.into(),
        finish_reason: None,
        truncated: false,
        usage: Usage::default(),
    };
    assert!(body_carries_max_tokens_rejection(&r2.text));
}

#[derive(Clone)]
struct Phase0AwareRecordingTransport {
    accept_up_to: u32,
    calls: Arc<AtomicU32>,
    max_sent: Arc<AtomicU32>,
    phase0_seen: Arc<AtomicBool>,
    max_non_phase0_sent: Arc<AtomicU32>,
}

impl ProbeTransport for Phase0AwareRecordingTransport {
    fn probe_send(&self, n: u32) -> ProbeOutcome {
        self.probe_send_with_body(n).outcome
    }

    fn probe_send_with_body(&self, n: u32) -> ProbeResult {
        self.calls.fetch_add(1, Ordering::SeqCst);
        let prev = self.max_sent.load(Ordering::SeqCst);
        if n > prev {
            self.max_sent.store(n, Ordering::SeqCst);
        }
        if n == u32::MAX {
            self.phase0_seen.store(true, Ordering::SeqCst);
            let accepted = self.accept_up_to == u32::MAX;
            ProbeResult {
                outcome: if accepted {
                    ProbeOutcome::Accepted
                } else {
                    ProbeOutcome::Rejected
                },
                body: String::new(),
            }
        } else {
            let prev = self.max_non_phase0_sent.load(Ordering::SeqCst);
            if n > prev {
                self.max_non_phase0_sent.store(n, Ordering::SeqCst);
            }
            if n <= self.accept_up_to {
                ProbeResult {
                    outcome: ProbeOutcome::Accepted,
                    body: String::new(),
                }
            } else {
                ProbeResult {
                    outcome: ProbeOutcome::Rejected,
                    body: String::new(),
                }
            }
        }
    }
}

#[test]
fn pr473_probe_never_sends_value_above_deepseek_ceiling() {
    let calls = Arc::new(AtomicU32::new(0));
    let max_sent = Arc::new(AtomicU32::new(0));
    let phase0_seen = Arc::new(AtomicBool::new(false));
    let max_non_phase0_sent = Arc::new(AtomicU32::new(0));
    let t = Phase0AwareRecordingTransport {
        accept_up_to: 1_048_576,
        calls: calls.clone(),
        max_sent: max_sent.clone(),
        phase0_seen: phase0_seen.clone(),
        max_non_phase0_sent: max_non_phase0_sent.clone(),
    };
    let got = detect_max_tokens(&t, MIN_AUTOPROBE_FLOOR, DEEPSEEK_MAX_TOKENS_CAP).unwrap();
    assert!(
        phase0_seen.load(Ordering::SeqCst),
        "Phase 0 must fire at least once"
    );
    let max_after = max_non_phase0_sent.load(Ordering::SeqCst);
    assert!(
        max_after <= DEEPSEEK_MAX_TOKENS_CAP,
        "Phase 1+ sent a value ({max_after}) above DEEPSEEK_MAX_TOKENS_CAP ({DEEPSEEK_MAX_TOKENS_CAP}) — short-circuit failed"
    );
    assert!(
        got <= DEEPSEEK_MAX_TOKENS_CAP,
        "discovered value ({got}) exceeded DEEPSEEK_MAX_TOKENS_CAP"
    );
    let total_calls = calls.load(Ordering::SeqCst);
    assert!(
        total_calls <= 30 + 32 * 20 + 3,
        "probe ran more than the algorithm budget + Phase 0/0.5, got {total_calls}"
    );
}

#[test]
fn pr473_probe_clamp_applies_even_when_transport_accepts() {
    let calls = Arc::new(AtomicU32::new(0));
    let max_sent = Arc::new(AtomicU32::new(0));
    let phase0_seen = Arc::new(AtomicBool::new(false));
    let max_non_phase0_sent = Arc::new(AtomicU32::new(0));
    let t = Phase0AwareRecordingTransport {
        accept_up_to: u32::MAX,
        calls: calls.clone(),
        max_sent: max_sent.clone(),
        phase0_seen: phase0_seen.clone(),
        max_non_phase0_sent: max_non_phase0_sent.clone(),
    };
    let got = detect_max_tokens(&t, MIN_AUTOPROBE_FLOOR, DEEPSEEK_MAX_TOKENS_CAP).unwrap();
    assert!(got <= DEEPSEEK_MAX_TOKENS_CAP, "got {got}");
    let max_after = max_non_phase0_sent.load(Ordering::SeqCst);
    assert!(
        max_after <= DEEPSEEK_MAX_TOKENS_CAP,
        "Phase 1+ sent {max_after} on the wire — ceiling clamp failed for the algorithm walk"
    );
}

#[test]
fn ceiling_at_or_above_boundary_does_not_constrain_discovery() {
    let got = detect_max_tokens(&cap(8192), MIN_AUTOPROBE_FLOOR, MAX_AUTOPROBE_CEILING).unwrap();
    assert_eq!(
        got, 8192,
        "ceiling above the boundary must not constrain discovery"
    );
}

#[derive(Clone)]
struct MinFloorTransport {
    min_accepted: u32,
    max_accepted: u32,
}

impl ProbeTransport for MinFloorTransport {
    fn probe_send(&self, max_tokens: u32) -> ProbeOutcome {
        if max_tokens < self.min_accepted || max_tokens > self.max_accepted {
            ProbeOutcome::Rejected
        } else {
            ProbeOutcome::Accepted
        }
    }
}

#[test]
fn phase1_first_probe_rejected_advances_upward() {
    let t = MinFloorTransport {
        min_accepted: 1024,
        max_accepted: 4096,
    };
    let got = detect_max_tokens(&t, MIN_AUTOPROBE_FLOOR, MAX_AUTOPROBE_CEILING)
        .expect("algorithm must converge when upstream has a min floor");
    assert!(
        (1024..=4096).contains(&got),
        "discovered value ({got}) must land inside the upstream valid range [1024, 4096]"
    );
}

#[test]
fn quote_provider_model_keys_quotes_bare_keys() {
    let input = "\
schema_version = 1\n\
[providers.kimi-k3.kimi-k3]\n\
max_tokens = 524288\n\
";
    let out = quote_provider_model_keys(input);
    assert!(
        out.contains(r#"[providers."kimi-k3"."kimi-k3"]"#),
        "bare keys must be quoted; got:\n{out}"
    );
}

#[test]
fn quote_provider_model_keys_idempotent_on_already_quoted_keys() {
    let input = r#"[providers."glm-5.1"."glm-5.1"]
max_tokens = 524288
"#;
    let out = quote_provider_model_keys(input);
    assert_eq!(out, input, "already-quoted keys must be left untouched");
}

#[test]
fn quote_provider_model_keys_ignores_non_provider_headers() {
    let input = "\
[operator_caps.minimax]\n\
min = 524288\n\
[providers.kimi-k3.kimi-k3]\n\
max_tokens = 524288\n\
";
    let out = quote_provider_model_keys(input);
    assert!(
        out.contains(r#"[providers."kimi-k3"."kimi-k3"]"#),
        "providers header must be quoted; got:\n{out}"
    );
    assert!(
        out.contains("[operator_caps.minimax]"),
        "non-provider headers must be untouched; got:\n{out}"
    );
}

#[test]
fn parse_cap_anthropic_compat_body_basic() {
    let body = r#"{"type":"error","error":{"message":"model[MiniMax-M2.5] does not support max tokens > 196608 (2013)"}}"#;
    assert_eq!(parse_cap_from_error_body(body), Some(196_608));
}

#[test]
fn parse_cap_anthropic_compat_with_hyphenated_model() {
    let body = r#"{"type":"error","error":{"message":"model[qwen3.8-max] does not support max tokens > 524288"}}"#;
    assert_eq!(parse_cap_from_error_body(body), Some(524_288));
}

#[test]
fn parse_cap_anthropic_compat_with_dots() {
    let body = r#"{"type":"error","error":{"message":"model[mimo-v2.5] does not support max tokens > 131072"}}"#;
    assert_eq!(parse_cap_from_error_body(body), Some(131_072));
}

#[test]
fn parse_cap_openai_compat_basic() {
    let body = r#"{"error":{"param":"max_tokens is too large: 200000. This model supports at most 131072 completion tokens, whereas you provided 200000.","type":"server_error","message":"..."}}"#;
    assert_eq!(parse_cap_from_error_body(body), Some(131_072));
}

#[test]
fn parse_cap_returns_none_for_unrelated_body() {
    assert_eq!(parse_cap_from_error_body("model not found"), None);
    assert_eq!(parse_cap_from_error_body("auth error"), None);
    assert_eq!(parse_cap_from_error_body(""), None);
    assert_eq!(parse_cap_from_error_body("internal server error"), None);
    assert_eq!(
        parse_cap_from_error_body(
            r#"{"error":{"message":"unrelated error","type":"server_error"}}"#
        ),
        None
    );
}

#[test]
fn parse_cap_returns_none_for_non_4xx_simulation() {
    let body = r#"{"content":[{"type":"text","text":"ok"}],"usage":{"input_tokens":1}}"#;
    assert_eq!(parse_cap_from_error_body(body), None);
    let body_with_cap =
        r#"{"error":{"message":"model[X] does not support max tokens > 100000"}}"#;
    assert_eq!(parse_cap_from_error_body(body_with_cap), Some(100_000));
}

#[test]
fn parse_cap_handles_large_values() {
    assert_eq!(
        parse_cap_from_error_body(
            r#"{"error":{"message":"model[qwen3.8-max] does not support max tokens > 131072"}}"#
        ),
        Some(131_072)
    );
    assert_eq!(
        parse_cap_from_error_body(
            r#"{"error":{"message":"model[MiniMax-M2.5] does not support max tokens > 196608"}}"#
        ),
        Some(196_608)
    );
    assert_eq!(
        parse_cap_from_error_body(
            r#"{"error":{"message":"model[MiniMax-M3] does not support max tokens > 524288"}}"#
        ),
        Some(524_288)
    );
}

#[test]
fn parse_cap_rejects_u32_max_sentinel() {
    let body = r#"{"error":{"message":"model[X] does not support max tokens > 4294967295"}}"#;
    assert_eq!(parse_cap_from_error_body(body), None);
    let body2 = r#"{"error":{"param":"max_tokens is too large: 5000000000. This model supports at most 4294967295 completion tokens, whereas you provided 5000000000."}}"#;
    assert_eq!(parse_cap_from_error_body(body2), None);
}

#[test]
fn parse_cap_rejects_zero_or_small() {
    let body1 = r#"{"error":{"message":"model[X] does not support max tokens > 100"}}"#;
    assert_eq!(parse_cap_from_error_body(body1), None);
    let body2 = r#"{"error":{"message":"model[X] does not support max tokens > 0"}}"#;
    assert_eq!(parse_cap_from_error_body(body2), None);
    let body3 = r#"{"error":{"param":"max_tokens is too large: 200. This model supports at most 50 completion tokens, whereas you provided 200."}}"#;
    assert_eq!(parse_cap_from_error_body(body3), None);
}

#[test]
fn parse_cap_anthropic_compat_json_escaped_greater_than() {
    let body = r#"{"type":"error","error":{"type":"invalid_request_error","message":"invalid params, model[MiniMax-M2.5] does not support max tokens \u003e 196608 (2013)"},"request_id":"req-123"}"#;
    assert_eq!(parse_cap_from_error_body(body), Some(196_608));
}

#[test]
fn parse_cap_falls_back_to_raw_text_when_no_message_field() {
    let body = "supports at most 524288 completion tokens";
    assert_eq!(parse_cap_from_error_body(body), Some(524_288));
}

#[test]
fn parse_cap_opencode_go_is_not_less_or_equal() {
    let body = r#"{"error":{"type":"invalid_request_error","message":"Error from provider (Console Go): Upstream request failed: [invalid_parameter] 参数校验失败: \n/max_tokens: 4294967295 is not less or equal to 131072\n"}}"#;
    assert_eq!(parse_cap_from_error_body(body), Some(131_072));
}

#[test]
fn phase_0_short_circuits_when_body_has_cap() {
    let calls = Arc::new(AtomicUsize::new(0));
    let t = BodyMockTransport {
        accept_up_to: u32::MAX,
        body_for_cap: Some(CAP_BODY_MINIMAX_M3.to_owned()),
        calls: calls.clone(),
    };
    let got = detect_max_tokens(&t, MIN_AUTOPROBE_FLOOR, MAX_AUTOPROBE_CEILING).unwrap();
    assert_eq!(got, 524_288, "Phase 0 must discover the parsed cap");
    assert!(
        calls.load(Ordering::SeqCst) <= 3,
        "Phase 0 + Phase 0.5 must fire at most 3 probes, got {}",
        calls.load(Ordering::SeqCst)
    );
}

#[test]
fn phase_0_5_validation_succeeds_when_a_ok_b_rejected() {
    let calls = Arc::new(AtomicUsize::new(0));
    let t = BodyMockTransport {
        accept_up_to: 131_072,
        body_for_cap: Some(CAP_BODY_QWEN.to_owned()),
        calls: calls.clone(),
    };
    let got = detect_max_tokens(&t, MIN_AUTOPROBE_FLOOR, MAX_AUTOPROBE_CEILING).unwrap();
    assert_eq!(got, 131_072);
    assert_eq!(calls.load(Ordering::SeqCst), 3);
}

#[test]
fn phase_0_5_validation_succeeds_when_both_ok() {
    let calls = Arc::new(AtomicUsize::new(0));
    let t = BodyMockTransport {
        accept_up_to: u32::MAX,
        body_for_cap: Some(CAP_BODY_QWEN.to_owned()),
        calls: calls.clone(),
    };
    let got = detect_max_tokens(&t, MIN_AUTOPROBE_FLOOR, MAX_AUTOPROBE_CEILING).unwrap();
    assert_eq!(got, 131_072);
    assert_eq!(calls.load(Ordering::SeqCst), 3);
}

#[test]
fn phase_0_falls_back_to_phase1_when_body_unparseable() {
    let calls = Arc::new(AtomicUsize::new(0));
    let t = BodyMockTransport {
        accept_up_to: 8_192,
        body_for_cap: None,
        calls: calls.clone(),
    };
    let got = detect_max_tokens(&t, MIN_AUTOPROBE_FLOOR, MAX_AUTOPROBE_CEILING).unwrap();
    assert!((8_000..=8_192).contains(&got), "got {got}");
    let n = calls.load(Ordering::SeqCst);
    assert!(
        n > 3,
        "Phase 0 + 0.5 must fall through to Phase 1 (n > 3), got {n}"
    );
}

#[test]
fn phase_0_falls_back_to_phase1_when_a_rejected() {
    let calls = Arc::new(AtomicUsize::new(0));
    let t = BodyMockTransport {
        accept_up_to: 4_096,
        body_for_cap: Some(CAP_BODY_QWEN.to_owned()),
        calls: calls.clone(),
    };
    let got = detect_max_tokens(&t, MIN_AUTOPROBE_FLOOR, MAX_AUTOPROBE_CEILING).unwrap();
    assert!((4_000..=4_096).contains(&got), "got {got}");
    let n = calls.load(Ordering::SeqCst);
    assert!(
        n > 3,
        "Phase 0 + 0.5 must fall through to Phase 1 (n > 3), got {n}"
    );
}

#[test]
fn phase_0_callback_fires_on_short_circuit() {
    let t = BodyMockTransport {
        accept_up_to: u32::MAX,
        body_for_cap: Some(CAP_BODY_QWEN.to_owned()),
        calls: Arc::new(AtomicUsize::new(0)),
    };
    let (got, named) =
        detect_max_tokens_with_phase0_cap_callback(&t, MIN_AUTOPROBE_FLOOR, MAX_AUTOPROBE_CEILING);
    assert!(got.is_ok());
    assert_eq!(named, Some(131_072));
}

#[test]
fn phase_0_callback_does_not_fire_when_falling_back() {
    let t = BodyMockTransport {
        accept_up_to: 8_192,
        body_for_cap: None,
        calls: Arc::new(AtomicUsize::new(0)),
    };
    let (got, named) =
        detect_max_tokens_with_phase0_cap_callback(&t, MIN_AUTOPROBE_FLOOR, MAX_AUTOPROBE_CEILING);
    assert!(got.is_ok());
    assert_eq!(named, None);
}

struct FlakyPhase05Transport {
    b_calls: AtomicUsize,
}

impl ProbeTransport for FlakyPhase05Transport {
    fn probe_send(&self, n: u32) -> ProbeOutcome {
        self.probe_send_with_body(n).outcome
    }

    fn probe_send_with_body(&self, n: u32) -> ProbeResult {
        if n == u32::MAX {
            ProbeResult {
                outcome: ProbeOutcome::Rejected,
                body: CAP_BODY_QWEN.to_owned(),
            }
        } else if n == 131_072 {
            ProbeResult {
                outcome: ProbeOutcome::Accepted,
                body: String::new(),
            }
        } else if n == 131_073 {
            let count = self.b_calls.fetch_add(1, Ordering::SeqCst);
            let _ = count;
            ProbeResult {
                outcome: ProbeOutcome::Indeterminate,
                body: String::new(),
            }
        } else {
            ProbeResult {
                outcome: ProbeOutcome::Accepted,
                body: String::new(),
            }
        }
    }
}

#[test]
fn phase_0_5_retries_b_on_indeterminate() {
    let t = FlakyPhase05Transport {
        b_calls: AtomicUsize::new(0),
    };
    let got = detect_max_tokens(&t, MIN_AUTOPROBE_FLOOR, MAX_AUTOPROBE_CEILING).unwrap();
    assert_eq!(got, 131_072);
}

const CAP_BODY_MINIMAX_M3: &str = r#"{"type":"error","error":{"message":"model[MiniMax-M3] does not support max tokens > 524288 (2013)"}}"#;

const CAP_BODY_QWEN: &str = r#"{"type":"error","error":{"message":"model[qwen3.8-max] does not support max tokens > 131072"}}"#;

#[derive(Clone)]
struct BodyMockTransport {
    accept_up_to: u32,
    body_for_cap: Option<String>,
    calls: Arc<AtomicUsize>,
}

impl ProbeTransport for BodyMockTransport {
    fn probe_send(&self, max_tokens: u32) -> ProbeOutcome {
        self.probe_send_with_body(max_tokens).outcome
    }

    fn probe_send_with_body(&self, max_tokens: u32) -> ProbeResult {
        let call_idx = self.calls.fetch_add(1, Ordering::SeqCst);
        if call_idx == 0 {
            return match &self.body_for_cap {
                Some(body) => ProbeResult {
                    outcome: ProbeOutcome::Rejected,
                    body: body.clone(),
                },
                None => ProbeResult {
                    outcome: ProbeOutcome::Rejected,
                    body: r#"{"error":{"message":"internal error"}}"#.to_owned(),
                },
            };
        }
        if max_tokens <= self.accept_up_to {
            ProbeResult {
                outcome: ProbeOutcome::Accepted,
                body: String::new(),
            }
        } else {
            ProbeResult {
                outcome: ProbeOutcome::Rejected,
                body: r#"{"type":"error","error":{"message":"max_tokens > cap"}}"#.to_owned(),
            }
        }
    }
}

const PATH: &str = "/home/u/max_tokens_auto.toml";

#[test]
fn load_missing_file_returns_empty_table() {
    let t = MaxTokensTableFile::load("/nonexistent/max_tokens_auto.toml", FileRead::Missing)
        .unwrap_or_else(|_| panic!("a missing file is empty"));
    assert!(t.providers.is_empty());
    assert_eq!(t.schema_version, 1);
}

#[test]
fn load_rejects_future_schema_version() {
    let mut file = MaxTokensTableFile::new_empty();
    file.schema_version = 999;
    match MaxTokensTableFile::load(PATH, FileRead::Parsed(file)) {
        Err(Error::Provider { message, .. }) => {
            assert!(message.contains("schema_version"));
            assert_eq!(
                message,
                "max_tokens_auto.toml at /home/u/max_tokens_auto.toml has schema_version=999, \
                 this binary only knows up to 1"
            );
        }
        _ => panic!("future schema must error"),
    }
}

#[test]
fn load_rejects_malformed_toml() {
    match MaxTokensTableFile::load(PATH, FileRead::Malformed("bad".to_owned())) {
        Err(Error::Provider { message, .. }) => assert!(message.contains("malformed")),
        _ => panic!("malformed must error"),
    }
}

#[test]
fn unreadable_table_file_is_an_io_error() {
    match MaxTokensTableFile::load(PATH, FileRead::Unreadable("denied".to_owned())) {
        Err(Error::Io(m)) => assert_eq!(m, "denied"),
        _ => panic!("unreadable must error"),
    }
}

#[test]
fn m7_probe_tasks_started_field_exists() {
    let t = MaxTokensTable::from_path(PATH, MIN_AUTOPROBE_FLOOR, false, FileRead::Missing)
        .unwrap_or_else(|_| panic!("a missing file is an empty table"));
    assert_eq!(t.probe_tasks_started(), 0);
}

#[test]
fn status_alone_accepts_all_but_errors() {
    for status in [100u16, 199, 200, 204, 302, 399] {
        assert_eq!(classify_status(status, b""), ProbeOutcome::Accepted);
    }
    for status in [400u16, 404, 500, 599] {
        assert_eq!(classify_status(status, b""), ProbeOutcome::Rejected);
    }
}

fn provider_error(message: &str, http_status: Option<u16>) -> Error {
    Error::Provider { message: message.to_owned(), http_status }
}

#[test]
fn error_messages_quote_the_body() {
    let e = provider_error("http 400: {\"a\": \"b: c\"}", Some(400));
    assert_eq!(body_from_provider_error(&e), "{\"a\": \"b: c\"}");
    let e = provider_error("openai-compat: HTTP 400 after 1 attempts: too: long", Some(400));
    assert_eq!(body_from_provider_error(&e), "too: long");
    let e = provider_error("network: refused", None);
    assert_eq!(body_from_provider_error(&e), "");
    let e = Error::Timeout { message: "http 504: x".to_owned(), http_status: Some(504) };
    assert_eq!(body_from_provider_error(&e), "");
}

#[test]
fn only_client_errors_reject_the_value() {
    assert!(is_max_tokens_rejection_error(&provider_error("http 400: max_tokens > 5", Some(400))));
    assert!(!is_max_tokens_rejection_error(&provider_error("http 500: max_tokens", Some(500))));
    assert!(!is_max_tokens_rejection_error(&provider_error("max_tokens", None)));
    assert!(!is_max_tokens_rejection_error(&provider_error("http 404: no model", Some(404))));
}

#[test]
fn replies_to_probes_are_read() {
    let read = |status: u16, text: &str| {
        read_reply(ProbeReply::Answered { status, text: text.to_owned() })
    };
    assert_eq!(read(200, "ok").outcome, ProbeOutcome::Accepted);
    assert_eq!(read(400, "max_tokens too large").outcome, ProbeOutcome::Rejected);
    assert_eq!(read(401, "invalid api key").outcome, ProbeOutcome::Indeterminate);
    assert_eq!(read(500, "max_tokens").outcome, ProbeOutcome::Indeterminate);
    assert_eq!(read(101, "").outcome, ProbeOutcome::Accepted);
    assert_eq!(read(200, "MAX_TOKENS is too large").outcome, ProbeOutcome::Indeterminate);
    assert_eq!(read(200, "ok").body, "ok");
    assert_eq!(read(401, "invalid api key").body, "");
    assert_eq!(read(500, "max_tokens").body, "");
    assert_eq!(read(200, "MAX_TOKENS is too large").body, "");
    let down = read_reply(ProbeReply::Failed(provider_error("http 503: busy", Some(503))));
    assert_eq!(down.outcome, ProbeOutcome::Indeterminate);
    assert_eq!(down.body, "");
    assert_eq!(read(400, "max_tokens too large").body, "max_tokens too large");
    let failed = read_reply(ProbeReply::Failed(provider_error(
        "http 400: Max Tokens limit",
        Some(400),
    )));
    assert_eq!(failed.outcome, ProbeOutcome::Rejected);
    assert_eq!(failed.body, "Max Tokens limit");
    let late = read_reply(ProbeReply::TimedOut);
    assert_eq!(late.outcome, ProbeOutcome::Indeterminate);
    assert_eq!(late.body, "");
}

#[test]
fn probes_go_to_the_providers_model() {
    let spec = ProviderConfig {
        endpoint: None,
        models: vec![moagan::config::ModelConfig {
            id: "kimi-k3".into(),
            endpoint: None,
            max_tokens: None,
        }],
        omit_max_tokens: false,
    };
    let p = OpenAICompatibleProvider::new(&spec, SecretString::new("dummy".into()))
        .unwrap_or_else(|_| panic!("the provider is set up"));
    let t = ProviderProbeTransport::new(p).unwrap_or_else(|_| panic!("the transport is set up"));
    let req = t.request(4096);
    assert_eq!(req.model, "kimi-k3");
    assert_eq!(req.max_tokens, Some(4096));
    assert_eq!(req.role, Role::Sketch);
    assert_eq!(req.user, "Reply with the single character: 1");
    assert_eq!(t.provider().name, "kimi-k3");
}

#[test]
fn captures_are_read_as_caps() {
    assert_eq!(cap_from_captures(Some("131072".into()), None), Some(131_072));
    assert_eq!(cap_from_captures(None, Some("131072".into())), Some(131_072));
    assert_eq!(cap_from_captures(None, None), None);
    assert_eq!(cap_from_captures(Some("1023".into()), None), None);
    assert_eq!(cap_from_captures(Some("4294967295".into()), None), None);
    assert_eq!(cap_from_captures(Some("1024".into()), None), Some(1024));
}

#[test]
fn plain_transports_have_no_body() {
    let r = cap(10).probe_send_with_body(11);
    assert_eq!(r.outcome, ProbeOutcome::Rejected);
    assert_eq!(r.body, "");
}

struct Silent;

impl ProbeTransport for Silent {
    fn probe_send(&self, _max_tokens: u32) -> ProbeOutcome {
        ProbeOutcome::Indeterminate
    }
}

#[test]
fn silence_discovers_nothing() {
    assert!(detect_max_tokens(&Silent, MIN_AUTOPROBE_FLOOR, MAX_AUTOPROBE_CEILING).is_err());
}

#[test]
fn discovery_converges_on_every_boundary() {
    for boundary in [1024u32, 1025, 1500, 4095, 4096, 4097, 65_535, 99_999, 1_000_000] {
        let got = detect_max_tokens(&cap(boundary), MIN_AUTOPROBE_FLOOR, MAX_AUTOPROBE_CEILING);
        assert_eq!(got.ok(), Some(boundary));
    }
}

#[test]
fn powers_of_two_are_found_exactly() {
    for shift in 10..=30 {
        let power = 1u32 << shift;
        let found = detect_max_tokens(&cap(power), MIN_AUTOPROBE_FLOOR, MAX_AUTOPROBE_CEILING);
        assert_eq!(found.unwrap(), power);
        let found = detect_max_tokens(&cap(u32::MAX), MIN_AUTOPROBE_FLOOR, power);
        assert_eq!(found.unwrap(), power);
    }
}

#[test]
fn discovered_ceilings_are_useful() {
    for ceiling in [MAX_AUTOPROBE_CEILING, MAX_AUTOPROBE_CEILING + 1, u32::MAX] {
        let found = detect_max_tokens(&cap(u32::MAX), MIN_AUTOPROBE_FLOOR, ceiling);
        assert_eq!(found.unwrap(), MAX_AUTOPROBE_CEILING);
    }
    let found = detect_max_tokens(&cap(8192), u32::MAX, u32::MAX);
    assert_eq!(found.unwrap(), MAX_AUTOPROBE_CEILING);
}

#[derive(Default)]
struct Split {
    plain: std::cell::RefCell<Vec<u32>>,
    with_body: std::cell::RefCell<Vec<u32>>,
}

impl ProbeTransport for Split {
    fn probe_send(&self, n: u32) -> ProbeOutcome {
        self.plain.borrow_mut().push(n);
        if n <= 131_072 {
            ProbeOutcome::Accepted
        } else {
            ProbeOutcome::Indeterminate
        }
    }

    fn probe_send_with_body(&self, n: u32) -> ProbeResult {
        self.with_body.borrow_mut().push(n);
        ProbeResult {
            outcome: ProbeOutcome::Rejected,
            body: CAP_BODY_QWEN.to_owned(),
        }
    }
}

#[test]
fn the_probe_above_a_named_ceiling_is_sent_again_with_its_body() {
    let t = Split::default();
    let (got, named) = detect_max_tokens_with_phase0_cap_callback(
        &t,
        MIN_AUTOPROBE_FLOOR,
        MAX_AUTOPROBE_CEILING,
    );
    assert_eq!(got.unwrap(), 131_072);
    assert_eq!(named, Some(131_072));
    assert_eq!(*t.plain.borrow(), vec![131_072, 131_073]);
    assert_eq!(*t.with_body.borrow(), vec![u32::MAX, 131_073]);
}
