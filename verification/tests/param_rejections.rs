use moagan::error::Error;
use moagan::param_rejections::{
    audit_unknown_fields, collect_names, detect_all_rejections, detect_rejection,
    param_name_list, parse_error_param_start, run_message_patterns, select_rejections, unknown_fields,
    ParamRejectionsFile, ParamRejectionsTable, PARAM_REJECTIONS_SCHEMA_VERSION,
};
use moagan::sidecar::FileRead;

const PATH: &str = "/home/u/param_rejections.toml";

fn body_json(s: &str) -> String {
    let mut error = serde_json::Map::new();
    error.insert("message".to_owned(), serde_json::Value::from(s));
    let mut body = serde_json::Map::new();
    body.insert("error".to_owned(), serde_json::Value::Object(error));
    serde_json::Value::Object(body).to_string()
}

fn strings(list: &[&str]) -> Vec<String> {
    list.iter().map(|s| s.to_string()).collect()
}

#[test]
fn file_new_empty_has_current_schema() {
    let f = ParamRejectionsFile::new_empty();
    assert_eq!(f.schema_version, PARAM_REJECTIONS_SCHEMA_VERSION);
    assert!(f.providers.is_empty());
}

#[test]
fn file_load_missing_returns_empty() {
    let f = ParamRejectionsFile::load("/nonexistent/param_rejections.toml", FileRead::Missing)
        .unwrap();
    assert!(f.providers.is_empty());
    assert_eq!(f.schema_version, 1);
}

#[test]
fn file_load_rejects_future_schema() {
    let mut file = ParamRejectionsFile::new_empty();
    file.schema_version = 999;
    match ParamRejectionsFile::load(PATH, FileRead::Parsed(file)) {
        Err(Error::Provider { message, .. }) => {
            assert!(message.contains("schema_version"));
            assert_eq!(
                message,
                "param_rejections.toml at /home/u/param_rejections.toml has schema_version=999, \
                 this binary only knows up to 1"
            );
        }
        _ => panic!("a future schema must be refused"),
    }
}

#[test]
fn file_load_rejects_malformed_toml() {
    match ParamRejectionsFile::load(PATH, FileRead::Malformed("expected a value".to_owned())) {
        Err(Error::Provider { message, .. }) => {
            assert!(message.contains("malformed"));
            assert_eq!(
                message,
                "param_rejections.toml at /home/u/param_rejections.toml is malformed: \
                 expected a value"
            );
        }
        _ => panic!("a malformed file must be refused"),
    }
}

#[test]
fn unreadable_rejections_file_is_an_io_error() {
    match ParamRejectionsFile::load(PATH, FileRead::Unreadable("denied".to_owned())) {
        Err(Error::Io(m)) => assert_eq!(m, "denied"),
        _ => panic!("an unreadable file must be refused"),
    }
}

#[test]
fn table_empty_has_no_rejections() {
    let t = ParamRejectionsTable::empty();
    assert!(!t.should_omit("opencode", "gpt-5.6-luna", "temperature"));
    assert!(t.is_empty());
}

#[test]
fn table_record_marks_rejection() {
    let mut t = ParamRejectionsTable::empty();
    assert_eq!(t.record("opencode", "gpt-5.6-luna", "temperature"), None);
    assert!(t.should_omit("opencode", "gpt-5.6-luna", "temperature"));
    assert!(!t.should_omit("opencode", "gpt-5.6-luna", "top_p"));
}

#[test]
fn table_record_is_idempotent_per_param() {
    let mut t = ParamRejectionsTable::empty();
    t.record("p", "m", "temperature");
    t.record("p", "m", "temperature");
    let snap = t.snapshot();
    let set = snap.providers.get("p").unwrap().get("m").unwrap();
    assert_eq!(set.len(), 1);
    assert!(set.contains_key("temperature"));
}

#[test]
fn table_record_persists_round_trip() {
    let mut t = ParamRejectionsTable::from_path(PATH, FileRead::Missing).unwrap_or_else(|_| {
        panic!("a missing file is an empty table")
    });
    let to_write = t.record("opencode", "gpt-5.6-luna", "temperature");
    assert_eq!(to_write.as_deref(), Some(PATH));
    assert_eq!(t.record("opencode", "gpt-5.6-luna", "temperature"), None);
    let written = t.persist_to(ParamRejectionsFile::new_empty());
    let back = ParamRejectionsTable::from_path(PATH, FileRead::Parsed(written))
        .unwrap_or_else(|_| panic!("what was written is read back"));
    assert!(back.should_omit("opencode", "gpt-5.6-luna", "temperature"));
    assert_eq!(back.len(), 1);
}

#[test]
fn table_persist_merges_with_on_disk() {
    let mut t1 = ParamRejectionsTable::empty();
    t1.record("p1", "m1", "top_p");
    let disk = t1.persist_to(ParamRejectionsFile::new_empty());
    let mut t2 = ParamRejectionsTable::empty();
    t2.record("p2", "m2", "temperature");
    let merged = t2.persist_to(disk);
    assert!(merged.contains("p1", "m1", "top_p"));
    assert!(merged.contains("p2", "m2", "temperature"));
    assert!(!merged.contains("p1", "m1", "temperature"));
}

#[test]
fn counts_are_of_models() {
    let mut t = ParamRejectionsTable::empty();
    t.record("p", "m", "temperature");
    t.record("p", "m", "top_p");
    t.record("p", "n", "top_p");
    t.record("q", "m", "top_p");
    assert_eq!(t.len(), 3);
    assert!(!t.is_empty());
}

#[test]
fn messages_are_searched_for_names() {
    assert_eq!(
        run_message_patterns("Unknown parameters: 'top_p', 'max_tokens', 'top_p', 'x'"),
        strings(&["top_p", "max_tokens", "x"])
    );
    assert!(run_message_patterns("nothing to see").is_empty());
}

#[test]
fn names_are_collected_once_in_order() {
    let quoted = Some(vec![Some("b".to_owned()), None, Some("a".to_owned())]);
    let unquoted = Some(vec![Some("a".to_owned()), Some("c".to_owned()), None]);
    let found = vec![quoted, None, unquoted, Some(vec![])];
    assert_eq!(collect_names(found), strings(&["b", "a", "c"]));
    assert!(collect_names(vec![None, Some(vec![None])]).is_empty());
}

#[test]
fn rejections_are_known_params_in_order() {
    assert_eq!(
        select_rejections(
            400,
            Some("top_p must be small".to_owned()),
            strings(&["user", "temperature", "max_tokens"]),
        ),
        strings(&["max_tokens", "temperature", "top_p"])
    );
    assert!(select_rejections(500, Some("top_p".to_owned()), strings(&["top_p"])).is_empty());
    assert!(select_rejections(399, Some("top_p".to_owned()), strings(&["top_p"])).is_empty());
}

#[test]
fn unknown_fields_are_told() {
    assert_eq!(
        unknown_fields(&strings(&["model", "frobnicate", "messages", "zap"])),
        strings(&["frobnicate", "zap"])
    );
    assert_eq!(
        audit_unknown_fields(r#"{"model": "m", "frobnicate": 1}"#),
        strings(&["frobnicate"])
    );
}

#[test]
fn detect_pattern_1_unknown_parameter_anthropic() {
    let body = r#"{"error":{"type":"unknown_parameter","message":"[unknown_parameter] Unknown parameter: 'max_tokens'"}}"#;
    assert_eq!(detect_rejection(400, body).as_deref(), Some("max_tokens"));
}

#[test]
fn detect_pattern_1_unknown_parameter_lowercase() {
    let body = body_json("unknown parameter: 'temperature'");
    assert_eq!(detect_rejection(400, &body).as_deref(), Some("temperature"));
}

#[test]
fn detect_pattern_2_unsupported_parameter_responses() {
    let body = body_json(
        "[invalid_request_error] Unsupported parameter: 'top_p' is not supported with this model.",
    );
    assert_eq!(detect_rejection(400, &body).as_deref(), Some("top_p"));
}

#[test]
fn detect_pattern_3_minimax_anthropic() {
    let body = body_json("invalid params, param 'top_p' should be in (0,1] (2013)");
    assert_eq!(detect_rejection(400, &body).as_deref(), Some("top_p"));
}

#[test]
fn detect_pattern_4b_structured_error_param() {
    let body = r#"{"error":{"param":"temperature must be within [0, 1.5]","type":"server_error","message":"..."}}"#;
    assert_eq!(detect_rejection(400, body).as_deref(), Some("temperature"));
}

#[test]
fn detect_pattern_4b_structured_error_param_too_large() {
    let body = r#"{"error":{"param":"max_tokens is too large: 999999. This model supports at most 131072 completion tokens, whereas you provided 999999.","type":"server_error","message":"..."}}"#;
    assert_eq!(detect_rejection(400, body).as_deref(), Some("max_tokens"));
}

#[test]
fn detect_pattern_5_kimi_k3_invalid() {
    let body = body_json("invalid temperature: only 1 is allowed for this model");
    assert_eq!(detect_rejection(400, &body).as_deref(), Some("temperature"));
}

#[test]
fn detect_pattern_6_deepseek_invalid_value() {
    let body = body_json("Invalid temperature value, the valid range of temperature is [0, 2]");
    assert_eq!(detect_rejection(400, &body).as_deref(), Some("temperature"));
}

#[test]
fn detect_pattern_7_deepseek_deserialization() {
    let body = body_json(
        "Failed to deserialize the JSON body into the target type: max_tokens: invalid value: integer `-1`",
    );
    assert_eq!(detect_rejection(400, &body).as_deref(), Some("max_tokens"));
}

#[test]
fn detect_returns_none_for_2xx() {
    let body = r#"{"error":{"param":"temperature","message":"..."}}"#;
    assert_eq!(detect_rejection(200, body), None);
}

#[test]
fn detect_returns_none_for_5xx() {
    let body = body_json("internal server error");
    assert_eq!(detect_rejection(500, &body), None);
}

#[test]
fn detect_returns_none_for_unrelated_4xx() {
    let body = r#"{"error":"model not found"}"#;
    assert_eq!(detect_rejection(404, body), None);
}

#[test]
fn detect_returns_none_for_malformed_body() {
    assert_eq!(detect_rejection(400, "not json"), None);
}

#[test]
fn detect_returns_none_when_message_field_missing() {
    let body = r#"{"error":{"type":"invalid_request_error"}}"#;
    assert_eq!(detect_rejection(400, body), None);
}


#[test]
fn parse_error_param_extracts_simple_identifier() {
    assert_eq!(
        parse_error_param_start("temperature must be within [0, 1.5]"),
        Some("temperature".to_owned())
    );
}

#[test]
fn parse_error_param_handles_underscore_start() {
    assert_eq!(
        parse_error_param_start("_internal_field is too large"),
        Some("_internal_field".to_owned())
    );
}

#[test]
fn parse_error_param_returns_none_for_empty() {
    assert_eq!(parse_error_param_start(""), None);
}

#[test]
fn parse_error_param_returns_none_for_digit_start() {
    assert_eq!(parse_error_param_start("1abc is too large"), None);
}


#[test]
fn audit_emits_no_warn_for_known_fields() {
    let body = r#"{"model": "MiniMax-M3", "messages": [], "temperature": 0.6, "max_tokens": 1024}"#;
    assert!(audit_unknown_fields(body).is_empty());
}

#[test]
fn audit_handles_non_object_body_without_panic() {
    assert!(audit_unknown_fields(r#"["a", "b"]"#).is_empty());
}


#[test]
fn detect_all_returns_three_names_from_unknown_parameters_list() {
    let body = body_json("Unknown parameters: 'temperature', 'max_tokens', 'top_p'");
    let detected = detect_all_rejections(400, &body);
    assert!(
        detected.iter().any(|s| s == "temperature"),
        "temperature must be detected; got {detected:?}"
    );
    assert!(
        detected.iter().any(|s| s == "max_tokens"),
        "max_tokens must be detected; got {detected:?}"
    );
    assert!(
        detected.iter().any(|s| s == "top_p"),
        "top_p must be detected; got {detected:?}"
    );
}

#[test]
fn detect_all_dedupes_repeated_names() {
    let body = body_json("Unknown parameters: 'temperature', 'temperature'");
    let detected = detect_all_rejections(400, &body);
    let temp_count = detected.iter().filter(|s| *s == "temperature").count();
    assert_eq!(
        temp_count, 1,
        "temperature must appear once; got {detected:?}"
    );
}

#[test]
fn detect_all_returns_empty_for_unrelated_4xx() {
    assert_eq!(
        detect_all_rejections(404, r#"{"error":"model not found"}"#).len(),
        0
    );
    assert_eq!(
        detect_all_rejections(401, r#"{"error":"invalid api key"}"#).len(),
        0
    );
    assert_eq!(detect_all_rejections(400, "not json").len(), 0);
    assert_eq!(
        detect_all_rejections(200, &body_json("Unknown parameters: 'temperature'")).len(),
        0
    );
    assert_eq!(
        detect_all_rejections(500, &body_json("internal server error")).len(),
        0
    );
}

#[test]
fn detect_rejection_wrapper_returns_first_from_detect_all() {
    let body = body_json("Unknown parameters: 'temperature', 'max_tokens', 'top_p'");
    let first = detect_rejection(400, &body);
    let all = detect_all_rejections(400, &body);
    assert_eq!(
        first.as_deref(),
        all.first().map(String::as_str),
        "detect_rejection must return detect_all_rejections's first element; first={first:?}, all={all:?}"
    );
    assert!(first.is_some(), "cascade body must yield at least one name");
}

#[test]
fn detect_rejection_ignores_param_field_not_in_param_names() {
    let body = r#"{"error":{"param":"input must be a non-empty array","type":"invalid_request_error","message":"..."}}"#;
    assert_eq!(detect_rejection(400, body), None);
    let all = detect_all_rejections(400, body);
    assert!(
        all.is_empty(),
        "non-whitelisted error.param must not leak into the cascade; got {all:?}"
    );
}

#[test]
fn detect_rejection_accepts_param_field_in_param_names() {
    let body = r#"{"error":{"param":"max_tokens is too large: 999999","type":"server_error","message":"..."}}"#;
    assert_eq!(detect_rejection(400, body).as_deref(), Some("max_tokens"));
}

#[test]
fn detect_rejection_falls_back_to_message_when_param_ignored() {
    let body = r#"{"error":{"param":"input must be a non-empty array","message":"Failed to deserialize: temperature: invalid value","type":"invalid_request_error"}}"#;
    assert_eq!(
        detect_rejection(400, body).as_deref(),
        Some("temperature"),
        "message branch must win when error.param is non-whitelisted"
    );
}

#[test]
fn detect_rejection_handles_model_param_field_correctly() {
    let body = r#"{"error":{"param":"model not found","type":"invalid_request_error","message":"..."}}"#;
    assert_eq!(
        detect_rejection(400, body),
        None,
        "non-whitelisted error.param must be ignored"
    );
}

#[test]
fn every_mention_is_rejected() {
    let all = |message: &str| detect_all_rejections(400, &body_json(message));
    let both = strings(&["temperature", "top_p"]);
    assert_eq!(all("invalid temperature: too high; invalid top_p: too low"), both);
    assert_eq!(all("temperature: invalid value 9, top_p: invalid value 3"), both);
    assert_eq!(all("unsupported parameter: top_p; unknown parameter: temperature"), both);
    assert_eq!(
        all("Invalid top_p value, the valid range is small. \
             Invalid temperature value, the valid range is [0, 2]"),
        both
    );
    assert_eq!(
        all("top_p is too large: 3, temperature is too small: -1, max_tokens is too large: 9"),
        strings(&["max_tokens", "temperature", "top_p"])
    );
    assert_eq!(
        run_message_patterns("invalid top_p: bad; invalid seed: bad; invalid top_p: worse"),
        strings(&["top_p", "seed"])
    );
}

#[test]
fn the_list_keeps_its_order_and_rejections_are_sorted() {
    assert_eq!(
        param_name_list(),
        strings(&["temperature", "top_p", "max_tokens"])
    );
    for names in [
        ["top_p", "temperature", "max_tokens"],
        ["max_tokens", "top_p", "temperature"],
    ] {
        assert_eq!(
            select_rejections(422, None, strings(&names)),
            strings(&["max_tokens", "temperature", "top_p"])
        );
    }
    assert_eq!(
        select_rejections(400, None, strings(&["top_p", "max_tokens"])),
        strings(&["max_tokens", "top_p"])
    );
}
