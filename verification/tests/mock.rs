use moagan::error::Error;
use moagan::fixtures::{is_reply_file, reading_order, FixturePath};
use moagan::mock::{role_for_subdir, CannedFile, MockProvider, MockResponse};
use moagan::role::Role;
use moagan::wire::{Request, Usage};

fn req_with_role(role: Role) -> Request {
    Request {
        role,
        model: "m".into(),
        system: "s".into(),
        user: "u".into(),
        max_tokens: Some(16),
        temperature: None,
        top_p: None,
        response_schema: None,
        stream: false,
        extra_messages: vec![],
        attachments: vec![],
        tool_choice: None,
    }
}

fn text_of(p: &mut MockProvider, role: Role) -> String {
    let (status, r) = p.send(&req_with_role(role), 7).unwrap();
    assert_eq!(status, 200);
    r.text
}

fn canned(dir: Option<&str>, text: &str) -> CannedFile {
    CannedFile {
        dir: dir.map(|d| d.to_owned()),
        response: MockResponse::from_parts(text.to_owned(), None, None, None),
    }
}

#[test]
fn serves_responses_in_order() {
    let mut p =
        MockProvider::new(vec![MockResponse::plain("first"), MockResponse::plain("second")]);
    let (status1, r1) = p.send(&req_with_role(Role::Intake), 1).unwrap();
    let (status2, r2) = p.send(&req_with_role(Role::Intake), 2).unwrap();
    assert_eq!(status1, 200);
    assert_eq!(status2, 200);
    assert_eq!(r1.text, "first");
    assert_eq!(r2.text, "second");
}

#[test]
fn cycle_returns_error_when_disabled() {
    let mut p = MockProvider::new(vec![MockResponse::plain("only")]);
    p.set_cycle(false);
    let _r1 = p.send(&req_with_role(Role::Intake), 1).unwrap();
    assert!(p.send(&req_with_role(Role::Intake), 2).is_err());
    assert_eq!(p.send(&req_with_role(Role::Intake), 3), Err(Error::MockExhausted));
    assert_eq!(p.calls().len(), 1);
    assert_eq!(p.remaining(), 0);
}

#[test]
fn from_dir_loads_responses() {
    let p = MockProvider::from_files(vec![
        CannedFile {
            dir: None,
            response: MockResponse::from_parts("intake-ok".into(), None, None, None),
        },
        CannedFile {
            dir: None,
            response: MockResponse::from_parts("propose-ok".into(), Some(10), Some(5), None),
        },
    ]);
    assert_eq!(p.remaining(), 2);
}

#[test]
fn truncated_response_sets_flag() {
    let r = MockResponse::truncated("partial").into_response();
    assert_eq!(r.finish_reason.as_deref(), Some("max_tokens"));
    assert!(r.truncated);
}

#[test]
fn plain_response_is_not_truncated() {
    let r = MockResponse::plain("hi").into_response();
    assert!(!r.truncated);
}

#[test]
fn role_aware_dispatch_serves_only_matching_fixtures() {
    let mut p = MockProvider::from_files(vec![
        canned(Some("propose"), "PROPOSE-1"),
        canned(Some("sketch"), "SKETCH-1"),
    ]);
    assert_eq!(text_of(&mut p, Role::Propose), "PROPOSE-1");
    assert_eq!(text_of(&mut p, Role::Propose), "PROPOSE-1");
    assert_eq!(text_of(&mut p, Role::Sketch), "SKETCH-1");
}

#[test]
fn role_aware_dispatch_falls_back_to_global_when_role_missing() {
    let mut p = MockProvider::from_files(vec![
        canned(None, "global-1"),
        canned(Some("unheard_of"), "global-2"),
    ]);
    assert_eq!(text_of(&mut p, Role::Propose), "global-1");
    assert_eq!(text_of(&mut p, Role::Propose), "global-2");
}

#[test]
fn role_aware_dispatch_cycles_within_subpool() {
    let mut p = MockProvider::from_files(vec![canned(Some("propose"), "PROPOSE-ONLY")]);
    for _ in 0..3 {
        assert_eq!(text_of(&mut p, Role::Propose), "PROPOSE-ONLY");
    }
    assert_eq!(p.send(&req_with_role(Role::Sketch), 1), Err(Error::MockExhausted));
}

#[test]
fn pools_are_used_up_apart_from_each_other() {
    let mut p = MockProvider::from_files(vec![
        canned(None, "g1"),
        canned(None, "g2"),
        canned(Some("judge"), "j1"),
        canned(Some("judge"), "j2"),
    ]);
    p.set_cycle(false);
    assert_eq!(text_of(&mut p, Role::Judge), "j1");
    assert_eq!(text_of(&mut p, Role::Intake), "g1");
    assert_eq!(text_of(&mut p, Role::Judge), "j2");
    assert_eq!(p.send(&req_with_role(Role::Judge), 1), Err(Error::MockExhausted));
    assert_eq!(p.remaining(), 1);
    assert_eq!(text_of(&mut p, Role::Route), "g2");
    assert_eq!(p.remaining(), 0);
}

#[test]
fn replies_start_over_behind_the_last() {
    let mut p = MockProvider::empty();
    assert_eq!(p.send(&req_with_role(Role::Intake), 1), Err(Error::MockExhausted));
    p.push(MockResponse::plain("a"));
    p.push(MockResponse::truncated("b"));
    for expected in ["a", "b", "a", "b", "a"] {
        assert_eq!(text_of(&mut p, Role::Intake), expected);
    }
}

#[test]
fn calls_are_recorded() {
    let mut p = MockProvider::new(vec![MockResponse::with_usage("a", 3, 4)]);
    assert_eq!((p.name(), p.model(), p.endpoint()), ("mock", "mock-model", "mock://local"));
    p.set_name("n");
    p.set_model("m");
    p.set_endpoint("e");
    assert_eq!((p.name(), p.model(), p.endpoint()), ("n", "m", "e"));
    let (_, r) = p.send(&req_with_role(Role::Intake), 42).unwrap();
    assert_eq!(r.usage.input_tokens, 3);
    assert_eq!(r.usage.output_tokens, 4);
    let calls = p.calls();
    assert_eq!(calls.len(), 1);
    assert_eq!(calls[0].provider, "n");
    assert_eq!(calls[0].model, "m");
    assert_eq!(calls[0].cache_key, "");
    assert_eq!((calls[0].started_unix, calls[0].ended_unix), (42, 42));
    assert_eq!(calls[0].http_status, Some(200));
    assert_eq!(calls[0].usage, Usage::default());
    assert!(!calls[0].cache_hit);
    assert_eq!(calls[0].error, None);
}

#[test]
fn default_provider_has_nothing() {
    let mut p = MockProvider::default();
    assert_eq!((p.name(), p.model(), p.endpoint()), ("", "", ""));
    assert_eq!(p.send(&req_with_role(Role::Intake), 1), Err(Error::MockExhausted));
}

#[test]
fn fields_of_a_file_make_a_reply() {
    let r = MockResponse::from_parts("t".into(), Some(10), None, Some("max_tokens".into()));
    assert_eq!(r.usage.input_tokens, 10);
    assert_eq!(r.usage.output_tokens, 0);
    assert!(r.into_response().truncated);
}

#[test]
fn directories_are_named_after_roles() {
    assert_eq!(role_for_subdir("intake"), Some(Role::Intake));
    assert_eq!(role_for_subdir("tiebreaker"), Some(Role::TiefighterCritic));
    assert_eq!(role_for_subdir("hostile_prompt"), Some(Role::HostilePromptDetector));
    assert_eq!(role_for_subdir("json_repair_v2"), Some(Role::JsonRepairV2));
    assert_eq!(role_for_subdir("continuation"), Some(Role::Continuation));
    assert_eq!(role_for_subdir("Intake"), None);
    assert_eq!(role_for_subdir(""), None);
}

fn path(dir: Option<&str>, name: &str) -> FixturePath {
    FixturePath { dir: dir.map(|d| d.to_owned()), name: name.to_owned() }
}

#[test]
fn files_are_read_in_the_order_of_their_paths() {
    let listed = vec![
        path(Some("sketch"), "02.json"),
        path(None, "zz.json"),
        path(Some("sketch"), "01.json"),
        path(None, "readme.md"),
        path(Some("propose"), "99.json"),
        path(None, "a.json"),
    ];
    let expected = vec![
        path(None, "a.json"),
        path(Some("propose"), "99.json"),
        path(Some("sketch"), "01.json"),
        path(Some("sketch"), "02.json"),
        path(None, "zz.json"),
    ];
    assert_eq!(reading_order(&listed), expected);
    let mut backwards = listed.clone();
    backwards.reverse();
    assert_eq!(reading_order(&backwards), expected);
}

#[test]
fn reply_files_have_a_name_and_the_extension() {
    assert!(is_reply_file("a.json"));
    assert!(is_reply_file("..json"));
    assert!(!is_reply_file(".json"));
    assert!(!is_reply_file("a.JSON"));
    assert!(!is_reply_file("ajson"));
    assert!(!is_reply_file("a.json.bak"));
}

#[test]
fn replies_added_for_a_role_are_not_skipped() {
    let mut p = MockProvider::new(vec![MockResponse::plain("shared")]);
    for _ in 0..7 {
        let (_, r) = p.send(&req_with_role(Role::Propose), 0).unwrap();
        assert_eq!(r.text, "shared");
    }
    p.push_for(Role::Propose, MockResponse::plain("first"));
    p.push_for(Role::Propose, MockResponse::plain("second"));
    for text in ["first", "second", "first"] {
        let (_, r) = p.send(&req_with_role(Role::Propose), 0).unwrap();
        assert_eq!(r.text, text);
    }
}
