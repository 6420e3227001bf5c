use std::cell::Cell;

use moagan::error::Error;
use moagan::probe::{
    Entry, MaxTokensTableFile, ProbeOutcome, ProbeTransport, MAX_AUTOPROBE_CEILING,
    MAX_TOKENS_SCHEMA_VERSION, MIN_AUTOPROBE_FLOOR,
};
use moagan::probe_table::MaxTokensTable;
use moagan::sidecar::FileRead;

struct Capped {
    cap: Cell<u32>,
}

impl ProbeTransport for Capped {
    fn probe_send(&self, n: u32) -> ProbeOutcome {
        if n <= self.cap.get() {
            ProbeOutcome::Accepted
        } else {
            ProbeOutcome::Rejected
        }
    }
}

fn cap(n: u32) -> Capped {
    Capped { cap: Cell::new(n) }
}

fn table_with(max_tokens: u32) -> MaxTokensTable {
    let mut t = MaxTokensTable::empty(MIN_AUTOPROBE_FLOOR);
    t.probe_and_store("minimax", "MiniMax-M3", &cap(max_tokens), MAX_AUTOPROBE_CEILING)
        .unwrap();
    t
}

fn same_entry(a: &Entry, b: &Entry) -> bool {
    a.max_tokens == b.max_tokens
        && a.detected_at == b.detected_at
        && a.verified_at == b.verified_at
        && a.auto == b.auto
        && a.attempts == b.attempts
        && a.ceiling == b.ceiling
}

#[test]
fn fresh_table_resolves_to_default() {
    let t = MaxTokensTable::empty(MIN_AUTOPROBE_FLOOR);
    assert!(t.is_empty());
    assert!(t.get("minimax", "MiniMax-M3").is_none());
}

#[test]
fn probe_and_store_inserts_entry() {
    let mut t = MaxTokensTable::empty(MIN_AUTOPROBE_FLOOR);
    let v = t
        .probe_and_store("minimax", "MiniMax-M3", &cap(524_288), MAX_AUTOPROBE_CEILING)
        .unwrap();
    assert_eq!(v, 524_288);
    let entry = t.get("minimax", "MiniMax-M3").unwrap();
    assert_eq!(entry.max_tokens, 524_288);
    assert!(entry.auto);
    assert!(!entry.detected_at.is_empty());
    assert!(chrono::DateTime::parse_from_rfc3339(&entry.detected_at).is_ok());
    assert_eq!(entry.attempts, 104);
    assert_eq!(t.len(), 1);
    assert_eq!(t.probe_tasks_started(), 1);
}

#[test]
fn verify_updates_verified_at_on_success() {
    let mut t = table_with(524_288);
    let before = t.get("minimax", "MiniMax-M3").unwrap();
    let ok = t.verify("minimax", "MiniMax-M3", &cap(524_288)).unwrap();
    assert!(ok);
    let after = t.get("minimax", "MiniMax-M3").unwrap();
    assert!(after.verified_at >= before.verified_at);
    assert_eq!(after.detected_at, before.detected_at);
    assert_eq!(after.max_tokens, before.max_tokens);
}

#[test]
fn verify_drops_entry_on_failure() {
    let mut t = table_with(524_288);
    let ok = t.verify("minimax", "MiniMax-M3", &cap(1024)).unwrap();
    assert!(!ok);
    assert!(t.get("minimax", "MiniMax-M3").is_none());
    assert!(t.is_empty());
}

#[test]
fn persist_round_trip_via_home_path() {
    let path = "/home/u/max_tokens_auto.toml";
    let mut t = MaxTokensTable::from_path(path, MIN_AUTOPROBE_FLOOR, true, FileRead::Missing)
        .unwrap_or_else(|_| panic!("a missing file is an empty table"));
    t.probe_and_store("minimax", "MiniMax-M3", &cap(524_288), MAX_AUTOPROBE_CEILING)
        .unwrap();
    assert_eq!(t.persist_path().as_deref(), Some(path));
    let written = t.to_file(MaxTokensTableFile::new_empty());
    let back = MaxTokensTable::from_path(path, MIN_AUTOPROBE_FLOOR, false, FileRead::Parsed(written))
        .unwrap_or_else(|_| panic!("what was written must be read"));
    let entry = back.get("minimax", "MiniMax-M3").unwrap();
    assert!(same_entry(&entry, &t.get("minimax", "MiniMax-M3").unwrap()));
    assert_eq!(back.len(), t.len());
}

#[test]
fn from_path_with_save_disabled_does_not_set_persist_path() {
    let t = MaxTokensTable::from_path(
        "/nonexistent.toml",
        MIN_AUTOPROBE_FLOOR,
        false,
        FileRead::Missing,
    )
    .unwrap_or_else(|_| panic!("a missing file is an empty table"));
    assert!(t.persist_path().is_none());
}

#[test]
fn floor_clamped_to_minimum() {
    let mut t = MaxTokensTable::empty(0);
    assert_eq!(t.floor(), MIN_AUTOPROBE_FLOOR);
    t.set_floor_for("minimax", "MiniMax-M3", 4096);
    assert_eq!(t.floor(), 4096);
    t.set_floor_for("minimax", "MiniMax-M3", 2048);
    assert_eq!(t.floor(), 4096);
}

fn load_error(read: FileRead<MaxTokensTableFile>) -> Error {
    match MaxTokensTable::from_path("/p.toml", MIN_AUTOPROBE_FLOOR, false, read) {
        Ok(_) => panic!("the file must be refused"),
        Err(e) => e,
    }
}

#[test]
fn files_that_cannot_be_used_are_refused() {
    assert_eq!(
        load_error(FileRead::Unreadable("denied".into())),
        Error::Io("denied".into())
    );
    assert_eq!(
        load_error(FileRead::Malformed("line 1".into())),
        Error::Provider {
            message: "max_tokens_auto.toml at /p.toml is malformed: line 1".into(),
            http_status: None
        }
    );
    let mut newer = MaxTokensTableFile::new_empty();
    newer.schema_version = MAX_TOKENS_SCHEMA_VERSION + 1;
    assert_eq!(
        load_error(FileRead::Parsed(newer)),
        Error::Provider {
            message: format!(
                "max_tokens_auto.toml at /p.toml has schema_version={}, this binary only knows up to {}",
                MAX_TOKENS_SCHEMA_VERSION + 1,
                MAX_TOKENS_SCHEMA_VERSION
            ),
            http_status: None
        }
    );
}

#[test]
fn verifying_what_is_not_remembered_does_nothing() {
    let mut t = table_with(4096);
    assert_eq!(t.verify("minimax", "other", &cap(4096)), Ok(false));
    assert_eq!(t.probe_tasks_started(), 1);
    assert_eq!(t.len(), 1);
}

#[test]
fn entries_come_in_order() {
    let mut t = MaxTokensTable::empty(MIN_AUTOPROBE_FLOOR);
    for (i, (p, m)) in [("b", "x"), ("a", "z"), ("b", "a"), ("a", "y")].iter().enumerate() {
        t.store_detection(p, m, 21, 2048 + i as u32, None, "now");
    }
    let listed: Vec<(String, String, u32)> = t
        .iter()
        .into_iter()
        .map(|((p, m), e)| (p, m, e.max_tokens))
        .collect();
    let row = |p: &str, m: &str, n: u32| (p.to_owned(), m.to_owned(), n);
    assert_eq!(
        listed,
        vec![row("a", "y", 2051), row("a", "z", 2049), row("b", "a", 2050), row("b", "x", 2048)]
    );
}

#[test]
fn the_named_ceiling_is_kept_where_it_was_reached() {
    let mut t = MaxTokensTable::empty(MIN_AUTOPROBE_FLOOR);
    t.store_detection("p", "m", 3, 4096, Some(4096), "now");
    assert_eq!(t.get("p", "m").unwrap().ceiling, Some(4096));
    t.store_detection("p", "m", 44, 2048, Some(4096), "later");
    let e = t.get("p", "m").unwrap();
    assert_eq!((e.ceiling, e.max_tokens, e.attempts), (None, 2048, 44));
    assert_eq!(e.detected_at, "later");
}

#[test]
fn caps_of_the_operator_go_into_the_file() {
    let kept =
        MaxTokensTable::from_path("/p.toml", MIN_AUTOPROBE_FLOOR, true, FileRead::Missing)
            .unwrap_or_else(|_| panic!("a missing file is an empty table"));
    let file = kept
        .set_operator_cap_at(MaxTokensTableFile::new_empty(), "minimax", 9000, "t0")
        .expect("the table is kept in a file");
    let c = file.operator_caps.get("minimax").expect("the cap is in the file");
    assert_eq!((c.min, c.auto, c.detected_at.as_str()), (9000, false, "t0"));
    let stamped = kept
        .set_operator_cap(MaxTokensTableFile::new_empty(), "minimax", 9000)
        .expect("the table is kept in a file");
    let c = stamped.operator_caps.get("minimax").expect("the cap is in the file");
    assert!(chrono::DateTime::parse_from_rfc3339(&c.detected_at).is_ok());
    let written = table_with(4096).to_file(file);
    let c = written.operator_caps.get("minimax").expect("the cap survives");
    assert_eq!((c.min, c.auto, c.detected_at.as_str()), (9000, false, "t0"));
    assert!(written.providers.contains_key("minimax"));
    let loose = MaxTokensTable::empty(MIN_AUTOPROBE_FLOOR);
    assert!(loose
        .set_operator_cap(MaxTokensTableFile::new_empty(), "minimax", 9000)
        .is_none());
}

struct Counting {
    cap: u32,
    sent: Cell<u32>,
}

impl ProbeTransport for Counting {
    fn probe_send(&self, n: u32) -> ProbeOutcome {
        self.sent.set(self.sent.get() + 1);
        if n <= self.cap {
            ProbeOutcome::Accepted
        } else {
            ProbeOutcome::Rejected
        }
    }
}

#[test]
fn entries_tell_how_many_probes_it_took() {
    for cap in [1024u32, 8192, 9999, 524_288, u32::MAX] {
        let transport = Counting {
            cap,
            sent: Cell::new(0),
        };
        let mut t = MaxTokensTable::empty(MIN_AUTOPROBE_FLOOR);
        t.probe_and_store("p", "m", &transport, MAX_AUTOPROBE_CEILING)
            .unwrap();
        let e = t.get("p", "m").unwrap();
        assert_eq!(e.attempts, transport.sent.get());
        assert!(e.attempts > 1);
        t.verify("p", "m", &transport).unwrap();
        assert_eq!(t.get("p", "m").unwrap().attempts, e.attempts);
    }
}
