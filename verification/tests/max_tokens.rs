use moagan::capabilities::MINIMAX_MAX_TOKENS_CAP;
use moagan::max_tokens::{
    cap_from_env, clamp, env_key, resolve_max_tokens, resolve_max_tokens_simple, variable_for,
    DEFAULT_MAX_TOKENS,
};
use moagan::probe::{
    Entry, MaxTokensTableFile, ProbeOutcome, ProbeTransport, MAX_AUTOPROBE_CEILING,
    MIN_AUTOPROBE_FLOOR,
};
use moagan::probe_table::MaxTokensTable;
use moagan::sidecar::FileRead;
use moagan::text_map::TextMap;

struct StaticTransport {
    cap: u32,
}

impl ProbeTransport for StaticTransport {
    fn probe_send(&self, n: u32) -> ProbeOutcome {
        if n <= self.cap {
            ProbeOutcome::Accepted
        } else {
            ProbeOutcome::Rejected
        }
    }
}

fn table_with_entry(provider: &str, model: &str, max_tokens: u32) -> MaxTokensTable {
    let mut table = MaxTokensTable::empty(MIN_AUTOPROBE_FLOOR);
    let transport = StaticTransport { cap: max_tokens };
    let discovered = table.probe_and_store(provider, model, &transport, MAX_AUTOPROBE_CEILING);
    assert_eq!(discovered.ok(), Some(max_tokens));
    table
}

fn resolve(env: Option<&str>) -> u32 {
    resolve_max_tokens("minimax", "MiniMax-M3", env, None, None, None)
}

#[test]
fn env_overrides_cache() {
    let table = table_with_entry("minimax", "MiniMax-M3", 4096);
    let got =
        resolve_max_tokens("minimax", "MiniMax-M3", Some("99999"), Some(&table), None, None);
    assert_eq!(got, 99_999, "env var must beat cached value");
}

#[test]
fn cache_wins_when_no_env() {
    let table = table_with_entry("minimax", "MiniMax-M3", 4096);
    let got = resolve_max_tokens("minimax", "MiniMax-M3", Some(""), Some(&table), None, None);
    assert_eq!(got, 4096, "cache must win when no env var is set");
    let got = resolve_max_tokens("minimax", "MiniMax-M3", None, Some(&table), None, None);
    assert_eq!(got, 4096);
}

#[test]
fn fallback_chain_when_no_cache_no_env() {
    assert_eq!(resolve(Some("")), DEFAULT_MAX_TOKENS);
    assert_eq!(DEFAULT_MAX_TOKENS, 1_000_000);
}

#[test]
fn kind_hard_cap_wins_over_operator_cap() {
    let got = resolve_max_tokens(
        "minimax",
        "MiniMax-M3",
        Some(""),
        None,
        Some(99_999),
        Some(1024),
    );
    assert_eq!(got, 1024);
}

#[test]
fn operator_cap_wins_over_kind_hard_cap() {
    let got = resolve_max_tokens(
        "minimax",
        "MiniMax-M3",
        Some(""),
        None,
        Some(1024),
        Some(99_999),
    );
    assert_eq!(got, 1024);
}

#[test]
fn env_zero_rejected() {
    assert_eq!(resolve(Some("0")), DEFAULT_MAX_TOKENS);
}

#[test]
fn env_out_of_range_warns_and_falls_through() {
    assert_eq!(resolve(Some("10")), DEFAULT_MAX_TOKENS);
}

#[test]
fn env_above_ceiling_warns_and_falls_through() {
    assert_eq!(resolve(Some("99999999999")), DEFAULT_MAX_TOKENS);
    assert_eq!(resolve(Some("1073741825")), DEFAULT_MAX_TOKENS);
    assert_eq!(resolve(Some("1073741824")), 1_073_741_824);
}

#[test]
fn env_invalid_value_warns_and_falls_through() {
    assert_eq!(resolve(Some("abc")), DEFAULT_MAX_TOKENS);
    assert_eq!(resolve(Some("12 34")), DEFAULT_MAX_TOKENS);
    assert_eq!(resolve(Some("-4096")), DEFAULT_MAX_TOKENS);
}

#[test]
fn env_trims_whitespace() {
    assert_eq!(resolve(Some(" 524288 ")), 524_288);
}

#[test]
fn env_bom_normalized() {
    assert_eq!(resolve(Some("\u{FEFF}524288")), 524_288);
}

#[test]
fn section_uppercased_in_env_lookup() {
    assert_eq!(env_key("minimax"), "MOAGAN_MINIMAX_MAX_TOKENS");
    assert_eq!(resolve(Some("4096")), 4096);
}

#[test]
fn section_dots_and_dashes_normalized() {
    assert_eq!(env_key("opencode-go"), "MOAGAN_OPENCODE_GO_MAX_TOKENS");
    assert_eq!(variable_for("QWEN3.7-MAX"), "MOAGAN_QWEN3_7_MAX_MAX_TOKENS");
    assert_eq!(
        resolve_max_tokens("opencode-go", "kimi-k3", Some("8192"), None, None, None),
        8192
    );
}

#[test]
fn cache_corrupt_value_below_floor_is_rejected() {
    let mut models = TextMap::new();
    models.insert(
        "MiniMax-M3".to_owned(),
        Entry {
            max_tokens: 512,
            detected_at: "2026-08-29T00:00:00Z".to_owned(),
            verified_at: "2026-08-29T00:00:00Z".to_owned(),
            auto: true,
            attempts: 0,
            ceiling: None,
        },
    );
    let mut file = MaxTokensTableFile::new_empty();
    file.providers.insert("minimax".to_owned(), models);
    let table = MaxTokensTable::from_path(
        "/home/u/max_tokens_auto.toml",
        MIN_AUTOPROBE_FLOOR,
        false,
        FileRead::Parsed(file),
    )
    .unwrap_or_else(|_| panic!("from_path must accept the file"));
    assert_eq!(table.resolve_cached("minimax", "MiniMax-M3"), Some(512));
    let got = resolve_max_tokens("minimax", "MiniMax-M3", Some(""), Some(&table), None, None);
    assert_eq!(got, DEFAULT_MAX_TOKENS);
}

#[test]
fn minimax_kind_cap_clamped_at_end() {
    let got = resolve_max_tokens(
        "minimax",
        "MiniMax-M3",
        Some(""),
        None,
        Some(999_999),
        Some(MINIMAX_MAX_TOKENS_CAP),
    );
    assert_eq!(got, MINIMAX_MAX_TOKENS_CAP);
}

#[test]
fn send_and_effective_max_tokens_agree_on_minimax() {
    let table = table_with_entry("minimax", "MiniMax-M3", 4096);
    let cap = Some(MINIMAX_MAX_TOKENS_CAP);
    let sent = resolve_max_tokens("minimax", "MiniMax-M3", Some(""), Some(&table), cap, cap);
    let effective = resolve_max_tokens("minimax", "MiniMax-M3", Some(""), Some(&table), cap, cap);
    assert_eq!(sent, effective);
    assert_eq!(sent, 4096);
}

#[test]
fn resolve_max_tokens_simple_delegates() {
    let table = table_with_entry("minimax", "MiniMax-M3", 4096);
    let via_simple = resolve_max_tokens_simple("minimax", "MiniMax-M3", Some(""), Some(&table));
    let via_full =
        resolve_max_tokens("minimax", "MiniMax-M3", Some(""), Some(&table), None, None);
    assert_eq!(via_simple, via_full);
    assert_eq!(via_simple, 4096);
}

#[test]
fn section_names_are_uppercased_beyond_ascii() {
    assert_eq!(env_key("straße"), "MOAGAN_STRASSE_MAX_TOKENS");
}

#[test]
fn useful_decimal_numbers_come_back_from_the_environment() {
    for n in [1024u32, 1025, 999_999, 1_073_741_824] {
        assert_eq!(cap_from_env(Some(&n.to_string())), Some(n));
    }
    assert_eq!(cap_from_env(Some("+4096")), Some(4096));
    assert_eq!(cap_from_env(None), None);
}

#[test]
fn the_smallest_cap_wins() {
    assert_eq!(clamp(Some(9000), Some(8000), Some(7000), 6000), 6000);
    assert_eq!(clamp(Some(9000), Some(8000), Some(7000), 60_000), 7000);
    assert_eq!(clamp(Some(9000), Some(8000), None, 60_000), 8000);
    assert_eq!(clamp(Some(9), Some(8000), None, 60_000), 9);
    assert_eq!(clamp(None, None, None, u32::MAX), u32::MAX);
}

#[test]
fn resolved_ceilings_are_useful() {
    let of = |operator: Option<u32>, kind: Option<u32>| {
        resolve_max_tokens("minimax", "MiniMax-M3", None, None, operator, kind)
    };
    assert_eq!(of(Some(10), None), 1024);
    assert_eq!(of(None, Some(0)), 1024);
    assert_eq!(of(Some(u32::MAX), None), 1_073_741_824);
    assert_eq!(of(Some(u32::MAX), Some(5000)), 5000);
    assert_eq!(of(Some(1_073_741_824), None), 1_073_741_824);
}
