use moagan::models_dev::{
    after_cache, after_fetch, catalog_path, fetch_status_message, fetched_catalog, is_fresh,
    lookup, mtime_fresh, read_fresh_cache, CatalogLoad, Cost, InterleavedField, Limits, LoadStep,
    Modalities, ModelsDevCatalog, ModelsDevEntry, ModelsDevProvider, Price,
    CATALOG_SCHEMA_VERSION,
};
use moagan::text_map::TextMap;
use serde_json::Value;

const SAMPLE_MINIMAX: &str = r#"{
    "minimax": {
        "id": "minimax",
        "env": ["MINIMAX_API_KEY"],
        "npm": "@ai-sdk/anthropic",
        "api": "https://api.minimax.io/anthropic/v1",
        "name": "MiniMax (minimax.io)",
        "doc": "https://docs.minimax.io",
        "models": {
            "MiniMax-M3": {
                "id": "MiniMax-M3",
                "name": "MiniMax-M3",
                "family": "minimax",
                "attachment": false,
                "reasoning": true,
                "reasoning_options": [],
                "tool_call": true,
                "temperature": true,
                "interleaved": null,
                "release_date": "2026-08-08",
                "last_updated": "2026-08-08",
                "modalities": {"input": ["text"], "output": ["text"]},
                "open_weights": true,
                "limit": {"context": 524288, "output": 128000},
                "cost": {"input": 0.3, "output": 1.2, "cache_read": 0.03, "cache_write": 0.375}
            }
        }
    }
}"#;

const HOUR: u64 = 3_600;

fn text(v: &Value) -> String {
    v.as_str().expect("a string").to_owned()
}

fn some_text(v: &Value) -> Option<String> {
    v.as_str().map(|s| s.to_owned())
}

fn texts(v: &Value) -> Vec<String> {
    v.as_array().expect("an array").iter().map(text).collect()
}

fn price(v: &Value) -> Price {
    Price {
        bits: v.as_f64().expect("a number").to_bits(),
    }
}

fn decode_entry(v: &Value) -> ModelsDevEntry {
    ModelsDevEntry {
        id: text(&v["id"]),
        name: text(&v["name"]),
        family: some_text(&v["family"]),
        attachment: v["attachment"].as_bool().expect("a flag"),
        reasoning: v["reasoning"].as_bool().expect("a flag"),
        reasoning_options: vec![],
        tool_call: v["tool_call"].as_bool().expect("a flag"),
        temperature: v["temperature"].as_bool().expect("a flag"),
        interleaved: some_text(&v["interleaved"]["field"]).map(|field| InterleavedField { field }),
        modalities: Modalities {
            input: texts(&v["modalities"]["input"]),
            output: texts(&v["modalities"]["output"]),
        },
        limit: Limits {
            context: v["limit"]["context"].as_u64().expect("a size"),
            output: v["limit"]["output"].as_u64().expect("a size"),
        },
        cost: Cost {
            input: price(&v["cost"]["input"]),
            output: price(&v["cost"]["output"]),
            cache_read: price(&v["cost"]["cache_read"]),
            cache_write: price(&v["cost"]["cache_write"]),
        },
        open_weights: v["open_weights"].as_bool().expect("a flag"),
        release_date: some_text(&v["release_date"]),
        last_updated: some_text(&v["last_updated"]),
    }
}

fn decode_providers(json: &str) -> TextMap<ModelsDevProvider> {
    let body: Value = serde_json::from_str(json).expect("upstream sample must parse");
    let mut providers = TextMap::new();
    for (id, p) in body.as_object().expect("an object") {
        let mut models = TextMap::new();
        for (name, m) in p["models"].as_object().expect("an object") {
            models.insert(name.clone(), decode_entry(m));
        }
        providers.insert(
            id.clone(),
            ModelsDevProvider {
                id: text(&p["id"]),
                name: text(&p["name"]),
                api: some_text(&p["api"]),
                doc: some_text(&p["doc"]),
                models,
            },
        );
    }
    providers
}

fn sample_catalog() -> ModelsDevCatalog {
    ModelsDevCatalog {
        schema_version: CATALOG_SCHEMA_VERSION,
        fetched_at_unix: 1_700_000_000,
        providers: TextMap::new(),
    }
}

fn bare_entry() -> ModelsDevEntry {
    ModelsDevEntry {
        id: "MiniMax-M3".to_string(),
        name: "MiniMax-M3".to_string(),
        family: None,
        attachment: false,
        reasoning: false,
        reasoning_options: vec![],
        tool_call: true,
        temperature: true,
        interleaved: None,
        modalities: Modalities::default(),
        limit: Limits::default(),
        cost: Cost::default(),
        open_weights: false,
        release_date: None,
        last_updated: None,
    }
}

fn catalog_of(entry: ModelsDevEntry) -> ModelsDevCatalog {
    let mut models = TextMap::new();
    models.insert("MiniMax-M3".to_string(), entry);
    let mut providers = TextMap::new();
    providers.insert(
        "minimax".to_string(),
        ModelsDevProvider {
            id: "minimax".to_string(),
            name: "MiniMax".to_string(),
            api: None,
            doc: None,
            models,
        },
    );
    ModelsDevCatalog {
        schema_version: CATALOG_SCHEMA_VERSION,
        fetched_at_unix: 0,
        providers,
    }
}

#[test]
fn parse_minimax_minimax_m3_from_sample() {
    let catalog = ModelsDevCatalog {
        schema_version: CATALOG_SCHEMA_VERSION,
        fetched_at_unix: 0,
        providers: decode_providers(SAMPLE_MINIMAX),
    };
    let entry = lookup(&catalog, "minimax", "MiniMax-M3")
        .expect("minimax/MiniMax-M3 lookup must succeed");
    assert_eq!(entry.id, "MiniMax-M3");
    assert_eq!(entry.family.as_deref(), Some("minimax"));
    assert!(!entry.attachment);
    assert!(entry.reasoning);
    assert!(entry.tool_call);
    assert!(entry.temperature);
    assert!(entry.interleaved.is_none());
    assert_eq!(entry.limit.context, 524_288);
    assert_eq!(entry.limit.output, 128_000);
    assert!((f64::from_bits(entry.cost.input.bits) - 0.3).abs() < f64::EPSILON);
    assert!((f64::from_bits(entry.cost.output.bits) - 1.2).abs() < f64::EPSILON);
    assert!((f64::from_bits(entry.cost.cache_read.bits) - 0.03).abs() < f64::EPSILON);
    assert!((f64::from_bits(entry.cost.cache_write.bits) - 0.375).abs() < f64::EPSILON);
    assert!(entry.open_weights);
    assert_eq!(entry.modalities.input, vec!["text".to_string()]);
    assert_eq!(entry.modalities.output, vec!["text".to_string()]);
    assert_eq!(entry.release_date.as_deref(), Some("2026-08-08"));
    assert_eq!(entry.last_updated.as_deref(), Some("2026-08-08"));
}

#[test]
fn is_fresh_respects_ttl() {
    let now = 1_700_000_000_u64;
    let ttl = 1_u64;
    let just_inside = ModelsDevCatalog {
        fetched_at_unix: now - HOUR + 1,
        ..sample_catalog()
    };
    let at_boundary = ModelsDevCatalog {
        fetched_at_unix: now - HOUR,
        ..sample_catalog()
    };
    let well_outside = ModelsDevCatalog {
        fetched_at_unix: now - HOUR - 1,
        ..sample_catalog()
    };

    assert!(
        is_fresh(&just_inside, now, ttl),
        "1 second inside TTL the catalog must be fresh"
    );
    assert!(
        !is_fresh(&at_boundary, now, ttl),
        "at exactly TTL boundary the catalog must be stale"
    );
    assert!(
        !is_fresh(&well_outside, now, ttl),
        "past the TTL the catalog must be stale"
    );
}

#[test]
fn is_fresh_uses_now_unix() {
    let fetched = 1_700_000_000_u64;
    let ttl = 1_u64;
    let catalog = ModelsDevCatalog {
        fetched_at_unix: fetched,
        ..sample_catalog()
    };

    assert!(is_fresh(&catalog, fetched + 100, ttl));
    assert!(is_fresh(&catalog, fetched + 3_599, ttl));
    assert!(!is_fresh(&catalog, fetched + 3_600, ttl));
    assert!(!is_fresh(&catalog, fetched + 100_000, ttl));

    let bogus_now = 0_u64;
    assert!(!is_fresh(&catalog, bogus_now, ttl));
}

#[test]
fn lookup_returns_none_for_unknown_model() {
    let catalog = catalog_of(bare_entry());

    assert!(lookup(&catalog, "minimax", "nonexistent").is_none());
    assert!(lookup(&catalog, "missing-provider", "MiniMax-M3").is_none());
    assert!(lookup(&catalog, "minimax", "minimax-m3").is_none());
    assert!(lookup(&catalog, "MiniMax", "MiniMax-M3").is_none());
}

#[test]
fn lookup_returns_entry_for_known_pair() {
    let entry = ModelsDevEntry {
        family: Some("minimax".to_string()),
        reasoning: true,
        limit: Limits {
            context: 524_288,
            output: 128_000,
        },
        open_weights: true,
        ..bare_entry()
    };
    let catalog = catalog_of(entry.clone());
    let found = lookup(&catalog, "minimax", "MiniMax-M3").expect("known pair must resolve");
    assert_eq!(*found, entry);
}

#[test]
fn load_or_fetch_returns_cache_when_fresh() {
    let path = catalog_path("/home/u");
    let fresh = read_fresh_cache(1_000, 1_010, 1, Some(sample_catalog()));
    match after_cache(fresh, true, path.clone()) {
        LoadStep::Done(Ok(load)) => {
            assert!(load.from_cache, "fresh cache must be served from disk");
            assert_eq!(load.catalog, sample_catalog());
            assert_eq!(load.path, path);
        }
        other => panic!("fresh cache must satisfy the call; got: {other:?}"),
    }
}

#[test]
fn load_or_fetch_errors_in_offline_with_no_cache() {
    let home = "/home/u";
    match after_cache(None, true, catalog_path(home)) {
        LoadStep::Done(Err(err)) => {
            assert!(
                err.contains("offline mode"),
                "error must mention offline mode; got: {err}"
            );
            assert!(
                err.contains(home),
                "error must include the cache path; got: {err}"
            );
        }
        other => panic!("offline without cache must error; got: {other:?}"),
    }
}

#[test]
fn load_or_fetch_fetches_from_network_when_cache_missing() {
    let path = catalog_path("/home/u");
    let step = after_cache(None, false, path.clone());
    assert_eq!(step, LoadStep::Fetch { path: path.clone() });

    let fetched = fetched_catalog(decode_providers(SAMPLE_MINIMAX), 1_700_000_000);
    let load = after_fetch(Ok(fetched), Err("no such file".into()), path.clone())
        .expect("network fetch must succeed");

    assert!(!load.from_cache, "fresh fetch must mark from_cache=false");
    let entry = lookup(&load.catalog, "minimax", "MiniMax-M3")
        .expect("minimax/MiniMax-M3 lookup must succeed after fetch");
    assert_eq!(entry.id, "MiniMax-M3");
    assert_eq!(entry.limit.context, 524_288);
    assert_eq!(load.catalog.schema_version, CATALOG_SCHEMA_VERSION);
    assert!(load.catalog.fetched_at_unix > 0);
    assert!(load.catalog.providers.contains_key("minimax"));
    assert_eq!(load.path, path);
}

#[test]
fn load_or_fetch_falls_back_to_stale_cache_on_fetch_error() {
    let stale = || ModelsDevCatalog {
        schema_version: CATALOG_SCHEMA_VERSION,
        fetched_at_unix: 0,
        providers: TextMap::new(),
    };
    let path = catalog_path("/home/u");
    assert_eq!(read_fresh_cache(1_000_000, 1_700_000_000, 1, Some(stale())), None);
    let why = fetch_status_message("http://h/api.json", "500 Internal Server Error");
    let load = after_fetch(Err(why), Ok(stale()), path.clone())
        .expect("stale cache must satisfy the call when fetch fails");
    assert_eq!(
        load,
        CatalogLoad {
            catalog: stale(),
            from_cache: true,
            path
        }
    );
}

#[test]
fn catalog_path_joins_home_with_filename() {
    let p = catalog_path("/home/u");
    let p = std::path::Path::new(&p);
    assert_eq!(
        p.file_name().and_then(|s| s.to_str()),
        Some("models_dev.json")
    );
    assert_eq!(p.parent(), Some(std::path::Path::new("/home/u")));
    assert_eq!(catalog_path("/home/u/"), "/home/u/models_dev.json");
    assert_eq!(catalog_path(""), "models_dev.json");
}

#[test]
fn a_load_without_any_catalog_tells_of_both_failures() {
    assert_eq!(
        fetch_status_message("http://h/a", "404 Not Found"),
        "models_dev: fetch http://h/a returned HTTP 404 Not Found"
    );
    let err = after_fetch(Err("a".into()), Err("b".into()), "p".into());
    assert_eq!(
        err,
        Err("models_dev: fetch failed (a) and cache unreadable (b)".to_string())
    );
}

#[test]
fn freshness_wears_off() {
    assert!(mtime_fresh(100, 100, 1));
    assert!(mtime_fresh(100, 100 + 2 * HOUR - 1, 2));
    assert!(!mtime_fresh(100, 100 + 2 * HOUR, 2));
    assert!(!mtime_fresh(100, 99, 2));
    assert!(!mtime_fresh(100, 100, 0));
    assert!(mtime_fresh(0, u64::MAX - 1, u64::MAX));
}

#[test]
fn catalogs_of_another_schema_are_built_anew() {
    let other = || ModelsDevCatalog {
        schema_version: 7,
        ..sample_catalog()
    };
    let fresh = read_fresh_cache(1_000, 1_010, 1, Some(other()));
    assert_eq!(fresh, None);
    assert_eq!(
        after_cache(fresh, false, "p".into()),
        LoadStep::Fetch { path: "p".into() }
    );
    let fetched = fetched_catalog(TextMap::new(), 1_010);
    let load = after_fetch(Ok(fetched), Ok(other()), "p".into()).expect("the fetch went well");
    assert!(!load.from_cache);
    assert_eq!(load.catalog.schema_version, CATALOG_SCHEMA_VERSION);
    assert_eq!(
        after_fetch(Err("a".into()), Ok(other()), "p".into()),
        Err(
            "models_dev: fetch failed (a) and cache unreadable (schema_version=7, expected 1)"
                .to_string()
        )
    );
}
