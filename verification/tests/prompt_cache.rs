use moagan::prompt_cache::PromptCache;
use moagan::wire::{Response, Usage};

struct CacheEntry {
    key: String,
    response: Response,
}

fn lookup(pc: &PromptCache, store: &[CacheEntry], id: &str) -> Option<String> {
    let stored: Result<Option<String>, String> = match pc.key_of(id) {
        Some(key) => Ok(store
            .iter()
            .find(|e| e.key == *key)
            .map(|e| e.response.text.clone())),
        None => Err("nothing was looked up".to_owned()),
    };
    pc.lookup_by_id(id, stored)
}

#[test]
fn prompt_cache_lookup_by_id_returns_hit() {
    let resp = Response {
        text: "hi".into(),
        finish_reason: Some("end_turn".into()),
        truncated: false,
        usage: Usage {
            input_tokens: 1,
            output_tokens: 1,
            cache_read: 0,
            cache_creation: 0,
        },
    };
    let key = "k-hello".to_string();
    let store = vec![CacheEntry {
        key: key.clone(),
        response: resp,
    }];

    let mut pc = PromptCache::new();
    pc.register("greeting-v1", key.clone());

    let text = lookup(&pc, &store, "greeting-v1").expect("hit");
    assert_eq!(text, "hi");
    assert!(lookup(&pc, &store, "unknown").is_none(), "missing id -> None");
}

#[test]
fn prompt_cache_register_overwrites_existing_id() {
    let mut pc = PromptCache::new();
    pc.register("greeting-v1", "aaaa".into());
    pc.register("greeting-v1", "bbbb".into());
    assert_eq!(pc.key_of("greeting-v1").map(String::as_str), Some("bbbb"));
}

#[test]
fn a_cache_that_fails_is_a_miss() {
    let mut pc = PromptCache::new();
    pc.register("a", "k".into());
    assert_eq!(pc.lookup_by_id::<u8>("a", Err("broken".into())), None);
    assert_eq!(pc.lookup_by_id::<u8>("a", Ok(None)), None);
    assert_eq!(pc.lookup_by_id("a", Ok(Some(7u8))), Some(7));
    assert_eq!(pc.lookup_by_id("b", Ok(Some(7u8))), None);
}
