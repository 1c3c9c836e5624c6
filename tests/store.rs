use std::collections::HashSet;
use std::sync::Arc;

use paste_bin::{admits_body, Paste, PasteError, PasteStore, ID_LEN, MAX_BODY_BYTES};

fn paste(text: &str, lang: &str) -> Paste {
    Paste::new(text.to_string(), lang.to_string())
}

fn url_safe(id: &str) -> bool {
    id.chars().all(|c| c.is_ascii_alphanumeric() || c == '_' || c == '-')
}

#[test]
fn test_post() {
    let mut store = PasteStore::new();
    let id = store.insert(paste("Testing paste api", "plaintext"));
    assert_eq!(id.chars().count(), ID_LEN);
    assert!(url_safe(&id));
    assert_eq!(store.len(), 1);
}

#[test]
fn test_1mb_too_large() {
    let store = PasteStore::new();
    let long_text = "a".repeat(1024 * 1024);
    let body_len = long_text.len() as u64 + "plaintext".len() as u64;
    assert!(!admits_body(body_len));
    assert_eq!(store.len(), 0);
}

#[test]
fn test_not_exists() {
    let store = PasteStore::new();
    assert!(matches!(store.get("bad_id_123"), Err(PasteError::NotFound)));
    assert!(matches!(store.raw("bad_id_123"), Err(PasteError::NotFound)));
}

#[test]
fn test_e2e() {
    let mut store = PasteStore::new();
    let p = paste("My favorite pastebin", "plaintext");
    let id = store.insert(p.clone());
    let got = store.get(&id).unwrap();
    assert_eq!(got.text, "My favorite pastebin");
    assert_eq!(got.lang, "plaintext");
    assert_eq!(store.raw(&id).unwrap(), p.text);
}

#[test]
fn body_limit_is_inclusive() {
    assert_eq!(MAX_BODY_BYTES, 256 * 1024);
    assert!(admits_body(0));
    assert!(admits_body(262144));
    assert!(!admits_body(262145));
}

#[test]
fn round_trip_keeps_both_fields() {
    let mut store = PasteStore::new();
    let id = store.insert(paste("fn main() {}\n", "rust"));
    let got = store.get(&id).unwrap();
    assert_eq!(got.text, "fn main() {}\n");
    assert_eq!(got.lang, "rust");
}

#[test]
fn empty_paste_round_trips() {
    let mut store = PasteStore::new();
    let id = store.insert(paste("", ""));
    let got = store.get(&id).unwrap();
    assert_eq!(got.text, "");
    assert_eq!(got.lang, "");
    assert_eq!(store.raw(&id).unwrap(), "");
}

#[test]
fn raw_is_text_of_structured() {
    let mut store = PasteStore::new();
    let id = store.insert(paste("line one\nline two", "markdown"));
    let raw = store.raw(&id).unwrap();
    let structured = store.get(&id).unwrap();
    assert_eq!(raw, structured.text);
    assert_eq!(raw, "line one\nline two");
}

#[test]
fn repeated_reads_agree() {
    let mut store = PasteStore::new();
    let id = store.insert(paste("stable", "plaintext"));
    let first = store.get(&id).unwrap();
    let second = store.get(&id).unwrap();
    assert_eq!(first.text, second.text);
    assert_eq!(first.lang, second.lang);
    assert_eq!(store.raw(&id).unwrap(), store.raw(&id).unwrap());
    assert_eq!(store.len(), 1);
}

#[test]
fn unknown_id_after_inserts_is_not_found() {
    let mut store = PasteStore::new();
    let a = store.insert(paste("a", "plaintext"));
    let b = store.insert(paste("b", "plaintext"));
    assert!(store.contains(&a));
    assert!(store.contains(&b));
    assert!(!store.contains("bad_id_123"));
    assert!(matches!(store.get("bad_id_123"), Err(PasteError::NotFound)));
}

#[test]
fn insert_with_id_refuses_a_taken_id() {
    let mut store = PasteStore::new();
    assert!(store.insert_with_id("abc".to_string(), paste("first", "plaintext")));
    assert!(!store.insert_with_id("abc".to_string(), paste("second", "rust")));
    let got = store.get("abc").unwrap();
    assert_eq!(got.text, "first");
    assert_eq!(got.lang, "plaintext");
    assert_eq!(store.len(), 1);
}

#[test]
fn many_inserts_are_all_kept() {
    let mut store = PasteStore::new();
    let mut ids = Vec::new();
    for i in 0..500 {
        ids.push(store.insert(paste(&format!("paste number {}", i), "plaintext")));
    }
    let distinct: HashSet<&String> = ids.iter().collect();
    assert_eq!(distinct.len(), 500);
    assert_eq!(store.len(), 500);
    for (i, id) in ids.iter().enumerate() {
        assert!(id.chars().count() >= ID_LEN);
        assert!(url_safe(id));
        assert_eq!(store.raw(id).unwrap(), format!("paste number {}", i));
    }
}

#[test]
fn concurrent_inserts_are_all_kept() {
    let rt = tokio::runtime::Builder::new_multi_thread()
        .worker_threads(4)
        .build()
        .unwrap();
    let shared = Arc::new(tokio::sync::RwLock::new(PasteStore::new()));
    let handles: Vec<_> = (0..64)
        .map(|i| {
            let store = shared.clone();
            rt.spawn(async move {
                let id = store
                    .write()
                    .await
                    .insert(paste(&format!("concurrent {}", i), "plaintext"));
                (i, id)
            })
        })
        .collect();
    let results: Vec<(i32, String)> = rt.block_on(async {
        let mut out = Vec::new();
        for h in handles {
            out.push(h.await.unwrap());
        }
        out
    });
    let store = rt.block_on(shared.read());
    assert_eq!(store.len(), 64);
    let distinct: HashSet<&String> = results.iter().map(|(_, id)| id).collect();
    assert_eq!(distinct.len(), 64);
    for (i, id) in &results {
        let got = store.get(id).unwrap();
        assert_eq!(got.text, format!("concurrent {}", i));
        assert_eq!(got.lang, "plaintext");
    }
}
