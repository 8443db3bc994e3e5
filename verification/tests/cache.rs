use std::sync::Arc;
use sha2::Digest;
use tui_preview::cache::key::{cache_key, hex_encode, quantized};
use tui_preview::cache::{worker_threads_for, Cache, Rect};
use tui_preview::preview::PreviewResult;

fn rect(width: u16, height: u16) -> Rect {
    Rect { x: 0, y: 0, width, height }
}

fn dir_result(n: usize) -> Arc<PreviewResult> {
    Arc::new(PreviewResult::Directory { entries: Vec::with_capacity(n) })
}

#[test]
fn quantize_rounds() {
    let q = quantized(rect(15, 7));
    assert_eq!(q.width, 8);
    assert_eq!(q.height, 4);
}

#[test]
fn same_pixel_same_key() {
    let k1 = cache_key("fixtures/sample.txt", 1700000000, 5, rect(80, 24), "");
    let k2 = cache_key("fixtures/sample.txt", 1700000000, 5, rect(81, 24), "");
    assert_eq!(k1, k2);
}

#[test]
fn key_is_sha256_hex_of_the_key_text() {
    let k = cache_key("/tmp/a.txt", 7, 12, rect(83, 25), "s1");
    let expected = hex_encode(&sha2::Sha256::digest("/tmp/a.txt:7:12:80:24:1:s1".as_bytes()));
    assert_eq!(k, expected);
    assert_eq!(k.len(), 64);
    assert_ne!(k, "/tmp/a.txt:7:12:80:24:1:s1");
}

#[test]
fn key_changes_with_quantized_size_and_mtime() {
    let a = cache_key("/f", 1, 1, rect(80, 24), "");
    assert_ne!(a, cache_key("/f", 1, 1, rect(88, 24), ""));
    assert_ne!(a, cache_key("/f", 2, 1, rect(80, 24), ""));
    assert_ne!(a, cache_key("/f", 1, 1, rect(80, 28), ""));
}

#[test]
fn hex_is_lowercase_two_digits_per_byte() {
    assert_eq!(hex_encode(&[0x00, 0x0f, 0xa5, 0xff]), "000fa5ff");
    assert_eq!(hex_encode(&[]), "");
}

#[test]
fn lru_put_then_get() {
    let mut c = Cache::with_capacity(2);
    c.put("a".to_string(), dir_result(1));
    assert!(c.get("a").is_some());
    assert!(c.get("b").is_none());
    assert_eq!(c.len(), 1);
}

#[test]
fn lru_evicts_least_recently_used() {
    let mut c = Cache::with_capacity(2);
    c.put("a".to_string(), dir_result(1));
    c.put("b".to_string(), dir_result(2));
    assert!(c.get("a").is_some());
    c.put("c".to_string(), dir_result(3));
    assert_eq!(c.len(), 2);
    assert!(c.get("b").is_none());
    assert!(c.get("a").is_some());
    assert!(c.get("c").is_some());
}

#[test]
fn lru_replaces_same_key() {
    let mut c = Cache::new();
    c.put("k".to_string(), dir_result(1));
    c.put("k".to_string(), dir_result(2));
    assert_eq!(c.len(), 1);
    match &*c.get("k").unwrap() {
        PreviewResult::Directory { entries } => assert_eq!(entries.capacity() >= 2, true),
        _ => panic!("expected the directory result"),
    }
}

#[test]
fn default_cache_holds_one_hundred() {
    let mut c = Cache::new();
    for i in 0..150u32 {
        c.put(format!("k{}", i), dir_result(0));
    }
    assert_eq!(c.len(), 100);
    assert!(c.get("k49").is_none());
    assert!(c.get("k50").is_some());
}

#[test]
fn worker_count_is_clamped() {
    assert_eq!(worker_threads_for(1), 2);
    assert_eq!(worker_threads_for(8), 4);
    assert_eq!(worker_threads_for(64), 6);
}
