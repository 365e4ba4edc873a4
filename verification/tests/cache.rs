use axum_api::cache::{CacheStore, TtlCache, PRINCIPAL_INFO_CACHE, SPECIAL_ACCESS_CACHE};
use axum_api::json::Json;

fn text(s: &str) -> Json {
    Json::String(s.to_string())
}

fn as_text(v: Option<&Json>) -> Option<String> {
    match v {
        Some(Json::String(s)) => Some(s.clone()),
        _ => None,
    }
}

#[test]
fn cache_read_after_write() {
    let mut c = TtlCache::new(1000, None);
    c.set("k".to_string(), text("v"), 10);
    assert_eq!(as_text(c.get("k", 10)), Some("v".to_string()));
    assert_eq!(as_text(c.get("k", 1009)), Some("v".to_string()));
}

#[test]
fn cache_entry_expires_after_ttl() {
    let mut c = TtlCache::new(1000, None);
    c.set("k".to_string(), text("v"), 10);
    assert!(c.get("k", 1010).is_none());
    assert_eq!(c.len(), 1);
}

#[test]
fn cache_invalidate_removes_key() {
    let mut c = TtlCache::new(1000, None);
    c.set("a".to_string(), text("1"), 0);
    c.set("b".to_string(), text("2"), 0);
    c.invalidate("a");
    assert!(c.get("a", 1).is_none());
    assert_eq!(as_text(c.get("b", 1)), Some("2".to_string()));
}

#[test]
fn cache_overwrite_keeps_one_entry() {
    let mut c = TtlCache::new(1000, Some(1));
    c.set("a".to_string(), text("1"), 0);
    c.set("a".to_string(), text("2"), 5);
    assert_eq!(c.len(), 1);
    assert_eq!(as_text(c.get("a", 6)), Some("2".to_string()));
}

#[test]
fn bounded_cache_evicts_oldest() {
    let mut c = TtlCache::new(10_000, Some(2));
    c.set("a".to_string(), text("1"), 1);
    c.set("b".to_string(), text("2"), 2);
    c.set("c".to_string(), text("3"), 3);
    assert_eq!(c.len(), 2);
    assert!(c.get("a", 4).is_none());
    assert_eq!(as_text(c.get("b", 4)), Some("2".to_string()));
    assert_eq!(as_text(c.get("c", 4)), Some("3".to_string()));
}

#[test]
fn bounded_cache_purges_expired_before_evicting() {
    let mut c = TtlCache::new(100, Some(2));
    c.set("old".to_string(), text("1"), 0);
    c.set("new".to_string(), text("2"), 150);
    c.set("third".to_string(), text("3"), 160);
    assert_eq!(c.len(), 2);
    assert_eq!(as_text(c.get("new", 170)), Some("2".to_string()));
    assert_eq!(as_text(c.get("third", 170)), Some("3".to_string()));
}

#[test]
fn store_ignores_unregistered_cache() {
    let mut s = CacheStore::new();
    s.set("nope", "k".to_string(), text("v"), 0);
    assert!(s.get("nope", "k", 0).is_none());
}

#[test]
fn default_caches_registered() {
    let mut s = CacheStore::with_default_caches();
    s.set(SPECIAL_ACCESS_CACHE, "u_a//adm_godmode".to_string(), Json::Bool(true), 0);
    assert!(matches!(s.get(SPECIAL_ACCESS_CACHE, "u_a//adm_godmode", 299_999), Some(Json::Bool(true))));
    assert!(s.get(SPECIAL_ACCESS_CACHE, "u_a//adm_godmode", 300_000).is_none());
    s.set(PRINCIPAL_INFO_CACHE, "u_a".to_string(), text("x"), 0);
    s.invalidate(PRINCIPAL_INFO_CACHE, "u_a");
    assert!(s.get(PRINCIPAL_INFO_CACHE, "u_a", 1).is_none());
}

#[test]
fn register_keeps_existing_cache() {
    let mut s = CacheStore::new();
    s.register_cache("c", 1000);
    s.set("c", "k".to_string(), text("v"), 0);
    s.register_cache("c", 5);
    assert_eq!(as_text(s.get("c", "k", 500)), Some("v".to_string()));
}
