use axum_api::cache::{CacheStore, PRINCIPAL_INFO_CACHE};
use axum_api::error::AppError;
use axum_api::json::{Json, JsonObject};
use axum_api::policy::Caller;
use axum_api::principals::{cached_godmode, collection_for_principal, godmode_cache_key, not_found_info,
    permission_change_response, permission_targets, principal_info_index, record_resolved, remember_godmode,
    require_permission_manager, resolve_request_ids, serve_from_cache, PermissionBody, ResolveBody};

fn obj(pairs: &[(&str, &str)]) -> Json {
    let mut o = JsonObject::new();
    for (k, v) in pairs {
        o.insert(k.to_string(), Json::String(v.to_string()));
    }
    Json::Object(o)
}

fn field(j: &Json, k: &str) -> Option<String> {
    match j.get(k) {
        Some(Json::String(s)) => Some(s.clone()),
        _ => None,
    }
}

#[test]
fn principal_collections_by_prefix() {
    assert_eq!(collection_for_principal("g_admins"), "groups");
    assert_eq!(collection_for_principal("sa_bot"), "service_accounts");
    assert_eq!(collection_for_principal("pa_ci"), "pipeline_accounts");
    assert_eq!(collection_for_principal("u_alice"), "users");
    assert_eq!(collection_for_principal("alice"), "users");
}

#[test]
fn godmode_key_format() {
    assert_eq!(godmode_cache_key("u_root"), "u_root//adm_godmode");
}

#[test]
fn godmode_flag_cached() {
    let mut c = CacheStore::with_default_caches();
    assert_eq!(cached_godmode(&c, "u_a", 0), None);
    remember_godmode(&mut c, "u_a", true, 0);
    assert_eq!(cached_godmode(&c, "u_a", 10), Some(true));
    assert_eq!(cached_godmode(&c, "u_b", 10), None);
}

#[test]
fn resolved_principals_merge_single() {
    let body = PermissionBody { principals: vec!["u_a".to_string()], principal: Some("g_b".to_string()) };
    assert_eq!(body.resolved_principals(), vec!["u_a".to_string(), "g_b".to_string()]);
    let dup = PermissionBody { principals: vec!["u_a".to_string()], principal: Some("u_a".to_string()) };
    assert_eq!(dup.resolved_principals(), vec!["u_a".to_string()]);
}

#[test]
fn permission_targets_need_one() {
    let empty = PermissionBody { principals: vec![], principal: None };
    match permission_targets(empty) {
        Err(AppError::BadRequest(m)) => assert_eq!(m, "at least one principal must be provided"),
        _ => panic!("expected bad request"),
    }
}

#[test]
fn permission_manager_required() {
    let nobody = Caller { principals: vec!["u_a".to_string()], super_permissions: vec![] };
    assert!(matches!(require_permission_manager(&nobody), Err(AppError::Forbidden(_))));
    let admin = Caller { principals: vec!["u_a".to_string()], super_permissions: vec!["adm_godmode".to_string()] };
    assert!(require_permission_manager(&admin).is_ok());
}

#[test]
fn permission_change_response_shape() {
    let r = permission_change_response("adm_godmode", &vec!["u_a".to_string()], true);
    assert_eq!(field(&r, "permission"), Some("adm_godmode".to_string()));
    assert!(matches!(r.get("granted_to"), Some(Json::Array(a)) if a.len() == 1));
    let r2 = permission_change_response("adm_godmode", &vec![], false);
    assert!(matches!(r2.get("revoked_from"), Some(Json::Array(a)) if a.is_empty()));
}

#[test]
fn resolve_ids_sorted_and_deduplicated() {
    let body = ResolveBody { ids: vec!["u_b".to_string(), "g_a".to_string(), "u_b".to_string()] };
    let ids = resolve_request_ids(&body).ok().unwrap();
    assert_eq!(ids.as_vec(), &vec!["g_a".to_string(), "u_b".to_string()]);
}

#[test]
fn resolve_ids_limit() {
    let body = ResolveBody { ids: (0..501).map(|i| format!("u_{}", i)).collect() };
    match resolve_request_ids(&body) {
        Err(AppError::BadRequest(m)) => assert_eq!(m, "Maximum 500 IDs per request"),
        _ => panic!("expected limit error"),
    }
    let ok = ResolveBody { ids: (0..500).map(|i| format!("u_{}", i)).collect() };
    assert!(resolve_request_ids(&ok).is_ok());
}

#[test]
fn resolve_flow_uses_cache_and_negative_caching() {
    let mut cache = CacheStore::with_default_caches();
    cache.set(PRINCIPAL_INFO_CACHE, "u_a".to_string(), obj(&[("type", "user"), ("name", "A")]), 0);
    let body = ResolveBody { ids: vec!["u_a".to_string(), "g_x".to_string(), "zz".to_string()] };
    let ids = resolve_request_ids(&body).ok().unwrap();
    let (mut result, misses) = serve_from_cache(&cache, &ids, false, 1);
    assert_eq!(misses.as_vec(), &vec!["g_x".to_string(), "zz".to_string()]);
    assert!(result.contains_key("u_a"));
    let found = vec![obj(&[("id", "g_x"), ("type", "group"), ("name", "X")])];
    let index = principal_info_index(found);
    record_resolved(&mut cache, &mut result, index, &misses, 2);
    let gx = result.get("g_x").unwrap();
    assert_eq!(field(gx, "name"), Some("X".to_string()));
    assert_eq!(field(gx, "id"), None);
    assert_eq!(field(result.get("zz").unwrap(), "error"), Some("not_found".to_string()));
    assert_eq!(field(cache.get(PRINCIPAL_INFO_CACHE, "zz", 3).unwrap(), "error"), Some("not_found".to_string()));
    assert_eq!(field(cache.get(PRINCIPAL_INFO_CACHE, "g_x", 3).unwrap(), "type"), Some("group".to_string()));
}

#[test]
fn no_cache_makes_every_id_a_miss() {
    let mut cache = CacheStore::with_default_caches();
    cache.set(PRINCIPAL_INFO_CACHE, "u_a".to_string(), obj(&[("type", "user")]), 0);
    let ids = resolve_request_ids(&ResolveBody { ids: vec!["u_a".to_string()] }).ok().unwrap();
    let (result, misses) = serve_from_cache(&cache, &ids, true, 1);
    assert_eq!(result.len(), 0);
    assert_eq!(misses.as_vec().len(), 1);
}

#[test]
fn index_last_document_wins() {
    let found = vec![obj(&[("id", "u_a"), ("name", "first")]), obj(&[("id", "u_a"), ("name", "second")]),
        obj(&[("name", "no id")])];
    let index = principal_info_index(found);
    assert_eq!(index.len(), 1);
    assert_eq!(field(index.get("u_a").unwrap(), "name"), Some("second".to_string()));
}

#[test]
fn not_found_card() {
    assert_eq!(field(&not_found_info(), "error"), Some("not_found".to_string()));
}
