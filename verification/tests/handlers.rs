use axum_api::acl::{parse_acl, Permissions};
use axum_api::error::AppError;
use axum_api::handlers::{attach_history, check_client_hash, classify_create_error, classify_delete_error,
    classify_update_error, create_forbidden, final_key, gate, id_response, inject_hash, list_response,
    not_scoped_error, object_not_found, project_not_found, required_body_id, scoped_access_allowed,
    scoped_create_allowed, update_need, upsert_admit, upsert_need, upsert_outcome, DefaultKindController,
    UpsertAction, UpsertNeed};
use axum_api::json::{Json, JsonNumber, JsonObject};
use axum_api::kinds::Kind;
use axum_api::policy::Caller;

fn to_json(v: &serde_json::Value) -> Json {
    match v {
        serde_json::Value::Null => Json::Null,
        serde_json::Value::Bool(b) => Json::Bool(*b),
        serde_json::Value::Number(n) => match (n.as_u64(), n.as_i64()) {
            (Some(u), _) => Json::Number(JsonNumber::PosInt(u)),
            (None, Some(i)) => Json::Number(JsonNumber::NegInt(i)),
            _ => Json::Number(JsonNumber::FloatBits(n.as_f64().unwrap().to_bits())),
        },
        serde_json::Value::String(s) => Json::String(s.clone()),
        serde_json::Value::Array(a) => Json::Array(a.iter().map(to_json).collect()),
        serde_json::Value::Object(m) => {
            let mut o = JsonObject::new();
            for (k, v) in m {
                o.insert(k.clone(), to_json(v));
            }
            Json::Object(o)
        }
    }
}

fn doc(text: &str) -> Json {
    to_json(&serde_json::from_str(text).unwrap())
}

fn caller(ps: &[&str], supers: &[&str]) -> Caller {
    Caller {
        principals: ps.iter().map(|s| s.to_string()).collect(),
        super_permissions: supers.iter().map(|s| s.to_string()).collect(),
    }
}

#[test]
fn stale_hash_is_conflict() {
    let body = doc(r#"{"hash_code": "abc"}"#);
    let existing = doc(r#"{"hash_code": "xyz"}"#);
    match check_client_hash("groups", "g_a", &body, &existing) {
        Err(AppError::Conflict(m)) => assert_eq!(m,
            "groups/g_a was modified since last read (expected hash abc, server has xyz)"),
        _ => panic!("expected conflict"),
    }
    assert!(check_client_hash("groups", "g_a", &body, &doc(r#"{"hash_code": "abc"}"#)).is_ok());
    assert!(check_client_hash("groups", "g_a", &body, &doc(r#"{"hash_code": ""}"#)).is_ok());
    assert!(check_client_hash("groups", "g_a", &doc("{}"), &existing).is_ok());
}

#[test]
fn denied_access_looks_like_absence() {
    assert!(gate("groups", "g_a", true, false).is_ok());
    assert!(gate("groups", "g_a", false, true).is_ok());
    match gate("groups", "g_a", false, false) {
        Err(AppError::NotFound(m)) => assert_eq!(m, "groups/g_a"),
        _ => panic!("expected not found"),
    }
}

#[test]
fn storage_errors_classified() {
    assert!(matches!(classify_create_error("k", "i", "unique constraint violated"), AppError::Conflict(m) if m == "k/i already exists"));
    assert!(matches!(classify_create_error("k", "i", "disk full"), AppError::Internal(m) if m == "disk full"));
    assert!(matches!(classify_update_error("k", "i", "document not found"), AppError::NotFound(m) if m == "k/i"));
    assert!(matches!(classify_delete_error("k", "i", "not found or already deleted"), AppError::NotFound(_)));
    assert!(matches!(classify_delete_error("k", "i", "x"), AppError::Internal(_)));
}

#[test]
fn error_messages() {
    assert!(matches!(object_not_found("tasks", "t_1"), AppError::NotFound(m) if m == "tasks/t_1"));
    assert!(matches!(project_not_found("p1"), AppError::NotFound(m) if m == "projects/p1"));
    assert!(matches!(not_scoped_error("users"), AppError::BadRequest(m) if m == "'users' is not a project-scoped resource kind"));
    assert!(matches!(create_forbidden("groups", "x"), AppError::Forbidden(m) if m == "not allowed to create groups/x"));
    assert!(matches!(required_body_id(&doc("{}")), Err(AppError::BadRequest(m)) if m == "missing 'id' field in request body"));
    assert_eq!(required_body_id(&doc(r#"{"id": "x"}"#)).ok(), Some("x".to_string()));
}

#[test]
fn list_response_shapes() {
    let plain = list_response(vec![Json::Null], false, true, Some("c".to_string()));
    assert!(plain.get("has_more").is_none());
    let paged = list_response(vec![], true, true, Some("c".to_string()));
    assert!(matches!(paged.get("has_more"), Some(Json::Bool(true))));
    assert!(matches!(paged.get("next_cursor"), Some(Json::String(s)) if s == "c"));
    let last = list_response(vec![], true, false, None);
    assert!(last.get("next_cursor").is_none());
}

#[test]
fn ids_and_hashes() {
    let r = id_response("g_a");
    assert!(matches!(r.get("id"), Some(Json::String(s)) if s == "g_a"));
    let mut d = doc(r#"{"_key": "tg_X"}"#);
    inject_hash(&mut d, "h1");
    assert!(matches!(d.get("hash_code"), Some(Json::String(s)) if s == "h1"));
    assert_eq!(final_key(&d, "fallback"), "tg_X");
    assert_eq!(final_key(&doc("{}"), "fallback"), "fallback");
    assert_eq!(upsert_outcome(true), ("updated", 200));
    assert_eq!(upsert_outcome(false), ("created", 201));
}

#[test]
fn history_attached_on_request() {
    let mut r = doc(r#"{"id": "a"}"#);
    attach_history(&mut r, Some("false"), Some(Json::Null));
    assert!(r.get("_history").is_none());
    attach_history(&mut r, Some("true"), Some(Json::Bool(true)));
    assert!(matches!(r.get("_history"), Some(Json::Bool(true))));
}

#[test]
fn super_bypass_rules() {
    let plain = caller(&["u_a"], &[]);
    let editor = caller(&["u_a"], &["adm_config_editor"]);
    assert!(Kind::Default.global_super_bypass(&plain, false));
    assert!(!Kind::Default.scoped_super_bypass(&plain, false));
    assert!(!Kind::Projects.global_super_bypass(&plain, false));
    assert!(Kind::Projects.global_super_bypass(&editor, false));
    assert!(Kind::Crds.global_super_bypass(&plain, true));
    assert_eq!(Kind::Crds.super_permission(), Some("adm_godmode"));
    assert_eq!(Kind::Groups.list_projection_fields(), Some(vec!["_key", "name", "acl", "meta"]));
}

#[test]
fn hybrid_acl_falls_back_to_project() {
    let project = doc(r#"{"acl": {"list": [{"permissions": 31, "principals": ["u_lead"]},
        {"permissions": 7, "principals": ["g_dev"], "scope": "other"}]}}"#);
    let own = doc(r#"{"acl": {"list": [{"permissions": 7, "principals": ["u_reader"]}]}}"#);
    let bare = doc(r#"{"title": "x"}"#);
    let lead = caller(&["u_lead"], &[]);
    let reader = caller(&["u_reader"], &[]);
    let dev = caller(&["g_dev"], &[]);
    assert!(scoped_access_allowed(Kind::TicketGroups, &lead, false, &bare, &project, Permissions::modify()));
    assert!(!scoped_access_allowed(Kind::TicketGroups, &dev, false, &bare, &project, Permissions::read()));
    assert!(scoped_access_allowed(Kind::TicketGroups, &reader, false, &own, &project, Permissions::read()));
    assert!(!scoped_access_allowed(Kind::TicketGroups, &lead, false, &own, &project, Permissions::read()));
    assert!(scoped_access_allowed(Kind::TicketGroups, &dev, true, &bare, &project, Permissions::modify()));
    let acl = parse_acl(&project).ok().unwrap();
    assert!(Kind::TicketGroups.check_hybrid_acl(&bare, &["u_lead".to_string()], Permissions::read(), Some(&acl)));
    assert!(!Kind::TicketGroups.check_hybrid_acl(&bare, &["u_lead".to_string()], Permissions::read(), None));
    assert!(scoped_create_allowed(&lead, false, &project));
    assert!(!scoped_create_allowed(&dev, false, &project));
}

#[test]
fn default_controller_is_permissive() {
    let c = DefaultKindController;
    let who = caller(&[], &[]);
    assert!(c.can_read(&who, None));
    assert!(c.can_write(&who, None));
    let internal = c.to_internal(doc(r#"{"id": "x", "v": 1}"#)).ok().unwrap();
    assert!(matches!(internal.get("_key"), Some(Json::String(s)) if s == "x"));
    let external = c.to_external(doc(r#"{"_key": "x", "_rev": "1"}"#));
    assert!(matches!(external.get("id"), Some(Json::String(s)) if s == "x"));
    assert!(external.get("_rev").is_none());
    assert!(external.get("labels").is_some());
}

#[test]
fn upsert_steps() {
    let body = doc(r#"{"hash_code": "aaa"}"#);
    let same = doc(r#"{"hash_code": "aaa"}"#);
    let other = doc(r#"{"hash_code": "bbb"}"#);
    assert!(matches!(upsert_need("tasks", "t1", &body, None), Ok(UpsertNeed::Create)));
    assert!(matches!(upsert_need("tasks", "t1", &body, Some(&same)), Ok(UpsertNeed::Write)));
    assert!(matches!(upsert_need("tasks", "t1", &body, Some(&other)),
        Err(AppError::Conflict(m)) if m == "tasks/t1 was modified since last read (expected hash aaa, server has bbb)"));
    assert!(matches!(update_need("tasks", "t1", &body, None), Err(AppError::NotFound(m)) if m == "tasks/t1"));
    assert!(matches!(update_need("tasks", "t1", &body, Some(&other)), Err(AppError::Conflict(_))));
    assert!(matches!(upsert_admit("tasks", "t1", UpsertNeed::Write, false, true), Ok(UpsertAction::Update)));
    assert!(matches!(upsert_admit("tasks", "t1", UpsertNeed::Create, true, false), Ok(UpsertAction::PrepareAndCreate)));
    assert!(matches!(upsert_admit("tasks", "t1", UpsertNeed::Create, false, false),
        Err(AppError::NotFound(m)) if m == "tasks/t1"));
}
