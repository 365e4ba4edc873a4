use axum_api::acl::{parse_acl, parse_flags_text, Permissions};
use axum_api::documents::{inject_create_defaults, inject_create_defaults_at, standard_to_external, standard_to_internal};
use axum_api::error::AppError;
use axum_api::json::{Json, JsonNumber, JsonObject};
use axum_api::kinds::{bare_code, composite_key, validate_kind, validate_ticket_group_id, Kind};
use axum_api::session::Auth;
use axum_api::policy::{can_modify_group, membership_can_read, Caller};

fn value_to_json(v: &serde_json::Value) -> Json {
    match v {
        serde_json::Value::Null => Json::Null,
        serde_json::Value::Bool(b) => Json::Bool(*b),
        serde_json::Value::Number(n) => match (n.as_u64(), n.as_i64()) {
            (Some(u), _) => Json::Number(JsonNumber::PosInt(u)),
            (None, Some(i)) => Json::Number(JsonNumber::NegInt(i)),
            _ => Json::Number(JsonNumber::FloatBits(n.as_f64().unwrap().to_bits())),
        },
        serde_json::Value::String(s) => Json::String(s.clone()),
        serde_json::Value::Array(a) => Json::Array(a.iter().map(value_to_json).collect()),
        serde_json::Value::Object(m) => {
            let mut o = JsonObject::new();
            for (k, v) in m {
                o.insert(k.clone(), value_to_json(v));
            }
            Json::Object(o)
        }
    }
}

fn parse(text: &str) -> Json {
    value_to_json(&serde_json::from_str(text).unwrap())
}

fn who(ps: &[&str], supers: &[&str]) -> Caller {
    Caller {
        principals: ps.iter().map(|s| s.to_string()).collect(),
        super_permissions: supers.iter().map(|s| s.to_string()).collect(),
    }
}

#[test]
fn acl_numeric_and_text_forms() {
    let d = parse(r#"{"acl": {"list": [{"permissions": 7, "principals": ["u_a"]},
        {"permissions": "CREATE | MODIFY", "principals": ["g_b"]}]}}"#);
    let acl = parse_acl(&d).ok().unwrap();
    assert!(acl.check_permission(&["u_a".to_string()], Permissions::read()));
    assert!(!acl.check_permission(&["u_a".to_string()], Permissions::modify()));
    assert!(acl.check_permission(&["g_b".to_string()], Permissions::write()));
    let both = acl.effective_permissions(&["u_a".to_string(), "g_b".to_string()]);
    assert_eq!(both.bits(), 31);
    assert!(parse_acl(&parse(r#"{"acl": {"list": [{"permissions": 64, "principals": []}]}}"#)).is_err());
    assert!(parse_acl(&parse("{}")).is_err());
    assert_eq!(parse_flags_text("FETCH | LIST").map(|p| p.bits()), Some(3));
}

#[test]
fn creator_gets_root_acl() {
    let mut body = parse(r#"{"id": "team", "name": "Team"}"#);
    Kind::Groups.prepare_create_at(&mut body, "u_alice", "2024-01-01T00:00:00Z");
    let acl = parse_acl(&body).ok().unwrap();
    assert!(acl.check_permission(&["u_alice".to_string()], Permissions::root()));
    let c = who(&["u_alice"], &[]);
    assert!(Kind::Groups.can_write(&c, Some(&body)));
    assert!(Kind::Groups.can_read(&c, Some(&body)));
    assert!(!Kind::Groups.can_write(&who(&["u_bob"], &[]), Some(&body)));
    assert!(can_modify_group(&c, Some(&body)));
    assert!(membership_can_read(&who(&["u_bob"], &["adm_user_manager"]), None));
}

#[test]
fn create_defaults_stamped() {
    let mut body = parse(r#"{"id": "x", "labels": {"a": "b"}}"#);
    inject_create_defaults_at(&mut body, "u_a", "NOW");
    assert!(matches!(body.get("annotations"), Some(Json::Object(o)) if o.len() == 0));
    let state = body.get("state").unwrap();
    assert!(matches!(state.get("created_by"), Some(Json::String(s)) if s == "u_a"));
    assert!(matches!(state.get("created_at"), Some(Json::String(s)) if s == "NOW"));
    assert!(matches!(body.get("labels"), Some(Json::Object(o)) if o.len() == 1));
}

#[test]
fn rename_roundtrip() {
    let back = standard_to_external(standard_to_internal(parse(r#"{"id": "x", "v": 1}"#)));
    assert!(matches!(back.get("id"), Some(Json::String(s)) if s == "x"));
    assert!(back.get("_key").is_none());
}

#[test]
fn kind_names_validated() {
    assert!(validate_kind("tasks_2").is_ok());
    assert!(matches!(validate_kind(""), Err(AppError::BadRequest(m)) if m == "kind must not be empty"));
    assert!(matches!(validate_kind("a-b"), Err(AppError::BadRequest(m))
        if m == "kind must contain only alphanumeric characters and underscores"));
    assert_eq!(Kind::for_kind("ticketgroups"), Kind::TicketGroups);
    assert_eq!(Kind::for_kind("whatever"), Kind::Default);
}

#[test]
fn ticket_group_ids() {
    assert_eq!(validate_ticket_group_id("tg_BUG"), Ok("BUG"));
    assert_eq!(validate_ticket_group_id("B").unwrap_err(), "ticket group id must be 2-6 capital letters, got 'B' (1 chars)");
    assert_eq!(validate_ticket_group_id("Bug").unwrap_err(), "ticket group id must be uppercase letters A-Z only, got 'Bug'");
    assert_eq!(bare_code("tg_OPS"), "OPS");
    assert_eq!(composite_key("p1", "OPS"), "p1__OPS");
    assert_eq!(Kind::TicketGroups.scoped_db_key("p1", "tg_OPS"), "p1__OPS");
    assert_eq!(Kind::TicketGroups.scoped_db_key("p1", "p1__OPS"), "p1__OPS");
    assert_eq!(Kind::Groups.scoped_db_key("p1", "g_a"), "g_a");
}

#[test]
fn ticket_group_external_id() {
    let ext = Kind::TicketGroups.to_external(parse(r#"{"_key": "p1__OPS", "name": "Ops"}"#));
    assert!(matches!(ext.get("id"), Some(Json::String(s)) if s == "tg_OPS"));
}

#[test]
fn password_hash_is_bcrypt() {
    let auth = Auth::new(b"k", 1);
    let h = auth.hash_password("secret").unwrap();
    assert_eq!(h.len(), 60);
    assert!(auth.verify_password("secret", &h).unwrap());
    assert!(!auth.verify_password("other", &h).unwrap());
    assert!(matches!(auth.verify_password("secret", "short"), Err(AppError::Internal(_))));
    assert_ne!(h, "secret");
    assert!(bcrypt::verify("secret", &h).unwrap());
}

#[test]
fn user_internal_form_hashes_password() {
    let r = Kind::Users.to_internal(parse(r#"{"id": "Alice", "password": "pw"}"#)).ok().unwrap();
    assert!(matches!(r.get("_key"), Some(Json::String(s)) if s == "u_alice"));
    assert!(r.get("password").is_none());
    assert!(matches!(r.get("password_hash"), Some(Json::String(s)) if s.len() == 60));
}

#[test]
fn created_user_can_log_in_with_its_password() {
    let r = Kind::Users.to_internal(parse(r#"{"id": "Bob", "password": "hunter2"}"#)).ok().unwrap();
    let h = match r.get("password_hash") {
        Some(Json::String(s)) => s.clone(),
        _ => panic!("no hash"),
    };
    assert!(axum_api::models::check_login(Some(&h), "hunter2").is_ok());
    assert!(axum_api::models::check_login(Some(&h), "hunter3").is_err());
}

#[test]
fn user_without_password_is_converted() {
    let r = Kind::Users.to_internal(parse(r#"{"id": "Carol", "password_hash": "kept"}"#)).ok().unwrap();
    assert!(matches!(r.get("password_hash"), Some(Json::String(s)) if s == "kept"));
    assert!(r.get("personal").is_some());
}

#[test]
fn external_then_internal_restores_stored_document() {
    let stored = r#"{"_key": "x", "labels": {"team": "a"}, "v": 1}"#;
    let back = standard_to_internal(standard_to_external(parse(stored)));
    let orig = parse(stored);
    let (b, o) = (back.as_object().expect("not an object"), orig.as_object().unwrap());
    assert_eq!(b.len(), o.len());
    for key in ["_key", "labels", "v"] {
        assert_eq!(b.get(key), o.get(key), "{}", key);
    }
}

#[test]
fn creation_timestamps_are_rfc3339() {
    let mut body = parse(r#"{"id": "x"}"#);
    inject_create_defaults(&mut body, "u_a");
    let state = body.get("state").expect("no state");
    for field in ["created_at", "updated_at"] {
        match state.get(field) {
            Some(Json::String(t)) => assert!(chrono::DateTime::parse_from_rfc3339(t).is_ok(), "{} = {}", field, t),
            _ => panic!("{} missing", field),
        }
    }
}
