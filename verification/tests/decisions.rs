use axum_api::cascade::{after_create_action, after_delete_action, after_update_action, AfterCreate, AfterDelete, AfterUpdate};
use axum_api::debug::{classify_dump_error, require_user_param};
use axum_api::models::user_document_key;
use axum_api::repo_check::{credential_read_access, project_write_access, repo_check_supported, static_path_allowed};
use axum_api::queries::{acl_list_query, acl_search_query, events_query, scoped_list_query, ACL_PASS_FILTER, PROJECT_ACL_PRELUDE, SCOPED_ACL_FILTER};
use axum_api::history::{disconnected_edges, history_entry_id, next_revision, soft_delete_paths, upsert_retry_delay};
use axum_api::storage::{s3_endpoint, store_backend, StoreBackend};
use axum_api::session::Auth;
use axum_api::models::{check_login, session_expiry};
use axum_api::kinds::Kind;
use axum_api::access::{access_result, build_response, my_permissions_response, needs_project_acl};
use axum_api::acl::{parse_acl, Permissions, Timestamp};
use axum_api::cascade::{group_now_empty, group_of_membership_key, CascadeStack};
use axum_api::debug::{add_resource_findings, decision_report, matching_entries, report_base, split_resource};
use axum_api::error::AppError;
use axum_api::imaging::{ImageInputFormat, UploadType};
use axum_api::json::{Json, JsonNumber, JsonObject};
use axum_api::policy::Caller;
use axum_api::queries::{
    events_page_size, generic_list_query, limit_clause, membership_edge, paginate, return_clause,
};
use axum_api::upload::{
    check_file, check_upload_access, content_length_check, ulid_field, upload_response, upload_target,
    Cleanup, UploadJob, UploadPhase,
};

fn serde_to_doc(v: &serde_json::Value) -> Json {
    match v {
        serde_json::Value::Null => Json::Null,
        serde_json::Value::Bool(b) => Json::Bool(*b),
        serde_json::Value::Number(n) => match (n.as_u64(), n.as_i64()) {
            (Some(u), _) => Json::Number(JsonNumber::PosInt(u)),
            (None, Some(i)) => Json::Number(JsonNumber::NegInt(i)),
            _ => Json::Number(JsonNumber::FloatBits(n.as_f64().unwrap().to_bits())),
        },
        serde_json::Value::String(s) => Json::String(s.clone()),
        serde_json::Value::Array(a) => Json::Array(a.iter().map(serde_to_doc).collect()),
        serde_json::Value::Object(m) => {
            let mut o = JsonObject::new();
            for (k, v) in m {
                o.insert(k.clone(), serde_to_doc(v));
            }
            Json::Object(o)
        }
    }
}

fn doc_of(text: &str) -> Json {
    serde_to_doc(&serde_json::from_str(text).unwrap())
}

fn caller_of(ps: &[&str], supers: &[&str]) -> Caller {
    Caller {
        principals: ps.iter().map(|s| s.to_string()).collect(),
        super_permissions: supers.iter().map(|s| s.to_string()).collect(),
    }
}

fn str_field<'a>(j: &'a Json, k: &str) -> Option<&'a str> {
    j.get(k).and_then(|v| v.as_str())
}

fn bool_field(j: &Json, k: &str) -> Option<bool> {
    match j.get(k) {
        Some(Json::Bool(b)) => Some(*b),
        _ => None,
    }
}

fn uint_field(j: &Json, k: &str) -> Option<u64> {
    match j.get(k) {
        Some(Json::Number(JsonNumber::PosInt(u))) => Some(*u),
        _ => None,
    }
}

fn strings(v: &[&str]) -> Vec<String> {
    v.iter().map(|s| s.to_string()).collect()
}

#[test]
fn access_report_lists_each_flag() {
    let r = build_response("projects", "p1", Permissions::read());
    assert_eq!(str_field(&r, "kind"), Some("projects"));
    assert_eq!(str_field(&r, "id"), Some("p1"));
    assert_eq!(uint_field(&r, "permission_bits"), Some(7));
    assert_eq!(bool_field(&r, "can_fetch"), Some(true));
    assert_eq!(bool_field(&r, "can_list"), Some(true));
    assert_eq!(bool_field(&r, "can_notify"), Some(true));
    assert_eq!(bool_field(&r, "can_create"), Some(false));
    assert_eq!(bool_field(&r, "can_modify"), Some(false));
    assert_eq!(r.as_object().unwrap().len(), 8);
}

#[test]
fn access_check_outcomes() {
    let doc = doc_of(r#"{"acl": {"list": [{"permissions": 3, "principals": ["u_a"]},
        {"permissions": 2, "principals": ["g_list"]}]}}"#);
    let alice = caller_of(&["u_a"], &[]);
    let r = access_result("projects", "p", &alice, Some(&doc), None).ok().unwrap();
    assert_eq!(uint_field(&r, "permission_bits"), Some(3));
    // LIST without FETCH reads as absent
    let lister = caller_of(&["g_list"], &[]);
    assert!(matches!(access_result("projects", "p", &lister, Some(&doc), None),
        Err(AppError::NotFound(m)) if m == "not found"));
    assert!(matches!(access_result("projects", "p", &alice, None, None), Err(AppError::NotFound(_))));
    let god = caller_of(&["u_z"], &["adm_godmode"]);
    let r = access_result("projects", "p", &god, Some(&doc), None).ok().unwrap();
    assert_eq!(uint_field(&r, "permission_bits"), Some(31));
}

#[test]
fn access_check_falls_back_to_project_acl() {
    let own = doc_of(r#"{"id": "t1"}"#);
    let project = doc_of(r#"{"acl": {"list": [{"permissions": 31, "principals": ["u_a"]}]}}"#);
    assert!(needs_project_acl(&own));
    assert!(!needs_project_acl(&project));
    let r = access_result("tickets", "t1", &caller_of(&["u_a"], &[]), Some(&own), Some(&project)).ok().unwrap();
    assert_eq!(uint_field(&r, "permission_bits"), Some(31));
    assert_eq!(bool_field(&r, "can_modify"), Some(true));
}

#[test]
fn own_super_permissions_listed() {
    let r = my_permissions_response(&strings(&["adm_godmode", "adm_user_manager"]));
    let a = r.get("super_permissions").and_then(|v| v.as_array()).unwrap();
    assert_eq!(a.len(), 2);
    assert_eq!(a[1].as_str(), Some("adm_user_manager"));
}

#[test]
fn resource_parameter_split_at_first_slash() {
    let (k, i) = split_resource("projects/p1/extra").ok().unwrap();
    assert_eq!(k, "projects");
    assert_eq!(i, "p1/extra");
    assert!(matches!(split_resource("projects"),
        Err(AppError::BadRequest(m)) if m == "'resource' must be in format 'kind/id'"));
}

#[test]
fn debug_verdict_reasons() {
    let g = decision_report(16, true, false);
    assert_eq!(bool_field(&g, "granted"), Some(true));
    assert_eq!(str_field(&g, "reason"), Some("godmode bypass"));
    let a = decision_report(1, false, true);
    assert_eq!(str_field(&a, "reason"), Some("ACL match"));
    assert_eq!(uint_field(&a, "required_bits"), Some(1));
    let d = decision_report(1, false, false);
    assert_eq!(bool_field(&d, "granted"), Some(false));
    assert_eq!(str_field(&d, "reason"), Some("denied"));
}

#[test]
fn debug_matching_entries_and_findings() {
    let doc = doc_of(r#"{"acl": {"list": [{"permissions": 1, "principals": ["u_x"]},
        {"permissions": 24, "principals": ["u_a", "g_team"]}]}}"#);
    let acl = parse_acl(&doc).ok().unwrap();
    let ps = strings(&["u_a", "g_team"]);
    let m = matching_entries(&acl, &ps);
    assert_eq!(m.len(), 1);
    assert_eq!(uint_field(&m[0], "entry_index"), Some(1));
    assert_eq!(uint_field(&m[0], "permission_bits"), Some(24));
    let mp = m[0].get("matching_principals").and_then(|v| v.as_array()).unwrap();
    assert_eq!(mp.len(), 2);

    let mut report = report_base("u_a", &ps, &Vec::new());
    assert_eq!(report.len(), 3);
    add_resource_findings(&mut report, Some(doc.copy()), &ps, &Vec::new(), Some("16")).ok().unwrap();
    let report = Json::Object(report);
    assert_eq!(bool_field(&report, "resource_found"), Some(true));
    let verdict = report.get("access_result").unwrap();
    assert_eq!(bool_field(verdict, "granted"), Some(true));

    let mut bad = report_base("u_a", &ps, &Vec::new());
    assert!(matches!(add_resource_findings(&mut bad, Some(doc.copy()), &ps, &Vec::new(), Some("300")),
        Err(AppError::BadRequest(m)) if m == "'permission' must be a numeric u8 value"));

    let mut missing = report_base("u_a", &ps, &Vec::new());
    add_resource_findings(&mut missing, None, &ps, &Vec::new(), None).ok().unwrap();
    assert_eq!(bool_field(&Json::Object(missing), "resource_found"), Some(false));
}

#[test]
fn pagination_drops_sentinel_row() {
    let rows: Vec<Json> = (0..4).map(|i| doc_of(&format!(r#"{{"_key": "k{}"}}"#, i))).collect();
    let page = paginate(rows, Some(3));
    assert!(page.has_more);
    assert_eq!(page.docs.len(), 3);
    assert_eq!(page.next_cursor.as_deref(), Some("k2"));
    let rows: Vec<Json> = (0..2).map(|i| doc_of(&format!(r#"{{"_key": "k{}"}}"#, i))).collect();
    let page = paginate(rows, Some(3));
    assert!(!page.has_more);
    assert_eq!(page.docs.len(), 2);
    assert_eq!(page.next_cursor, None);
}

#[test]
fn event_pages_join_up_by_key_cursor() {
    // The listing in the event query's order: newest moment first, ties by key.
    // Keys do not follow moments.
    let events = [
        ("2025-03-01T10:00:00+00:00", "3"),
        ("2025-03-01T09:00:00+00:00", "7"),
        ("2025-03-01T09:00:00+00:00", "5"),
        ("2025-02-28T23:00:00+00:00", "9"),
        ("2025-02-01T00:00:00+00:00", "1"),
    ];
    let limit: u32 = 2;
    let mut seen: Vec<String> = Vec::new();
    let mut cursor: Option<String> = None;
    loop {
        // What the query returns: the events after the cursor's document,
        // in (moment, key) order from the top, `limit + 1` of them.
        let cur = cursor.as_deref().map(|c| *events.iter().find(|e| e.1 == c).expect("cursor event"));
        let rows: Vec<Json> = events.iter()
            .filter(|e| cur.map_or(true, |c| e.0 < c.0 || (e.0 == c.0 && e.1 < c.1)))
            .take(limit as usize + 1)
            .map(|e| doc_of(&format!(r#"{{"moment": "{}", "_key": "{}"}}"#, e.0, e.1)))
            .collect();
        let page = paginate(rows, Some(limit));
        assert!(page.docs.len() <= limit as usize);
        for d in &page.docs {
            match d.get("_key") {
                Some(Json::String(k)) => seen.push(k.clone()),
                _ => panic!("no key"),
            }
        }
        if !page.has_more {
            break;
        }
        cursor = page.next_cursor;
        assert!(cursor.is_some());
    }
    assert_eq!(seen, vec!["3", "7", "5", "9", "1"]);
}

#[test]
fn list_query_text() {
    assert_eq!(limit_clause(Some(20)), "LIMIT 21");
    assert_eq!(limit_clause(None), "");
    assert_eq!(return_clause(None), "RETURN doc");
    assert_eq!(return_clause(Some(&["_key", "name"])), r#"RETURN KEEP(doc, "_key", "name")"#);
    assert_eq!(
        generic_list_query(true, Some(2), None),
        "FOR doc IN @@col FILTER doc._key > @cursor AND doc.deletion == null SORT doc._key ASC LIMIT 3 RETURN doc"
    );
    assert_eq!(
        generic_list_query(false, None, None),
        "FOR doc IN @@col FILTER doc.deletion == null SORT doc._key ASC  RETURN doc"
    );
}

#[test]
fn membership_edge_fields() {
    let e = membership_edge("u_alice", "team");
    assert_eq!(str_field(&e, "_key"), Some("u_alice::team"));
    assert_eq!(str_field(&e, "_from"), Some("users/u_alice"));
    assert_eq!(str_field(&e, "_to"), Some("groups/team"));
    let g = membership_edge("g_ops", "team");
    assert_eq!(str_field(&g, "_from"), Some("groups/g_ops"));
}

#[test]
fn event_page_size_defaults_and_caps() {
    assert_eq!(events_page_size(None), 50);
    assert_eq!(events_page_size(Some("10")), 10);
    assert_eq!(events_page_size(Some("999")), 200);
    assert_eq!(events_page_size(Some("ten")), 50);
}

#[test]
fn upload_request_checks() {
    assert!(matches!(upload_target("users", "avatar"), Ok(UploadType::Avatar)));
    assert!(matches!(upload_target("users", "wallpaper"), Ok(UploadType::Wallpaper)));
    assert!(matches!(upload_target("users", "banner"), Err(AppError::BadRequest(_))));
    assert!(matches!(upload_target("groups", "avatar"), Err(AppError::NotFound(_))));
    assert!(content_length_check(Some("5246976")).is_ok());
    assert!(matches!(content_length_check(Some("5246977")),
        Err(AppError::BadRequest(m)) if m == "request body too large (max 5 MB)"));
    assert!(content_length_check(Some("abc")).is_ok());
    assert!(check_upload_access("u_a", "u_a", &caller_of(&["u_a"], &[])).is_ok());
    assert!(check_upload_access("u_a", "u_b", &caller_of(&["u_a"], &["adm_user_manager"])).is_ok());
    assert!(matches!(check_upload_access("u_a", "u_b", &caller_of(&["u_a"], &[])),
        Err(AppError::NotFound(m)) if m == "user not found"));
}

#[test]
fn uploaded_file_checks() {
    let mut png = vec![0x89u8, 0x50, 0x4E, 0x47, 0x0D, 0x0A, 0x1A, 0x0A];
    png.extend_from_slice(&[0u8; 8]);
    assert!(matches!(check_file(&png), Ok(ImageInputFormat::Png)));
    assert!(matches!(check_file(b"GIF89a......"), Err(AppError::BadRequest(_))));
    let big = vec![0xFFu8; 5_242_881];
    assert!(matches!(check_file(&big), Err(AppError::BadRequest(m)) if m == "file too large (max 5 MB)"));
}

#[test]
fn upload_job_paths() {
    let job = UploadJob::new("01HXYZ", ImageInputFormat::Jpeg, UploadType::Avatar, "u_a");
    assert_eq!(job.ulid, "01hxyz");
    assert_eq!(job.filename, "01hxyz.jpg");
    assert_eq!(job.raw_path, "raw_uploads/01hxyz.jpg");
    assert_eq!(job.hd_path, "user_avatars/01hxyz_hd.webp");
    assert_eq!(job.thumb_path, "user_avatars/01hxyz_thumb.webp");
    assert_eq!(ulid_field(UploadType::Wallpaper), "wallpaper_ulid");
    assert_eq!(str_field(&upload_response(&job), "ulid"), Some("01hxyz"));
}

fn cleanup_text(c: &Cleanup) -> String {
    match c {
        Cleanup::DeleteObject(p) => format!("object:{}", p),
        Cleanup::DeleteUnprocessed(u) => format!("record:{}", u),
    }
}

#[test]
fn conversion_failure_removes_stored_outputs() {
    let job = UploadJob::new("ABC", ImageInputFormat::Png, UploadType::Wallpaper, "u_a");
    let (next, cleanups) = job.step(UploadPhase::StoreHd, true);
    assert_eq!(next, UploadPhase::StoreThumb);
    assert!(cleanups.is_empty());
    let (next, cleanups) = job.step(UploadPhase::RecordFile, false);
    assert_eq!(next, UploadPhase::Failed);
    let texts: Vec<String> = cleanups.iter().map(cleanup_text).collect();
    assert_eq!(texts, vec![
        "object:user_wallpapers/abc_hd.webp".to_string(),
        "object:user_wallpapers/abc_thumb.webp".to_string(),
        "object:raw_uploads/abc.png".to_string(),
        "record:abc".to_string(),
    ]);
    let (next, cleanups) = job.step(UploadPhase::RecordFile, true);
    assert_eq!(next, UploadPhase::Finished);
    assert_eq!(cleanups.len(), 2);
    let (next, cleanups) = job.step(UploadPhase::Failed, true);
    assert_eq!(next, UploadPhase::Failed);
    assert!(cleanups.is_empty());
}

#[test]
fn membership_key_names_group() {
    assert_eq!(group_of_membership_key("u_a::team"), Some("team".to_string()));
    assert_eq!(group_of_membership_key("g_x::team::sub"), Some("team::sub".to_string()));
    assert_eq!(group_of_membership_key("u_a:team"), None);
    assert!(group_now_empty(0));
    assert!(!group_now_empty(2));
}

#[test]
fn cascade_visits_depth_first() {
    let mut stack = CascadeStack::from_groups(strings(&["a", "b"]));
    assert_eq!(stack.next_group(), Some("a".to_string()));
    // deleting "a" emptied its parents "p1" and "p2": they go before "b"
    stack.push_empty_parents(strings(&["p1", "p2"]));
    assert_eq!(stack.next_group(), Some("p1".to_string()));
    assert_eq!(stack.next_group(), Some("p2".to_string()));
    assert_eq!(stack.next_group(), Some("b".to_string()));
    assert_eq!(stack.next_group(), None);
}

#[test]
fn repo_check_access_rules() {
    assert!(repo_check_supported("projects").is_ok());
    assert!(matches!(repo_check_supported("groups"),
        Err(AppError::NotFound(m)) if m == "repository check not supported for this resource kind"));
    let project = doc_of(r#"{"acl": {"list": [{"permissions": 16, "principals": ["u_a"]}]}}"#);
    assert!(project_write_access("p1", &caller_of(&["u_a"], &[]), Some(&project)).is_ok());
    assert!(matches!(project_write_access("p1", &caller_of(&["u_b"], &[]), Some(&project)),
        Err(AppError::NotFound(m)) if m == "projects/p1"));
    assert!(project_write_access("p1", &caller_of(&["u_b"], &["adm_godmode"]), None).is_ok());
    assert!(matches!(project_write_access("p1", &caller_of(&["u_a"], &[]), None), Err(AppError::NotFound(_))));
    let cred = doc_of(r#"{"acl": {"list": [{"permissions": 7, "principals": ["u_a"]}]}}"#);
    assert!(credential_read_access("c1", &caller_of(&["u_a"], &[]), Some(&cred)).is_ok());
    assert!(matches!(credential_read_access("c1", &caller_of(&["u_b"], &[]), Some(&cred)),
        Err(AppError::NotFound(m)) if m == "repo_credentials/c1"));
    // even god mode needs the credential to exist
    assert!(credential_read_access("c1", &caller_of(&["u_b"], &["adm_godmode"]), None).is_err());
    assert!(static_path_allowed("user_avatars/01h_hd.webp").is_ok());
    assert!(static_path_allowed("user_wallpapers/x_thumb.webp").is_ok());
    assert!(static_path_allowed("raw_uploads/x.png").is_err());
    assert!(matches!(static_path_allowed("user_avatars/../raw_uploads/x.png"),
        Err(AppError::NotFound(m)) if m == "not found"));
}

#[test]
fn acl_filtered_query_text() {
    assert_eq!(
        acl_list_query(true, Some(5), None),
        format!("FOR doc IN @@col FILTER doc.deletion == null FILTER doc._key > @cursor {} SORT doc._key ASC LIMIT 6 RETURN doc",
            ACL_PASS_FILTER)
    );
    assert_eq!(
        acl_search_query(Some(&["_key"])),
        format!("FOR doc IN @@col FILTER doc.deletion == null FILTER STARTS_WITH(doc._key, @startwith) {} SORT doc._key ASC LIMIT 15 RETURN KEEP(doc, \"_key\")",
            ACL_PASS_FILTER)
    );
    assert_eq!(
        scoped_list_query(false, None, None),
        format!("{}FOR doc IN @@col FILTER doc.project == @project_id FILTER doc.deletion == null {} SORT doc._key ASC  RETURN doc",
            PROJECT_ACL_PRELUDE, SCOPED_ACL_FILTER)
    );
    assert_eq!(events_query(false, false, false), "FOR doc IN system_events  SORT doc.moment DESC, doc._key DESC LIMIT @limit RETURN doc");
    assert_eq!(
        events_query(true, false, true),
        "LET cur = DOCUMENT(\"system_events\", @cursor) FOR doc IN system_events FILTER doc.kind == @kind AND (doc.moment < cur.moment OR (doc.moment == cur.moment AND doc._key < cur._key)) SORT doc.moment DESC, doc._key DESC LIMIT @limit RETURN doc"
    );
}

#[test]
fn history_ids_and_retries() {
    assert_eq!(next_revision(0), 1);
    assert_eq!(history_entry_id("projects", "p1", next_revision(41)), "projects_p1_000042");
    assert_eq!(history_entry_id("groups", "g", 1234567), "groups_g_1234567");
    assert_eq!(upsert_retry_delay(0, Some("write-write conflict 1200")), Some(5));
    assert_eq!(upsert_retry_delay(1, Some("error 1200")), Some(10));
    assert_eq!(upsert_retry_delay(2, Some("error 1200")), None);
    assert_eq!(upsert_retry_delay(0, Some("error 1202")), None);
    assert_eq!(upsert_retry_delay(0, None), None);
    let (from, to) = soft_delete_paths("users", "u_a");
    assert_eq!(from, "users/u_a");
    assert_eq!(to, "groups/u_a");
    let rows = vec![
        doc_of(r#"{"key": "u_a::team", "from": "users/u_a", "to": "groups/team"}"#),
        doc_of(r#"{"key": "broken", "from": "users/u_a"}"#),
    ];
    let edges = disconnected_edges(&rows);
    assert_eq!(edges.len(), 1);
    assert_eq!(edges[0].collection, "memberships");
    assert_eq!(edges[0].key, "u_a::team");
    assert_eq!(edges[0].to, "groups/team");
}

#[test]
fn object_store_backend_choice() {
    assert_eq!(store_backend(""), Ok(None));
    assert_eq!(store_backend("local"), Ok(Some(StoreBackend::Local)));
    assert_eq!(store_backend("s3"), Ok(Some(StoreBackend::S3)));
    assert_eq!(store_backend("webdav"), Ok(Some(StoreBackend::Webdav)));
    assert_eq!(store_backend("gcs"), Err("unsupported backend: gcs".to_string()));
    assert_eq!(s3_endpoint(""), None);
    assert_eq!(s3_endpoint("http://minio:9000"), Some("http://minio:9000"));
}

#[test]
fn login_checks_password_hash() {
    assert!(matches!(check_login(None, "pw"), Err(AppError::Authorization(m)) if m == "Unauthorized"));
    assert!(matches!(check_login(Some("not-a-hash"), "pw"), Err(AppError::Internal(_))));
    let h = Auth::new(b"k", 1).hash_password("secret").ok().unwrap();
    assert!(check_login(Some(&h), "secret").is_ok());
    assert!(matches!(check_login(Some(&h), "wrong"), Err(AppError::Authorization(_))));
    assert_eq!(session_expiry(1000, 7), Some(1000 + 7 * 86400));
    assert_eq!(session_expiry(u64::MAX, 1), None);
}

#[test]
fn list_views_use_brief_form() {
    assert_eq!(Kind::Users.list_projection_fields(), Some(vec!["_key", "personal", "labels", "annotations"]));
    assert_eq!(Kind::TicketGroups.list_projection_fields().map(|v| v.len()), Some(10));
    let doc = doc_of(r#"{"_key": "g_team", "name": "Team", "acl": {"list": []}, "meta": {}, "labels": {"x": "y"}}"#);
    let brief = Kind::Groups.to_list_external(doc);
    assert_eq!(str_field(&brief, "id"), Some("g_team"));
    assert_eq!(str_field(&brief, "name"), Some("Team"));
    assert!(brief.get("labels").is_none());
    assert!(brief.get("_key").is_none());
    let other = Kind::Default.to_list_external(doc_of(r#"{"_key": "k", "x": 1}"#));
    assert_eq!(str_field(&other, "id"), Some("k"));
    assert!(other.get("labels").is_some());
}

#[test]
fn lifecycle_hooks_per_kind() {
    assert_eq!(after_create_action(Kind::Groups), AfterCreate::AddCreatorAsMember);
    assert_eq!(after_create_action(Kind::Projects), AfterCreate::Nothing);
    assert_eq!(after_update_action(Kind::Groups), AfterUpdate::DeleteGroupIfEmpty);
    assert_eq!(after_update_action(Kind::Users), AfterUpdate::Nothing);
    assert_eq!(after_delete_action(Kind::Users, "u_a"), AfterDelete::LeaveAllGroups);
    assert_eq!(after_delete_action(Kind::Groups, "g_a"), AfterDelete::CascadeGroup);
    assert_eq!(after_delete_action(Kind::Memberships, "u_a::team"), AfterDelete::DeleteGroupIfEmpty("team".to_string()));
    assert_eq!(after_delete_action(Kind::Memberships, "broken"), AfterDelete::Nothing);
    assert_eq!(after_delete_action(Kind::Projects, "p"), AfterDelete::Nothing);
}

#[test]
fn small_request_rules() {
    assert_eq!(user_document_key("alice"), "u_alice");
    assert_eq!(user_document_key("u_alice"), "u_alice");
    assert_eq!(require_user_param(Some("u_a")), Ok("u_a"));
    assert!(matches!(require_user_param(None), Err(AppError::BadRequest(m)) if m == "missing 'user' query param"));
    assert!(matches!(classify_dump_error("access to system collections is not allowed"), AppError::BadRequest(_)));
    assert!(matches!(classify_dump_error("connection refused"), AppError::Internal(m) if m == "connection refused"));
}

#[test]
fn acl_modification_time_keeps_full_precision() {
    let d = doc_of(r#"{"acl": {"list": [], "last_mod_date": "2024-01-01T00:00:00Z"}}"#);
    assert_eq!(parse_acl(&d).ok().unwrap().last_mod_date, Timestamp { secs: 1_704_067_200, nanos: 0 });
    let later = doc_of(r#"{"acl": {"list": [], "last_mod_date": "2024-01-01T01:00:00.5+01:00"}}"#);
    assert_eq!(parse_acl(&later).ok().unwrap().last_mod_date, Timestamp { secs: 1_704_067_200, nanos: 500_000_000 });
    let fine = doc_of(r#"{"acl": {"list": [], "last_mod_date": "2024-01-01T00:00:00.123456789Z"}}"#);
    assert_eq!(parse_acl(&fine).ok().unwrap().last_mod_date, Timestamp { secs: 1_704_067_200, nanos: 123_456_789 });
    let bad = doc_of(r#"{"acl": {"list": [], "last_mod_date": "yesterday"}}"#);
    assert_eq!(parse_acl(&bad).ok().unwrap().last_mod_date, Timestamp { secs: 0, nanos: 0 });
}

#[test]
fn history_ids_never_collide() {
    let ids: Vec<String> = [1u64, 10, 100, 999_999, 1_000_000, 10_000_000]
        .iter()
        .map(|r| history_entry_id("tasks", "t1", *r))
        .collect();
    for i in 0..ids.len() {
        for j in 0..ids.len() {
            if i != j {
                assert_ne!(ids[i], ids[j]);
            }
        }
    }
    assert_eq!(ids[0], "tasks_t1_000001");
    assert_eq!(ids[4], "tasks_t1_1000000");
}

#[test]
fn history_ids_sort_by_revision() {
    let revs = [1u64, 2, 9, 10, 99, 100, 12_345, 999_999];
    let ids: Vec<String> = revs.iter().map(|r| history_entry_id("projects", "p", *r)).collect();
    for w in ids.windows(2) {
        assert!(w[0] < w[1]);
    }
    // past a million revisions the width grows and the text order no longer follows
    assert!(history_entry_id("projects", "p", 1_000_000) < history_entry_id("projects", "p", 999_999));
}
