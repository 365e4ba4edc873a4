//! The decisions of the generic and project-scoped resource endpoints:
//! super-permission bypass, the hybrid ACL of scoped resources, optimistic
//! concurrency on `hash_code`, how storage errors are reported, and the
//! shape of list and id responses. The handlers that await the database
//! call these in the order the endpoints define.

use vstd::prelude::*;
use vstd::string::*;
use crate::acl::{Permissions, AccessControlStore, AccessControlList, AclEntryView, CREATE_BITS, parse_acl,
    acl_parsed_from, parsed_acl_entries, acl_grants_scoped, string_views, entry_view, entry_in_scope,
    entry_grants, bits_contain};
use crate::config::{str_contains, seq_contains};
use crate::error::AppError;
use crate::json::{Json, JsonObject};
use crate::kinds::Kind;
use crate::policy::{Caller, doc_grants, adm_godmode, adm_config_editor, ADM_GODMODE, ADM_CONFIG_EDITOR};
use crate::text::{concat_str, owned};
use crate::documents::{standard_to_internal, standard_to_external, maps_object, id_to_key_map, key_to_id_map,
    added_if_absent, is_empty_object};

verus! {

/// Paging of a list request.
pub struct ListQuery {
    pub limit: Option<u32>,
    pub cursor: Option<String>,
}

/// Prefix of a search request.
pub struct SearchQuery {
    pub startwith: Option<String>,
}

/// Options of a single-object read.
pub struct GetObjectQuery {
    pub with_history: Option<String>,
}

/// The controller of kinds without rules of their own: everyone may read
/// and write, and documents use the standard transforms.
pub struct DefaultKindController;

impl DefaultKindController {
    /// Any caller may read.
    pub fn can_read(&self, caller: &Caller, doc: Option<&Json>) -> (r: bool)
        ensures
            r,
    {
        true
    }

    /// Any caller may write.
    pub fn can_write(&self, caller: &Caller, doc: Option<&Json>) -> (r: bool)
        ensures
            r,
    {
        true
    }

    /// The standard transform: `id` becomes `_key`.
    pub fn to_internal(&self, body: Json) -> (r: Result<Json, AppError>)
        ensures
            r matches Ok(j) && maps_object(body, j, |m: Map<Seq<char>, Json>| id_to_key_map(m)),
    {
        Ok(standard_to_internal(body))
    }

    /// The standard transform back: `_key` becomes `id`, database fields are
    /// dropped and `labels` defaults to `{}`.
    pub fn to_external(&self, doc: Json) -> (r: Json)
        ensures
            match doc {
                Json::Object(o) => r matches Json::Object(f) && {
                    let m = key_to_id_map(o.view());
                    &&& f.view().dom() == m.dom().insert("labels"@)
                    &&& forall|k: Seq<char>| k != "labels"@ && m.contains_key(k) ==> #[trigger] f.view()[k] == m[k]
                    &&& added_if_absent(m, f.view(), "labels"@, |v: Json| is_empty_object(v))
                },
                _ => r == doc,
            },
    {
        standard_to_external(doc)
    }
}

/// The super-permission that lets its holders skip a kind's ACL checks.
pub open spec fn super_permission_of(kind: Kind) -> Option<Seq<char>> {
    match kind {
        Kind::Crds => Some(adm_godmode()),
        Kind::Projects | Kind::RepoCredentials => Some(adm_config_editor()),
        _ => None,
    }
}

/// The fields fetched for list views, when restricted.
pub open spec fn projection_of(kind: Kind) -> Option<Seq<Seq<char>>> {
    match kind {
        Kind::Groups | Kind::Projects => Some(seq!["_key"@, "name"@, "acl"@, "meta"@]),
        Kind::RepoCredentials => Some(seq!["_key"@, "name"@, "method"@, "acl"@, "labels"@]),
        Kind::Tasks => Some(seq!["_key"@, "title"@, "state"@, "priority"@, "acl"@, "meta"@]),
        Kind::Users => Some(seq!["_key"@, "personal"@, "labels"@, "annotations"@]),
        Kind::TicketGroups => Some(seq!["_key"@, "name"@, "description"@, "project"@, "acl"@, "labels"@,
            "annotations"@, "state"@, "deletion"@, "hash_code"@]),
        _ => None,
    }
}

/// Some entry applying to `kind` (no scope, or that scope) grants
/// `required` to one of `names`.
pub open spec fn entries_grant_scoped(es: Seq<AclEntryView>, names: Seq<Seq<char>>, required: u8, kind: Seq<char>) -> bool {
    exists|k: int| 0 <= k < es.len() && bits_contain(#[trigger] es[k].bits, required)
        && (match es[k].scope { Some(s) => s == kind, None => true })
        && exists|i: int, j: int| #![trigger es[k].principals[i], names[j]]
            0 <= i < es[k].principals.len() && 0 <= j < names.len() && es[k].principals[i] == names[j]
}

proof fn lemma_scoped_views(list: Seq<AccessControlList>, names: Seq<Seq<char>>, required: u8, kind: Seq<char>)
    ensures
        acl_grants_scoped(list, names, required, kind)
            == entries_grant_scoped(list.map_values(|e: AccessControlList| entry_view(e)), names, required, kind),
{
    let es = list.map_values(|e: AccessControlList| entry_view(e));
    if acl_grants_scoped(list, names, required, kind) {
        let k = choose|k: int| 0 <= k < list.len() && entry_in_scope(#[trigger] list[k], kind)
            && entry_grants(list[k], names, required);
        let e = list[k];
        assert(es[k] == entry_view(e));
        let (i, j) = choose|i: int, j: int| #![trigger e.principals@[i], names[j]]
            0 <= i < e.principals@.len() && 0 <= j < names.len() && e.principals@[i]@ == names[j];
        assert(es[k].principals[i] == e.principals@[i]@);
        assert(bits_contain(es[k].bits, required));
        assert(es[k].principals[i] == names[j]);
    }
    if entries_grant_scoped(es, names, required, kind) {
        let k = choose|k: int| 0 <= k < es.len() && bits_contain(#[trigger] es[k].bits, required)
            && (match es[k].scope { Some(s) => s == kind, None => true })
            && exists|i: int, j: int| #![trigger es[k].principals[i], names[j]]
                0 <= i < es[k].principals.len() && 0 <= j < names.len() && es[k].principals[i] == names[j];
        let e = list[k];
        assert(es[k] == entry_view(e));
        let (i, j) = choose|i: int, j: int| #![trigger es[k].principals[i], names[j]]
            0 <= i < es[k].principals.len() && 0 <= j < names.len() && es[k].principals[i] == names[j];
        assert(es[k].principals[i] == e.principals@[i]@);
        assert(entry_in_scope(list[k], kind));
        assert(entry_grants(list[k], names, required));
    }
}

/// The resource's own ACL grants `required`, when it has a non-empty one;
/// otherwise the project's ACL entries applying to `kind_name` do.
pub open spec fn hybrid_grants(doc: Json, names: Seq<Seq<char>>, required: u8,
    project: Option<Seq<AclEntryView>>, kind_name: Seq<char>) -> bool {
    if parsed_acl_entries(doc) matches Some(es) && es.len() > 0 {
        doc_grants(doc, names, required)
    } else {
        project matches Some(p) && entries_grant_scoped(p, names, required, kind_name)
    }
}

impl Kind {
    /// The super-permission that bypasses this kind's ACL checks, if any.
    pub fn super_permission(&self) -> (r: Option<&'static str>)
        ensures
            match r {
                Some(p) => super_permission_of(*self) == Some(p@),
                None => super_permission_of(*self) is None,
            },
    {
        match self {
            Kind::Crds => Some(ADM_GODMODE),
            Kind::Projects | Kind::RepoCredentials => Some(ADM_CONFIG_EDITOR),
            _ => None,
        }
    }

    /// The database fields fetched for list views; `None` fetches all.
    pub fn list_projection_fields(&self) -> (r: Option<Vec<&'static str>>)
        ensures
            match r {
                Some(v) => projection_of(*self) == Some(v@.map_values(|f: &'static str| f@)),
                None => projection_of(*self) is None,
            },
    {
        match self {
            Kind::Groups | Kind::Projects => {
                let v = vec!["_key", "name", "acl", "meta"];
                assert(v@.map_values(|f: &'static str| f@) =~= seq!["_key"@, "name"@, "acl"@, "meta"@]);
                Some(v)
            },
            Kind::RepoCredentials => {
                let v = vec!["_key", "name", "method", "acl", "labels"];
                assert(v@.map_values(|f: &'static str| f@) =~= seq!["_key"@, "name"@, "method"@, "acl"@, "labels"@]);
                Some(v)
            },
            Kind::Tasks => {
                let v = vec!["_key", "title", "state", "priority", "acl", "meta"];
                assert(v@.map_values(|f: &'static str| f@) =~= seq!["_key"@, "title"@, "state"@, "priority"@, "acl"@, "meta"@]);
                Some(v)
            },
            Kind::Users => {
                let v = vec!["_key", "personal", "labels", "annotations"];
                assert(v@.map_values(|f: &'static str| f@) =~= seq!["_key"@, "personal"@, "labels"@, "annotations"@]);
                Some(v)
            },
            Kind::TicketGroups => {
                let v = vec!["_key", "name", "description", "project", "acl", "labels", "annotations", "state",
                    "deletion", "hash_code"];
                assert(v@.map_values(|f: &'static str| f@) =~= seq!["_key"@, "name"@, "description"@, "project"@,
                    "acl"@, "labels"@, "annotations"@, "state"@, "deletion"@, "hash_code"@]);
                Some(v)
            },
            _ => None,
        }
    }

    /// Whether `principals` hold `required` on a scoped resource: through its
    /// own ACL when that is non-empty, else through the project's ACL entries
    /// that apply to this kind.
    pub fn check_hybrid_acl(&self, doc: &Json, principals: &[String], required: Permissions,
        project_acl: Option<&AccessControlStore>) -> (r: bool)
        ensures
            r == hybrid_grants(*doc, string_views(principals@), required.bits,
                match project_acl { Some(p) => Some(p.list@.map_values(|e: AccessControlList| entry_view(e))), None => None },
                ""@),
    {
        let kind_name = self.resource_kind_name();
        proof { reveal_strlit(""); assert(kind_name@ =~= ""@); }
        match parse_acl(doc) {
            Ok(acl) => {
                if acl.list.len() > 0 {
                    proof {
                        crate::policy::lemma_grants_views(acl, *doc, string_views(principals@), required.bits);
                    }
                    return acl.check_permission(principals, required);
                }
            },
            Err(()) => {},
        }
        match project_acl {
            Some(p) => {
                proof { lemma_scoped_views(p.list@, string_views(principals@), required.bits, kind_name@); }
                p.check_permission_scoped(principals, required, kind_name)
            },
            None => false,
        }
    }

    /// Whether the caller skips the ACL for list and search: god mode, the
    /// kind's super-permission, or a kind that has none.
    pub fn global_super_bypass(&self, caller: &Caller, godmode: bool) -> (r: bool)
        ensures
            r == (godmode || match super_permission_of(*self) {
                Some(p) => caller.holds(p),
                None => true,
            }),
    {
        godmode || match self.super_permission() {
            Some(p) => caller.has(p),
            None => true,
        }
    }

    /// Whether the caller skips the ACL on a project-scoped resource: god
    /// mode or the kind's super-permission (a kind without one grants none).
    pub fn scoped_super_bypass(&self, caller: &Caller, godmode: bool) -> (r: bool)
        ensures
            r == (godmode || match super_permission_of(*self) {
                Some(p) => caller.holds(p),
                None => false,
            }),
    {
        godmode || match self.super_permission() {
            Some(p) => caller.has(p),
            None => false,
        }
    }
}

/// The fields of the brief form of a kind's documents in list views: its
/// list projection, with `_key` read as `id`; `None` when lists show the
/// full external form.
pub open spec fn brief_of(kind: Kind) -> Option<Seq<Seq<char>>> {
    match kind {
        Kind::Users => Some(seq!["id"@, "personal"@, "labels"@, "annotations"@]),
        Kind::Groups | Kind::Projects => Some(seq!["id"@, "name"@, "acl"@, "meta"@]),
        Kind::RepoCredentials => Some(seq!["id"@, "name"@, "method"@, "acl"@, "labels"@]),
        _ => None,
    }
}

impl Kind {
    /// The brief fields of list views, if the kind has a brief form.
    pub fn brief_fields(&self) -> (r: Option<Vec<&'static str>>)
        ensures
            match r {
                Some(v) => brief_of(*self) == Some(v@.map_values(|f: &'static str| f@)),
                None => brief_of(*self) is None,
            },
    {
        match self {
            Kind::Users => {
                let v = vec!["id", "personal", "labels", "annotations"];
                assert(v@.map_values(|f: &'static str| f@) =~= seq!["id"@, "personal"@, "labels"@, "annotations"@]);
                Some(v)
            },
            Kind::Groups | Kind::Projects => {
                let v = vec!["id", "name", "acl", "meta"];
                assert(v@.map_values(|f: &'static str| f@) =~= seq!["id"@, "name"@, "acl"@, "meta"@]);
                Some(v)
            },
            Kind::RepoCredentials => {
                let v = vec!["id", "name", "method", "acl", "labels"];
                assert(v@.map_values(|f: &'static str| f@) =~= seq!["id"@, "name"@, "method"@, "acl"@, "labels"@]);
                Some(v)
            },
            _ => None,
        }
    }

    /// The form of a stored document in list responses: the external form,
    /// cut down to the kind's brief fields when it has them.
    pub fn to_list_external(&self, doc: Json) -> (r: Json)
        ensures
            exists|t: Json| #[trigger] crate::kinds::to_external_result(*self, doc, t) && match brief_of(*self) {
                Some(f) => maps_object(t, r, |m: Map<Seq<char>, Json>| m.restrict(
                    Set::new(|k: Seq<char>| exists|i: int| 0 <= i < f.len() && f[i] == k))),
                None => r == t,
            },
    {
        let ext = self.to_external(doc);
        let ghost t = ext;
        match self.brief_fields() {
            Some(fields) => {
                let r = crate::documents::filter_to_brief(ext, fields.as_slice());
                proof {
                    let f = brief_of(*self).unwrap();
                    assert(crate::json::field_set(fields@) =~= Set::new(|k: Seq<char>| exists|i: int| 0 <= i < f.len() && f[i] == k)) by {
                        assert forall|k: Seq<char>| crate::json::field_set(fields@).contains(k)
                            <==> (exists|i: int| 0 <= i < f.len() && f[i] == k) by {
                            if crate::json::field_set(fields@).contains(k) {
                                let i = choose|i: int| 0 <= i < fields@.len() && fields@[i]@ == k;
                                assert(f[i] == fields@[i]@);
                            }
                            if exists|i: int| 0 <= i < f.len() && f[i] == k {
                                let i = choose|i: int| 0 <= i < f.len() && f[i] == k;
                                assert(fields@.map_values(|x: &'static str| x@)[i] == fields@[i]@);
                            }
                        }
                    }
                    assert(crate::kinds::to_external_result(*self, doc, t));
                }
                r
            },
            None => {
                proof { assert(crate::kinds::to_external_result(*self, doc, t)); }
                ext
            },
        }
    }
}

/// The project's ACL grants CREATE to the caller (false for a project
/// without a readable ACL).
pub open spec fn project_grants_create(project: Json, names: Seq<Seq<char>>) -> bool {
    doc_grants(project, names, CREATE_BITS)
}

/// Whether the caller may create a resource in the project: with a bypass,
/// or CREATE on the project's ACL (scopes are not consulted).
pub fn scoped_create_allowed(caller: &Caller, super_bypass: bool, project_doc: &Json) -> (r: bool)
    ensures
        r == (super_bypass || project_grants_create(*project_doc, caller.names())),
{
    super_bypass || crate::policy::doc_acl_allows(project_doc, caller, Permissions::create())
}

/// Whether the caller may read (`required` READ) or change (MODIFY) an
/// existing scoped resource: with a bypass, or through the hybrid ACL with
/// the project's ACL as fallback.
pub fn scoped_access_allowed(kind: Kind, caller: &Caller, super_bypass: bool, doc: &Json, project_doc: &Json,
    required: Permissions) -> (r: bool)
    ensures
        r == (super_bypass || hybrid_grants(*doc, caller.names(), required.bits, parsed_acl_entries(*project_doc), ""@)),
{
    if super_bypass {
        return true;
    }
    match parse_acl(project_doc) {
        Ok(p) => kind.check_hybrid_acl(doc, caller.principals.as_slice(), required, Some(&p)),
        Err(()) => kind.check_hybrid_acl(doc, caller.principals.as_slice(), required, None),
    }
}

/// `kind/id`, the name of a resource in messages.
pub open spec fn object_ref(kind: Seq<char>, id: Seq<char>) -> Seq<char> {
    kind + "/"@ + id
}

fn object_ref_text(kind: &str, id: &str) -> (r: String)
    ensures
        r@ == object_ref(kind@, id@),
{
    let mut s = concat_str(kind, "/");
    s.append(id);
    s
}

/// The 404 for a resource that is absent or that the caller may not see.
pub fn object_not_found(kind: &str, id: &str) -> (r: AppError)
    ensures
        r matches AppError::NotFound(m) && m@ == object_ref(kind@, id@),
{
    AppError::NotFound(object_ref_text(kind, id))
}

/// The 404 for an unknown or deleted project.
pub fn project_not_found(project_id: &str) -> (r: AppError)
    ensures
        r matches AppError::NotFound(m) && m@ == "projects/"@ + project_id@,
{
    AppError::NotFound(concat_str("projects/", project_id))
}

/// The refusal of a kind that is not project-scoped on a scoped route.
pub fn not_scoped_error(kind: &str) -> (r: AppError)
    ensures
        r matches AppError::BadRequest(m) && m@ == "'"@ + kind@ + "' is not a project-scoped resource kind"@,
{
    let mut s = concat_str("'", kind);
    s.append("' is not a project-scoped resource kind");
    AppError::BadRequest(s)
}

/// The refusal of a create the caller may not perform.
pub fn create_forbidden(kind: &str, id: &str) -> (r: AppError)
    ensures
        r matches AppError::Forbidden(m) && m@ == "not allowed to create "@ + object_ref(kind@, id@),
{
    let o = object_ref_text(kind, id);
    AppError::Forbidden(concat_str("not allowed to create ", o.as_str()))
}

/// The `id` a create request body must carry.
pub fn required_body_id(body: &Json) -> (r: Result<String, AppError>)
    ensures
        match body.field("id"@) {
            Some(Json::String(s)) => r matches Ok(t) && t@ == s@,
            _ => r matches Err(AppError::BadRequest(m)) && m@ == "missing 'id' field in request body"@,
        },
{
    proof { reveal_strlit("id"); }
    match body.get("id") {
        Some(Json::String(s)) => Ok(s.clone()),
        _ => Err(AppError::bad_request("missing 'id' field in request body")),
    }
}

/// The `hash_code` string of a document, if it has one.
pub open spec fn hash_code_of(doc: Json) -> Option<Seq<char>> {
    match doc.field("hash_code"@) {
        Some(Json::String(s)) => Some(s@),
        _ => None,
    }
}

fn hash_code_text(doc: &Json) -> (r: Option<&String>)
    ensures
        match hash_code_of(*doc) {
            Some(h) => r matches Some(s) && s@ == h,
            None => r is None,
        },
{
    proof { reveal_strlit("hash_code"); }
    match doc.get("hash_code") {
        Some(Json::String(s)) => Some(s),
        _ => None,
    }
}

/// The message of a lost-update conflict.
pub open spec fn stale_message(kind: Seq<char>, id: Seq<char>, client: Seq<char>, server: Seq<char>) -> Seq<char> {
    object_ref(kind, id) + " was modified since last read (expected hash "@ + client + ", server has "@ + server + ")"@
}

/// Optimistic concurrency: an update that names a `hash_code` fails with 409
/// when the stored document has a different, non-empty one.
pub fn check_client_hash(kind: &str, id: &str, body: &Json, existing: &Json) -> (r: Result<(), AppError>)
    ensures
        match (hash_code_of(*body), hash_code_of(*existing)) {
            (Some(c), Some(s)) => if s.len() > 0 && c != s {
                r matches Err(AppError::Conflict(m)) && m@ == stale_message(kind@, id@, c, s)
            } else {
                r is Ok
            },
            _ => r is Ok,
        },
        r is Err <==> stale_update(*body, *existing),
{
    match hash_code_text(body) {
        Some(client) => match hash_code_text(existing) {
            Some(server) => {
                if server.unicode_len() > 0 && !crate::text::str_eq(client.as_str(), server.as_str()) {
                    let mut m = object_ref_text(kind, id);
                    m.append(" was modified since last read (expected hash ");
                    m.append(client.as_str());
                    m.append(", server has ");
                    m.append(server.as_str());
                    m.append(")");
                    Err(AppError::Conflict(m))
                } else {
                    Ok(())
                }
            },
            None => Ok(()),
        },
        None => Ok(()),
    }
}

/// An update is refused as stale exactly when it names a hash and the
/// stored document has a different, non-empty one.
pub open spec fn stale_update(body: Json, existing: Json) -> bool {
    match (hash_code_of(body), hash_code_of(existing)) {
        (Some(c), Some(s)) => s.len() > 0 && c != s,
        _ => false,
    }
}

/// An update that carries the stored document's hash, or none at all, is
/// never refused as stale; neither is any update of a document without a hash.
pub proof fn law_current_hash_accepted(body: Json, existing: Json)
    requires
        hash_code_of(body) is None || hash_code_of(existing) is None
            || hash_code_of(body) == hash_code_of(existing)
            || hash_code_of(existing) == Some(Seq::<char>::empty()),
    ensures
        !stale_update(body, existing),
{
}

/// Allows an operation for god mode or an authorized caller, else reports the
/// resource as absent.
pub fn gate(kind: &str, id: &str, godmode: bool, allowed: bool) -> (r: Result<(), AppError>)
    ensures
        r is Ok <==> godmode || allowed,
        r matches Err(e) ==> e matches AppError::NotFound(m) && m@ == object_ref(kind@, id@),
{
    if godmode || allowed { Ok(()) } else { Err(object_not_found(kind, id)) }
}

/// Sets `key` to the string `value` when `body` is an object.
pub fn set_string_field(body: &mut Json, key: &str, value: &str)
    ensures
        match *old(body) {
            Json::Object(o) => *final(body) matches Json::Object(f) && f.view().dom() == o.view().dom().insert(key@)
                && f.view()[key@].str_view() == Some(value@)
                && forall|k: Seq<char>| #[trigger] o.view().contains_key(k) && k != key@ ==> f.view()[k] == o.view()[k],
            _ => *final(body) == *old(body),
        },
{
    match body {
        Json::Object(o) => {
            let v = Json::from_str(value);
            o.insert(owned(key), v);
        },
        _ => {},
    }
}

/// Stores the desired-state hash under `hash_code` when `doc` is an object.
pub fn inject_hash(doc: &mut Json, hash: &str)
    ensures
        match *old(doc) {
            Json::Object(o) => *final(doc) matches Json::Object(f) && f.view().dom() == o.view().dom().insert("hash_code"@)
                && f.view()["hash_code"@].str_view() == Some(hash@)
                && forall|k: Seq<char>| #[trigger] o.view().contains_key(k) && k != "hash_code"@ ==> f.view()[k] == o.view()[k],
            _ => *final(doc) == *old(doc),
        },
{
    proof { reveal_strlit("hash_code"); }
    match doc {
        Json::Object(o) => {
            o.insert(String::from_str("hash_code"), Json::from_str(hash));
        },
        _ => {},
    }
}

/// The stored key of a new document: its `_key`, else `fallback`.
pub fn final_key(doc: &Json, fallback: &str) -> (r: String)
    ensures
        r@ == match doc.field("_key"@) {
            Some(Json::String(s)) => s@,
            _ => fallback@,
        },
{
    proof { reveal_strlit("_key"); }
    match doc.get("_key") {
        Some(Json::String(s)) => s.clone(),
        _ => owned(fallback),
    }
}

/// A create failed: a uniqueness violation is a 409, anything else a 500.
pub fn classify_create_error(kind: &str, id: &str, message: &str) -> (r: AppError)
    ensures
        if seq_contains(message@, "unique constraint"@) || seq_contains(message@, "1210"@) {
            r matches AppError::Conflict(m) && m@ == object_ref(kind@, id@) + " already exists"@
        } else {
            r matches AppError::Internal(m) && m@ == message@
        },
{
    if str_contains(message, "unique constraint") || str_contains(message, "1210") {
        let mut m = object_ref_text(kind, id);
        m.append(" already exists");
        AppError::Conflict(m)
    } else {
        AppError::Internal(owned(message))
    }
}

/// An update failed: a missing document is a 404, anything else a 500.
pub fn classify_update_error(kind: &str, id: &str, message: &str) -> (r: AppError)
    ensures
        if seq_contains(message@, "document not found"@) {
            r matches AppError::NotFound(m) && m@ == object_ref(kind@, id@)
        } else {
            r matches AppError::Internal(m) && m@ == message@
        },
{
    if str_contains(message, "document not found") {
        object_not_found(kind, id)
    } else {
        AppError::Internal(owned(message))
    }
}

/// A soft delete failed: a missing or deleted document is a 404, anything else a 500.
pub fn classify_delete_error(kind: &str, id: &str, message: &str) -> (r: AppError)
    ensures
        if seq_contains(message@, "not found or already deleted"@) {
            r matches AppError::NotFound(m) && m@ == object_ref(kind@, id@)
        } else {
            r matches AppError::Internal(m) && m@ == message@
        },
{
    if str_contains(message, "not found or already deleted") {
        object_not_found(kind, id)
    } else {
        AppError::Internal(owned(message))
    }
}

/// The body of a list response: `items`, and with paging `has_more` and,
/// when there is one, `next_cursor`.
pub fn list_response(items: Vec<Json>, paginated: bool, has_more: bool, next_cursor: Option<String>) -> (r: Json)
    ensures
        r matches Json::Object(o) && {
            &&& o.view().contains_key("items"@) && o.view()["items"@] == Json::Array(items)
            &&& if paginated {
                &&& o.view()["has_more"@] == Json::Bool(has_more)
                &&& match next_cursor {
                    Some(c) => o.view().dom() == set!["items"@, "has_more"@, "next_cursor"@]
                        && o.view()["next_cursor"@].str_view() == Some(c@),
                    None => o.view().dom() == set!["items"@, "has_more"@],
                }
            } else {
                o.view().dom() == set!["items"@]
            }
        },
{
    proof {
        reveal_strlit("items");
        reveal_strlit("has_more");
        reveal_strlit("next_cursor");
        assert("items"@ != "has_more"@) by { assert("items"@[0] != "has_more"@[0]); }
        assert("items"@ != "next_cursor"@) by { assert("items"@[0] != "next_cursor"@[0]); }
        assert("has_more"@ != "next_cursor"@) by { assert("has_more"@[0] != "next_cursor"@[0]); }
    }
    let ghost it = Json::Array(items);
    let mut o = JsonObject::new();
    o.insert(String::from_str("items"), Json::Array(items));
    if paginated {
        o.insert(String::from_str("has_more"), Json::Bool(has_more));
        match next_cursor {
            Some(c) => {
                let ghost cv = c@;
                o.insert(String::from_str("next_cursor"), Json::String(c));
                assert(o.view().dom() =~= set!["items"@, "has_more"@, "next_cursor"@]);
            },
            None => {
                assert(o.view().dom() =~= set!["items"@, "has_more"@]);
            },
        }
    } else {
        assert(o.view().dom() =~= set!["items"@]);
    }
    Json::Object(o)
}

/// The body `{"id": id}`.
pub fn id_response(id: &str) -> (r: Json)
    ensures
        r matches Json::Object(o) && o.view().dom() == set!["id"@] && o.view()["id"@].str_view() == Some(id@),
{
    proof { reveal_strlit("id"); }
    let mut o = JsonObject::new();
    o.insert(String::from_str("id"), Json::from_str(id));
    assert(o.view().dom() =~= set!["id"@]);
    Json::Object(o)
}

/// Attaches the latest history revision as `_history` when it was asked
/// for (`with_history` is `true`) and one exists.
pub fn attach_history(result: &mut Json, with_history: Option<&str>, history: Option<Json>)
    ensures
        match (*old(result), with_history, history) {
            (Json::Object(o), Some(w), Some(h)) => if w@ == "true"@ {
                *final(result) matches Json::Object(f) && f.view() == o.view().insert("_history"@, h)
            } else {
                *final(result) == *old(result)
            },
            _ => *final(result) == *old(result),
        },
{
    proof { reveal_strlit("_history"); reveal_strlit("true"); }
    let wants = match with_history {
        Some(w) => crate::text::str_eq(w, "true"),
        None => false,
    };
    if wants {
        match history {
            Some(h) => match result {
                Json::Object(o) => {
                    o.insert(String::from_str("_history"), h);
                },
                _ => {},
            },
            None => {},
        }
    }
}

/// Whether an upsert replaced a document: the event it records (`updated`
/// or `created`) and the HTTP status it answers with (200 or 201).
pub fn upsert_outcome(is_update: bool) -> (r: (&'static str, u16))
    ensures
        r.0@ == if is_update { "updated"@ } else { "created"@ },
        r.1 == if is_update { 200u16 } else { 201u16 },
{
    if is_update { ("updated", 200) } else { ("created", 201) }
}


/// The permission an upsert checks once the stored document is known:
/// write access to it, or leave to create it.
#[derive(Debug, Clone, Copy, PartialEq, Eq, Structural)]
pub enum UpsertNeed {
    Write,
    Create,
}

/// What an admitted upsert goes on to do.
#[derive(Debug, Clone, Copy, PartialEq, Eq, Structural)]
pub enum UpsertAction {
    /// Replace the stored document.
    Update,
    /// Stamp the creation defaults (`prepare_create`), then create it.
    PrepareAndCreate,
}

/// First step of an upsert, once the stored document has been fetched: a
/// replacement whose client `hash_code` is stale is refused with 409 before
/// any permission is looked up; otherwise the permission to check next.
pub fn upsert_need(kind: &str, id: &str, body: &Json, existing: Option<&Json>) -> (r: Result<UpsertNeed, AppError>)
    ensures
        match existing {
            None => r == Ok::<UpsertNeed, AppError>(UpsertNeed::Create),
            Some(e) => match (hash_code_of(*body), hash_code_of(*e)) {
                (Some(c), Some(s)) => if s.len() > 0 && c != s {
                    r matches Err(AppError::Conflict(m)) && m@ == stale_message(kind@, id@, c, s)
                } else {
                    r == Ok::<UpsertNeed, AppError>(UpsertNeed::Write)
                },
                _ => r == Ok::<UpsertNeed, AppError>(UpsertNeed::Write),
            },
        },
{
    match existing {
        None => Ok(UpsertNeed::Create),
        Some(e) => match check_client_hash(kind, id, body, e) {
            Ok(()) => Ok(UpsertNeed::Write),
            Err(x) => Err(x),
        },
    }
}

/// Second step of an upsert, once the permission asked for has been
/// looked up: god mode or that permission admits it, else it answers 404 as
/// `gate` does; an admitted upsert updates where it needed write access and
/// prepares and creates where it needed leave to create.
pub fn upsert_admit(kind: &str, id: &str, need: UpsertNeed, godmode: bool, allowed: bool) -> (r: Result<UpsertAction, AppError>)
    ensures
        r is Ok <==> godmode || allowed,
        r matches Ok(a) ==> (a == UpsertAction::Update <==> need == UpsertNeed::Write),
        r matches Err(e) ==> e matches AppError::NotFound(m) && m@ == object_ref(kind@, id@),
{
    match gate(kind, id, godmode, allowed) {
        Err(e) => Err(e),
        Ok(()) => match need {
            UpsertNeed::Write => Ok(UpsertAction::Update),
            UpsertNeed::Create => Ok(UpsertAction::PrepareAndCreate),
        },
    }
}

/// First step of a replacement (`PUT`): a missing document answers 404,
/// then a stale client `hash_code` 409; otherwise write access is checked
/// next (and `upsert_admit` with `UpsertNeed::Write` decides).
pub fn update_need(kind: &str, id: &str, body: &Json, existing: Option<&Json>) -> (r: Result<UpsertNeed, AppError>)
    ensures
        match existing {
            None => r matches Err(AppError::NotFound(m)) && m@ == object_ref(kind@, id@),
            Some(e) => match (hash_code_of(*body), hash_code_of(*e)) {
                (Some(c), Some(s)) => if s.len() > 0 && c != s {
                    r matches Err(AppError::Conflict(m)) && m@ == stale_message(kind@, id@, c, s)
                } else {
                    r == Ok::<UpsertNeed, AppError>(UpsertNeed::Write)
                },
                _ => r == Ok::<UpsertNeed, AppError>(UpsertNeed::Write),
            },
        },
{
    match existing {
        None => Err(object_not_found(kind, id)),
        Some(e) => upsert_need(kind, id, body, Some(e)),
    }
}

} // verus!
