//! Per-kind behaviour of the generic resource API: which controller a kind
//! dispatches to, how its documents are transformed between the API and the
//! database, how a new document is prepared, and its access settings.

use vstd::prelude::*;
use vstd::string::*;
use vstd::utf8::encode_utf8;
use crate::json::{Json, JsonObject, field_set};
use crate::error::AppError;
use crate::acl::{Permissions, AccessControlStore, READ_BITS, MODIFY_BITS, parse_acl, acl_parsed_from,
    acl_grants, acl_grants_scoped, string_views, rfc3339_instant};
use crate::documents::{standard_to_internal, standard_to_external, strip_unknown_fields,
    inject_create_defaults_at, fill_meta, ensure_creator_acl, rename_id_to_key, now_rfc3339, four_digit_year, obj_view,
    maps_object, id_to_key_map};
use crate::naming::{validate_username, validate_group_id, validate_repo_credential_id};
use crate::text::{owned, str_eq, starts_with, strip_prefix_or_self, seq_starts_with, seq_strip_prefix,
    concat_str, push_decimal, decimal, find_char_from};

verus! {

/// The controller a resource kind dispatches to.
#[derive(Debug, Clone, Copy, PartialEq, Eq, Structural)]
pub enum Kind {
    Users,
    Groups,
    Memberships,
    Projects,
    RepoCredentials,
    Crds,
    TicketGroups,
    Tasks,
    /// Any other kind: permissive, standard transforms.
    Default,
}

/// The kind a collection name dispatches to.
pub open spec fn kind_of(name: Seq<char>) -> Kind {
    if name == "users"@ { Kind::Users }
    else if name == "groups"@ { Kind::Groups }
    else if name == "memberships"@ { Kind::Memberships }
    else if name == "projects"@ { Kind::Projects }
    else if name == "repo_credentials"@ { Kind::RepoCredentials }
    else if name == "crds"@ { Kind::Crds }
    else if name == "ticketgroups"@ { Kind::TicketGroups }
    else { Kind::Default }
}

/// A character allowed in a kind (collection) name.
pub open spec fn kind_char(c: char) -> bool {
    ('0' <= c && c <= '9') || ('a' <= c && c <= 'z') || ('A' <= c && c <= 'Z') || c == '_'
}

/// A kind name is non-empty and made of ASCII letters, digits and `_`.
pub open spec fn valid_kind(kind: Seq<char>) -> bool {
    kind.len() > 0 && forall|i: int| 0 <= i < kind.len() ==> kind_char(#[trigger] kind[i])
}

/// Validate that a kind string is a safe collection name.
pub fn validate_kind(kind: &str) -> (r: Result<(), AppError>)
    ensures
        r is Ok <==> valid_kind(kind@),
        kind@.len() == 0 ==> r == Err::<(), AppError>(AppError::BadRequest(r->Err_0->BadRequest_0)),
        r matches Err(e) ==> e is BadRequest,
{
    let n = kind.unicode_len();
    if n == 0 {
        return Err(AppError::bad_request("kind must not be empty"));
    }
    let mut i: usize = 0;
    while i < n
        invariant
            n == kind@.len(),
            i <= n,
            forall|j: int| 0 <= j < i ==> kind_char(#[trigger] kind@[j]),
        decreases n - i,
    {
        let c = kind.get_char(i);
        if !(('0' <= c && c <= '9') || ('a' <= c && c <= 'z') || ('A' <= c && c <= 'Z') || c == '_') {
            assert(!kind_char(kind@[i as int]));
            return Err(AppError::bad_request("kind must contain only alphanumeric characters and underscores"));
        }
        i = i + 1;
    }
    Ok(())
}

impl Kind {
    /// Dispatch a collection name to its controller (`Controller::for_kind`).
    pub fn for_kind(name: &str) -> (r: Kind)
        ensures
            r == kind_of(name@),
    {
        proof {
            reveal_strlit("users");
            reveal_strlit("groups");
            reveal_strlit("memberships");
            reveal_strlit("projects");
            reveal_strlit("repo_credentials");
            reveal_strlit("crds");
            reveal_strlit("ticketgroups");
        }
        if str_eq(name, "users") { Kind::Users }
        else if str_eq(name, "groups") { Kind::Groups }
        else if str_eq(name, "memberships") { Kind::Memberships }
        else if str_eq(name, "projects") { Kind::Projects }
        else if str_eq(name, "repo_credentials") { Kind::RepoCredentials }
        else if str_eq(name, "crds") { Kind::Crds }
        else if str_eq(name, "ticketgroups") { Kind::TicketGroups }
        else { Kind::Default }
    }

    /// Resources of this kind live under a project.
    pub fn is_scoped(&self) -> (r: bool)
        ensures
            r == (*self == Kind::TicketGroups),
    {
        match self {
            Kind::TicketGroups => true,
            _ => false,
        }
    }

    /// Bits required to read (list) a document of this kind.
    pub fn read_permission_bits(&self) -> (r: u8)
        ensures
            r == READ_BITS,
    {
        READ_BITS
    }

    /// Bits required to write a document of this kind.
    pub fn write_permission_bits(&self) -> (r: u8)
        ensures
            r == MODIFY_BITS,
    {
        MODIFY_BITS
    }

    /// The kind name used to match scoped entries of a project ACL
    /// (empty for every kind here).
    pub fn resource_kind_name(&self) -> (r: &'static str)
        ensures
            r@.len() == 0,
    {
        proof { reveal_strlit(""); }
        ""
    }
}

// ---------------------------------------------------------------------------
// Ticket groups
// ---------------------------------------------------------------------------

/// Whether every character is an ASCII capital letter.
pub open spec fn all_upper(s: Seq<char>) -> bool {
    forall|i: int| 0 <= i < s.len() ==> 'A' <= #[trigger] s[i] && s[i] <= 'Z'
}

/// The bare code of a ticket group id, or why it is invalid:
/// 2-6 bytes long (`str::len`), ASCII capitals only, after dropping a `tg_` prefix.
pub open spec fn ticket_group_code(raw: Seq<char>) -> Result<Seq<char>, Seq<char>> {
    let code = seq_strip_prefix(raw, "tg_"@);
    let len = encode_utf8(code).len() as usize;
    if len < 2 || len > 6 {
        Err("ticket group id must be 2-6 capital letters, got '"@ + code + "' ("@ + decimal(len as nat) + " chars)"@)
    } else if !all_upper(code) {
        Err("ticket group id must be uppercase letters A-Z only, got '"@ + code + "'"@)
    } else {
        Ok(code)
    }
}

/// An accepted ticket group code is made of ASCII capital letters A-Z
/// only, and is the raw id without its `tg_` prefix; an id holding a digit
/// anywhere is refused.
pub proof fn law_ticket_group_code_capitals_only(raw: Seq<char>)
    ensures
        ticket_group_code(raw) is Ok ==> {
            let c = ticket_group_code(raw)->Ok_0;
            &&& c == seq_strip_prefix(raw, "tg_"@)
            &&& forall|i: int| 0 <= i < c.len() ==> 'A' <= #[trigger] c[i] && c[i] <= 'Z'
        },
        (exists|i: int| 0 <= i < raw.len() && '0' <= #[trigger] raw[i] && raw[i] <= '9')
            ==> ticket_group_code(raw) is Err,
{
    reveal_strlit("tg_");
    let code = seq_strip_prefix(raw, "tg_"@);
    if exists|i: int| 0 <= i < raw.len() && '0' <= #[trigger] raw[i] && raw[i] <= '9' {
        let i = choose|i: int| 0 <= i < raw.len() && '0' <= #[trigger] raw[i] && raw[i] <= '9';
        if seq_starts_with(raw, "tg_"@) {
            assert(raw.subrange(0, 3) == "tg_"@);
            if i < 3 {
                assert(raw[i] == raw.subrange(0, 3)[i]);
                assert("tg_"@[0] == 't' && "tg_"@[1] == 'g' && "tg_"@[2] == '_');
            }
            assert(i >= 3);
            assert(code[i - 3] == raw[i]);
            assert(!('A' <= code[i - 3] && code[i - 3] <= 'Z'));
        } else {
            assert(code[i] == raw[i]);
        }
        assert(!all_upper(code));
    }
}

/// Validate a raw ticket group id (with or without the `tg_` prefix);
/// returns the bare code.
pub fn validate_ticket_group_id(raw: &str) -> (r: Result<&str, String>)
    ensures
        match ticket_group_code(raw@) {
            Ok(c) => r matches Ok(x) && x@ == c,
            Err(m) => r matches Err(x) && x@ == m,
        },
{
    proof {
        reveal_strlit("tg_");
        reveal_strlit("ticket group id must be 2-6 capital letters, got '");
        reveal_strlit("' (");
        reveal_strlit(" chars)");
        reveal_strlit("ticket group id must be uppercase letters A-Z only, got '");
        reveal_strlit("'");
    }
    let code = strip_prefix_or_self(raw, "tg_");
    let len = code.len();
    if len < 2 || len > 6 {
        let mut msg = concat_str("ticket group id must be 2-6 capital letters, got '", code);
        msg.append("' (");
        push_decimal(&mut msg, len as u64);
        msg.append(" chars)");
        proof {
            assert(msg@ =~= "ticket group id must be 2-6 capital letters, got '"@ + code@ + "' ("@ + decimal(len as nat) + " chars)"@);
        }
        return Err(msg);
    }
    let n = code.unicode_len();
    let mut i: usize = 0;
    while i < n
        invariant
            n == code@.len(),
            code@ == seq_strip_prefix(raw@, "tg_"@),
            2 <= encode_utf8(code@).len() as usize <= 6,
            i <= n,
            forall|j: int| 0 <= j < i ==> 'A' <= #[trigger] code@[j] && code@[j] <= 'Z',
        decreases n - i,
    {
        let c = code.get_char(i);
        if !('A' <= c && c <= 'Z') {
            let mut msg = concat_str("ticket group id must be uppercase letters A-Z only, got '", code);
            msg.append("'");
            proof {
                assert(!('A' <= code@[i as int] && code@[i as int] <= 'Z'));
                assert(!all_upper(code@));
                assert(msg@ =~= "ticket group id must be uppercase letters A-Z only, got '"@ + code@ + "'"@);
            }
            return Err(msg);
        }
        i = i + 1;
    }
    Ok(code)
}

/// Strip the `tg_` prefix from a ticket group id (no validation).
pub fn bare_code(id: &str) -> (r: &str)
    ensures
        r@ == seq_strip_prefix(id@, "tg_"@),
{
    strip_prefix_or_self(id, "tg_")
}

/// `{project}__{code}`.
pub open spec fn composite_key_of(project: Seq<char>, code: Seq<char>) -> Seq<char> {
    project + "__"@ + code
}

/// The database key of a ticket group: `{project}__{code}`.
pub fn composite_key(project_id: &str, code: &str) -> (r: String)
    ensures
        r@ == composite_key_of(project_id@, code@),
{
    let mut s = concat_str(project_id, "__");
    s.append(code);
    s
}

/// The database key for a scoped id: accepts `BUG`, `tg_BUG` or an
/// already-composite `{project}__BUG`.
pub open spec fn scoped_key_of(project: Seq<char>, id: Seq<char>) -> Seq<char> {
    let code = seq_strip_prefix(id, "tg_"@);
    let code = seq_strip_prefix(code, project + "__"@);
    composite_key_of(project, code)
}

impl Kind {
    /// The database key of a document addressed by `id` under `project_id`.
    pub fn scoped_db_key(&self, project_id: &str, id: &str) -> (r: String)
        ensures
            *self == Kind::TicketGroups ==> r@ == scoped_key_of(project_id@, id@),
            *self != Kind::TicketGroups ==> r@ == id@,
    {
        match self {
            Kind::TicketGroups => {
                let code = bare_code(id);
                let prefix = concat_str(project_id, "__");
                let code = strip_prefix_or_self(code, prefix.as_str());
                composite_key(project_id, code)
            },
            _ => owned(id),
        }
    }
}

// ---------------------------------------------------------------------------
// Document transforms per kind
// ---------------------------------------------------------------------------

/// The string stored under `k`, if any.
pub open spec fn string_field(m: Map<Seq<char>, Json>, k: Seq<char>) -> Option<Seq<char>> {
    if m.contains_key(k) { m[k].str_view() } else { None }
}

/// `fm` is the internal form of `m`: `id` moved to `_key` (with the new key
/// text `new_key` when given), every other field kept.
pub open spec fn internal_form(m: Map<Seq<char>, Json>, fm: Map<Seq<char>, Json>, new_key: Option<Seq<char>>) -> bool {
    &&& crate::documents::same_outside(m, fm, set!["id"@, "_key"@])
    &&& !fm.contains_key("id"@)
    &&& if m.contains_key("id"@) {
        fm.contains_key("_key"@) && match new_key {
            Some(v) => crate::documents::is_string(fm["_key"@], v),
            None => fm["_key"@] == m["id"@],
        }
    } else {
        fm.contains_key("_key"@) == m.contains_key("_key"@)
            && (m.contains_key("_key"@) ==> fm["_key"@] == m["_key"@])
    }
}

/// Replace `id` by `new_id` when given, then move `id` to `_key`.
fn with_internal_key(body: Json, new_id: Option<String>) -> (r: Json)
    requires
        new_id is Some ==> body is Object && obj_view(body).unwrap().contains_key("id"@),
    ensures
        match body {
            Json::Object(o) => obj_view(r) matches Some(fm) && internal_form(o.view(), fm,
                match new_id { Some(v) => Some(v@), None => None }),
            _ => r == body,
        },
{
    proof {
        reveal_strlit("id");
        reveal_strlit("_key");
        assert("id"@.len() != "_key"@.len());
    }
    let ghost before = body;
    let mut body = body;
    match new_id {
        Some(v) => {
            match &mut body {
                Json::Object(obj) => {
                    obj.insert(owned("id"), Json::String(v));
                },
                _ => {},
            }
        },
        None => {},
    }
    let ghost mid = body;
    let r = standard_to_internal(body);
    proof {
        if let Json::Object(o) = before {
            if let Json::Object(mo) = mid {
                let m = o.view();
                let fm = id_to_key_map(mo.view());
                assert(crate::documents::same_outside(m, fm, set!["id"@, "_key"@]));
            }
        }
    }
    r
}

/// The internal key a user document gets, or the naming error.
pub open spec fn user_key(m: Map<Seq<char>, Json>) -> Result<Option<Seq<char>>, Seq<char>> {
    match string_field(m, "id"@) {
        None => Ok(None),
        Some(id) => match crate::naming::username_result(seq_strip_prefix(id, "u_"@)) {
            Ok(v) => Ok(Some("u_"@ + v)),
            Err(e) => Err(crate::naming::naming_message(e)),
        },
    }
}

/// The internal key of a prefixed kind (groups `g_`, credentials `rc_`).
pub open spec fn prefixed_key(m: Map<Seq<char>, Json>, prefix: Seq<char>) -> Result<Option<Seq<char>>, Seq<char>> {
    match string_field(m, "id"@) {
        None => Ok(None),
        Some(id) => match crate::naming::prefixed_id_result(id, prefix) {
            Ok(v) => Ok(Some(prefix + v)),
            Err(e) => Err(crate::naming::naming_message(e)),
        },
    }
}

/// The internal key of a task: `t_` is prepended unless present.
pub open spec fn task_key(m: Map<Seq<char>, Json>) -> Option<Seq<char>> {
    match string_field(m, "id"@) {
        None => None,
        Some(id) => Some(if seq_starts_with(id, "t_"@) { id } else { "t_"@ + id }),
    }
}

/// The internal key of a ticket group: `{project}__{code}` when the document
/// names a non-empty project, `tg_{code}` otherwise; or the validation error.
pub open spec fn ticket_group_key(m: Map<Seq<char>, Json>) -> Result<Option<Seq<char>>, Seq<char>> {
    let project = match string_field(m, "project"@) { Some(p) => p, None => Seq::empty() };
    match string_field(m, "id"@) {
        None => Ok(None),
        Some(id) => match ticket_group_code(id) {
            Err(msg) => Err(msg),
            Ok(code) => Ok(Some(if project.len() > 0 { composite_key_of(project, code) } else { "tg_"@ + code })),
        },
    }
}

/// Top-level fields accepted by the repo-credential API.
pub open spec fn repo_credential_fields() -> Seq<&'static str> {
    seq!["id", "_key", "name", "method", "description", "username", "secret", "passphrase",
        "labels", "annotations", "acl", "state", "deletion", "hash_code"]
}

/// Top-level fields accepted by the CRD API.
pub open spec fn crd_fields() -> Seq<&'static str> {
    seq!["id", "_key", "name", "scope", "acl_mode", "nouns", "relations", "fields", "id_prefix",
        "super_permission", "description", "labels", "annotations", "state", "deletion", "hash_code"]
}

/// Top-level fields accepted by the ticket-group API.
pub open spec fn ticket_group_fields() -> Seq<&'static str> {
    seq!["id", "_key", "name", "description", "ticket_types", "project",
        "labels", "annotations", "acl", "state", "deletion", "hash_code"]
}

/// The fields a kind keeps on write, if it filters them.
pub open spec fn kind_allowed(kind: Kind) -> Option<Seq<&'static str>> {
    match kind {
        Kind::RepoCredentials => Some(repo_credential_fields()),
        Kind::Crds => Some(crd_fields()),
        Kind::TicketGroups => Some(ticket_group_fields()),
        _ => None,
    }
}

/// The document after field filtering.
pub open spec fn filtered(kind: Kind, m: Map<Seq<char>, Json>) -> Map<Seq<char>, Json> {
    match kind_allowed(kind) {
        Some(s) => m.restrict(field_set(s)),
        None => m,
    }
}

/// The field list a kind keeps on write.
pub fn allowed_fields(kind: Kind) -> (r: Option<Vec<&'static str>>)
    ensures
        match kind_allowed(kind) {
            Some(s) => r matches Some(v) && v@ == s,
            None => r is None,
        },
{
    let names: Vec<&'static str> = match kind {
        Kind::RepoCredentials => vec!["id", "_key", "name", "method", "description", "username", "secret",
            "passphrase", "labels", "annotations", "acl", "state", "deletion", "hash_code"],
        Kind::Crds => vec!["id", "_key", "name", "scope", "acl_mode", "nouns", "relations", "fields", "id_prefix",
            "super_permission", "description", "labels", "annotations", "state", "deletion", "hash_code"],
        Kind::TicketGroups => vec!["id", "_key", "name", "description", "ticket_types", "project",
            "labels", "annotations", "acl", "state", "deletion", "hash_code"],
        _ => return None,
    };
    proof {
        assert(names@ =~= kind_allowed(kind).unwrap());
    }
    Some(names)
}

/// The internal key a kind assigns, or the validation error.
pub open spec fn kind_key(kind: Kind, m: Map<Seq<char>, Json>) -> Result<Option<Seq<char>>, Seq<char>> {
    match kind {
        Kind::Users => user_key(m),
        Kind::Groups => prefixed_key(m, "g_"@),
        Kind::RepoCredentials => prefixed_key(m, "rc_"@),
        Kind::TicketGroups => ticket_group_key(m),
        Kind::Tasks => Ok(task_key(m)),
        _ => Ok(None),
    }
}

/// A user document without a `personal` field gets
/// `{"name": "", "gender": "", "job_title": "", "manager": null}`.
pub open spec fn is_default_personal(v: Json) -> bool {
    obj_view(v) matches Some(p) && {
        &&& p.dom() == set!["name"@, "gender"@, "job_title"@, "manager"@]
        &&& crate::documents::is_string(p["name"@], Seq::empty())
        &&& crate::documents::is_string(p["gender"@], Seq::empty())
        &&& crate::documents::is_string(p["job_title"@], Seq::empty())
        &&& p["manager"@] == Json::Null
    }
}

/// The user-only part of the internal form: `password` replaced by a bcrypt
/// hash that the password verifies against, `personal` defaulted.
pub open spec fn user_fields(m: Map<Seq<char>, Json>, fm: Map<Seq<char>, Json>) -> bool {
    &&& !fm.contains_key("password"@)
    &&& match string_field(m, "password"@) {
        Some(p) => fm.contains_key("password_hash"@) && (fm["password_hash"@] matches Json::String(h)
            && h@.len() == 60 && crate::models::bcrypt_verified(p, h@) == Some(true)),
        None => fm.contains_key("password_hash"@) == m.contains_key("password_hash"@)
            && (m.contains_key("password_hash"@) ==> fm["password_hash"@] == m["password_hash"@]),
    }
    &&& crate::documents::added_if_absent(m, fm, "personal"@, |v: Json| is_default_personal(v))
}

/// The result of `to_internal` for a document of `kind`.
pub open spec fn to_internal_result(kind: Kind, body: Json, r: Result<Json, AppError>) -> bool {
    match body {
        Json::Object(o) => {
            let m = filtered(kind, o.view());
            match kind_key(kind, o.view()) {
                Err(msg) => r matches Err(AppError::Validation(e)) && e@ == msg,
                Ok(nk) => if kind == Kind::Users {
                    &&& (r is Ok || r matches Err(AppError::Internal(_)))
                    &&& (string_field(m, "password"@) is None ==> r is Ok)
                    &&& (r matches Ok(out) ==> obj_view(out) matches Some(fm)
                        && exists|um: Map<Seq<char>, Json>| user_fields(m, um)
                            && crate::documents::same_outside(m, um, set!["password"@, "password_hash"@, "personal"@])
                            && internal_form(um, fm, nk))
                } else {
                    r matches Ok(out) && obj_view(out) matches Some(fm) && internal_form(m, fm, nk)
                },
            }
        },
        _ => r == Ok::<Json, AppError>(body),
    }
}

fn string_id(o: &JsonObject) -> (r: Option<&str>)
    ensures
        match r {
            Some(s) => string_field(o.view(), "id"@) == Some(s@),
            None => string_field(o.view(), "id"@) is None,
        },
{
    proof { reveal_strlit("id"); }
    match o.get("id") {
        Some(Json::String(s)) => Some(s.as_str()),
        _ => None,
    }
}

fn key_for(kind: Kind, o: &JsonObject) -> (r: Result<Option<String>, String>)
    ensures
        match kind_key(kind, o.view()) {
            Ok(nk) => r matches Ok(x) && match x { Some(v) => nk == Some(v@), None => nk is None },
            Err(msg) => r matches Err(e) && e@ == msg,
        },
{
    proof {
        reveal_strlit("u_");
        reveal_strlit("g_");
        reveal_strlit("rc_");
        reveal_strlit("t_");
        reveal_strlit("tg_");
        reveal_strlit("project");
    }
    let id = match string_id(o) {
        Some(id) => id,
        None => return Ok(None),
    };
    match kind {
        Kind::Users => match validate_username(strip_prefix_or_self(id, "u_")) {
            Ok(v) => Ok(Some(concat_str("u_", v.as_str()))),
            Err(e) => Err(e),
        },
        Kind::Groups => match validate_group_id(id) {
            Ok(v) => Ok(Some(concat_str("g_", v.as_str()))),
            Err(e) => Err(e),
        },
        Kind::RepoCredentials => match validate_repo_credential_id(id) {
            Ok(v) => Ok(Some(concat_str("rc_", v.as_str()))),
            Err(e) => Err(e),
        },
        Kind::Tasks => {
            if starts_with(id, "t_") {
                Ok(Some(owned(id)))
            } else {
                Ok(Some(concat_str("t_", id)))
            }
        },
        Kind::TicketGroups => {
            let project: &str = match o.get("project") {
                Some(Json::String(p)) => p.as_str(),
                _ => "",
            };
            proof {
                reveal_strlit("");
                assert(project@ == match string_field(o.view(), "project"@) { Some(p) => p, None => Seq::<char>::empty() });
            }
            match validate_ticket_group_id(id) {
                Ok(code) => {
                    if project.unicode_len() > 0 {
                        Ok(Some(composite_key(project, code)))
                    } else {
                        Ok(Some(concat_str("tg_", code)))
                    }
                },
                Err(e) => Err(e),
            }
        },
        _ => Ok(None),
    }
}

/// `{"name": "", "gender": "", "job_title": "", "manager": null}`.
fn default_personal() -> (r: Json)
    ensures
        is_default_personal(r),
{
    proof {
        reveal_strlit("name");
        reveal_strlit("gender");
        reveal_strlit("job_title");
        reveal_strlit("manager");
        reveal_strlit("");
        assert("name"@.len() != "gender"@.len());
        assert("name"@.len() != "job_title"@.len());
        assert("name"@.len() != "manager"@.len());
        assert("gender"@.len() != "job_title"@.len());
        assert("gender"@.len() != "manager"@.len());
        assert("job_title"@.len() != "manager"@.len());
        assert(""@ =~= Seq::<char>::empty());
    }
    let mut p = JsonObject::new();
    p.insert(owned("name"), Json::from_str(""));
    p.insert(owned("gender"), Json::from_str(""));
    p.insert(owned("job_title"), Json::from_str(""));
    p.insert(owned("manager"), Json::Null);
    proof {
        assert(p.view().dom() =~= set!["name"@, "gender"@, "job_title"@, "manager"@]);
    }
    Json::Object(p)
}

/// Replace a user's `password` by its bcrypt hash and default `personal`.
fn user_fields_in(o: &mut JsonObject) -> (r: Result<(), AppError>)
    ensures
        r is Ok ==> user_fields(old(o).view(), final(o).view())
            && crate::documents::same_outside(old(o).view(), final(o).view(), set!["password"@, "password_hash"@, "personal"@]),
        r matches Err(e) ==> e is Internal,
        string_field(old(o).view(), "password"@) is None ==> r is Ok,
{
    proof {
        reveal_strlit("password");
        reveal_strlit("password_hash");
        reveal_strlit("personal");
        assert("password"@.len() != "password_hash"@.len());
        assert("password"@[1] != "personal"@[1]);
        assert("password_hash"@.len() != "personal"@.len());
    }
    let ghost m = o.view();
    match o.remove("password") {
        Some(pw) => {
            match pw.as_str() {
                Some(pw_str) => {
                    match hash_password(pw_str) {
                        Ok(h) => {
                            o.insert(owned("password_hash"), Json::String(h));
                        },
                        Err(e) => return Err(AppError::Internal(e)),
                    }
                },
                None => {},
            }
        },
        None => {},
    }
    let ghost m1 = o.view();
    if !o.contains_key("personal") {
        o.insert(owned("personal"), default_personal());
    }
    proof {
        assert(crate::documents::same_outside(m, o.view(), set!["password"@, "password_hash"@, "personal"@]));
    }
    Ok(())
}

impl Kind {
    /// Convert an API request body into the stored document: validate and
    /// prefix the id and store it as `_key`, drop fields the kind does not
    /// accept, and for users hash the password and default `personal`.
    pub fn to_internal(&self, body: Json) -> (r: Result<Json, AppError>)
        ensures
            to_internal_result(*self, body, r),
    {
        match body {
            Json::Object(o) => {
                let ghost m0 = o.view();
                let mut o = o;
                let nk = match key_for(*self, &o) {
                    Ok(nk) => nk,
                    Err(e) => return Err(AppError::Validation(e)),
                };
                let ghost um = o.view();
                match self {
                    Kind::Users => {
                        match user_fields_in(&mut o) {
                            Ok(()) => {},
                            Err(e) => return Err(e),
                        }
                    },
                    _ => {},
                }
                proof {
                    reveal_strlit("id");
                    reveal_strlit("password");
                    reveal_strlit("password_hash");
                    reveal_strlit("personal");
                    assert("id"@.len() != "password"@.len());
                    assert("id"@.len() != "password_hash"@.len());
                    assert("id"@.len() != "personal"@.len());
                    assert(nk is Some ==> m0.contains_key("id"@));
                    assert(nk is Some ==> o.view().contains_key("id"@));
                }
                let ghost um1 = o.view();
                match allowed_fields(*self) {
                    Some(fields) => {
                        proof {
                            assert(fields@[0]@ == "id"@);
                            assert(field_set(fields@).contains("id"@));
                        }
                        o.retain_fields(fields.as_slice());
                    },
                    None => {},
                }
                proof {
                    assert(nk is Some ==> o.view().contains_key("id"@));
                    if *self != Kind::Users {
                        assert(um1 == m0);
                        assert(o.view() =~= filtered(*self, m0));
                    }
                }
                let ghost mf = o.view();
                let ghost nkv = match &nk { Some(v) => Some(v@), None => None::<Seq<char>> };
                let out = with_internal_key(Json::Object(o), nk);
                proof {
                    let fm = obj_view(out).unwrap();
                    assert(internal_form(mf, fm, nkv));
                    if *self == Kind::Users {
                        assert(mf == um1);
                        assert(user_fields(m0, um1));
                        assert(filtered(*self, m0) == m0);
                    } else {
                        assert(mf == filtered(*self, m0));
                    }
                }
                Ok(out)
            },
            other => Ok(other),
        }
    }
}

/// `fm` is the external form of `m` (see `standard_to_external`).
pub open spec fn external_of(m: Map<Seq<char>, Json>, fm: Map<Seq<char>, Json>) -> bool {
    let k = crate::documents::key_to_id_map(m);
    &&& fm.dom() == k.dom().insert("labels"@)
    &&& forall|x: Seq<char>| x != "labels"@ && k.contains_key(x) ==> #[trigger] fm[x] == k[x]
    &&& crate::documents::added_if_absent(k, fm, "labels"@, |v: Json| crate::documents::is_empty_object(v))
}

/// The `password_hash` string of a stored user document, if it has one.
pub open spec fn stored_password_hash(doc: Json) -> Option<Seq<char>> {
    match obj_view(doc) {
        Some(fm) => string_field(fm, "password_hash"@),
        None => None,
    }
}

/// A user created with a password can log in with it: when `to_internal`
/// turns a user body carrying the password `p` into a stored document, that
/// document's `password_hash` is a hash that `p` verifies against, which is
/// what `check_login` admits.
pub proof fn law_created_user_can_log_in(body: Json, r: Result<Json, AppError>, p: Seq<char>)
    requires
        body matches Json::Object(o) && string_field(o.view(), "password"@) == Some(p),
        to_internal_result(Kind::Users, body, r),
        r is Ok,
    ensures
        stored_password_hash(r->Ok_0) matches Some(h) && crate::models::bcrypt_verified(p, h) == Some(true),
{
    reveal_strlit("id");
    reveal_strlit("_key");
    reveal_strlit("password_hash");
    assert("password_hash"@ != "id"@) by { assert("password_hash"@.len() != "id"@.len()); }
    assert("password_hash"@ != "_key"@) by { assert("password_hash"@[0] != "_key"@[0]); }
    if let Json::Object(o) = body {
        if let Ok(out) = r {
            let m = filtered(Kind::Users, o.view());
            let fm = obj_view(out).unwrap();
            let nk = kind_key(Kind::Users, o.view())->Ok_0;
            let um = choose|um: Map<Seq<char>, Json>| user_fields(m, um)
                && crate::documents::same_outside(m, um, set!["password"@, "password_hash"@, "personal"@])
                && internal_form(um, fm, nk);
            assert(!set!["id"@, "_key"@].contains("password_hash"@));
            assert(fm.contains_key("password_hash"@) == um.contains_key("password_hash"@));
            assert(fm["password_hash"@] == um["password_hash"@]);
        }
    }
}

/// A stored document with a `_key` and `labels`, and none of `id`, `_id`
/// and `_rev`, comes back unchanged when its external form (the result of
/// `standard_to_external`) goes through the inbound rename of
/// `standard_to_internal`.
pub proof fn law_external_then_internal_restores(m: Map<Seq<char>, Json>, fm: Map<Seq<char>, Json>)
    requires
        m.contains_key("_key"@),
        m.contains_key("labels"@),
        !m.contains_key("id"@),
        !m.contains_key("_id"@),
        !m.contains_key("_rev"@),
        external_of(m, fm),
    ensures
        crate::documents::id_to_key_map(fm) == m,
{
    reveal_strlit("id");
    reveal_strlit("_key");
    reveal_strlit("_id");
    reveal_strlit("_rev");
    reveal_strlit("labels");
    assert("id"@ != "_key"@) by { assert("id"@[0] != "_key"@[0]); }
    assert("id"@ != "_id"@) by { assert("id"@[0] != "_id"@[0]); }
    assert("id"@ != "_rev"@) by { assert("id"@[0] != "_rev"@[0]); }
    assert("labels"@ != "_key"@) by { assert("labels"@[0] != "_key"@[0]); }
    assert("labels"@ != "_id"@) by { assert("labels"@[0] != "_id"@[0]); }
    assert("labels"@ != "_rev"@) by { assert("labels"@[0] != "_rev"@[0]); }
    assert("labels"@ != "id"@) by { assert("labels"@[0] != "id"@[0]); }
    let k = crate::documents::key_to_id_map(m);
    assert(k.contains_key("labels"@));
    assert(fm =~= k);
    assert(crate::documents::id_to_key_map(k) =~= m);
}

/// Position of the first `__` at or after `from`, if any.
pub open spec fn sep_from(s: Seq<char>, from: int) -> Option<int>
    decreases s.len() - from,
{
    if from < 0 || from + 1 >= s.len() {
        None
    } else if s[from] == '_' && s[from + 1] == '_' {
        Some(from)
    } else {
        sep_from(s, from + 1)
    }
}

/// The text after the first `__` (`splitn(2, "__").nth(1)`).
pub open spec fn after_first_sep(s: Seq<char>) -> Option<Seq<char>> {
    match sep_from(s, 0) {
        Some(i) => Some(s.subrange(i + 2, s.len() as int)),
        None => None,
    }
}

/// The text after the first `__` of `s`, if it contains one.
pub fn split_after_separator(s: &str) -> (r: Option<&str>)
    ensures
        match after_first_sep(s@) {
            Some(t) => r matches Some(x) && x@ == t,
            None => r is None,
        },
{
    let n = s.unicode_len();
    let mut i: usize = 0;
    while i < n && i + 1 < n
        invariant
            n == s@.len(),
            i <= n,
            sep_from(s@, 0) == sep_from(s@, i as int),
        decreases n - i,
    {
        if s.get_char(i) == '_' && s.get_char(i + 1) == '_' {
            return Some(s.substring_char(i + 2, n));
        }
        i = i + 1;
    }
    None
}

/// Whether the stored credential has a non-empty secret.
pub open spec fn has_secret(m: Map<Seq<char>, Json>) -> bool {
    string_field(m, "secret"@) matches Some(t) && t.len() > 0
}

/// The result of `to_external` for a stored document of `kind`.
pub open spec fn to_external_result(kind: Kind, doc: Json, r: Json) -> bool {
    match doc {
        Json::Object(o) => {
            let m = o.view();
            obj_view(r) matches Some(fm) && match kind {
                Kind::Users => external_of(m.remove("password_hash"@), fm),
                Kind::RepoCredentials => external_of(
                    m.remove("secret"@).remove("passphrase"@).insert("has_secret"@, Json::Bool(has_secret(m))), fm),
                Kind::TicketGroups => match (match string_field(m, "_key"@) { Some(k) => after_first_sep(k), None => None }) {
                    Some(code) => exists|em: Map<Seq<char>, Json>| external_of(m, em)
                        && crate::documents::same_outside(em, fm, set!["id"@])
                        && fm.contains_key("id"@) && crate::documents::is_string(fm["id"@], "tg_"@ + code),
                    _ => external_of(m, fm),
                },
                _ => external_of(m, fm),
            }
        },
        _ => r == doc,
    }
}

impl Kind {
    /// Convert a stored document into its API representation.
    pub fn to_external(&self, doc: Json) -> (r: Json)
        ensures
            to_external_result(*self, doc, r),
    {
        proof {
            reveal_strlit("password_hash");
            reveal_strlit("secret");
            reveal_strlit("passphrase");
            reveal_strlit("has_secret");
            reveal_strlit("_key");
            reveal_strlit("id");
            reveal_strlit("tg_");
        }
        match doc {
            Json::Object(o) => {
                let ghost m = o.view();
                let mut o = o;
                let mut tg_id: Option<String> = None;
                match self {
                    Kind::Users => {
                        o.remove("password_hash");
                    },
                    Kind::RepoCredentials => {
                        let has = match o.get("secret") {
                            Some(Json::String(t)) => t.as_str().unicode_len() > 0,
                            _ => false,
                        };
                        o.remove("secret");
                        o.remove("passphrase");
                        o.insert(owned("has_secret"), Json::Bool(has));
                    },
                    Kind::TicketGroups => {
                        match o.get("_key") {
                            Some(Json::String(k)) => match split_after_separator(k.as_str()) {
                                Some(code) => {
                                    tg_id = Some(concat_str("tg_", code));
                                },
                                None => {},
                            },
                            _ => {},
                        }
                    },
                    _ => {},
                }
                let ghost mid = o.view();
                let out = standard_to_external(Json::Object(o));
                proof {
                    assert(external_of(mid, obj_view(out).unwrap()));
                }
                match tg_id {
                    Some(id) => {
                        let ghost em = obj_view(out).unwrap();
                        let mut out = out;
                        match &mut out {
                            Json::Object(f) => {
                                f.insert(owned("id"), Json::String(id));
                            },
                            _ => {},
                        }
                        proof {
                            let fm = obj_view(out).unwrap();
                            assert(crate::documents::same_outside(em, fm, set!["id"@]));
                        }
                        out
                    },
                    None => out,
                }
            },
            other => other,
        }
    }
}

/// The document after `prepare_create` for `kind`, stamped `now`.
pub open spec fn prepared(kind: Kind, before: Json, after: Json, user: Seq<char>, now: Seq<char>) -> bool {
    match before {
        Json::Object(o) => {
            let m = o.view();
            obj_view(after) matches Some(fm) && match kind {
                Kind::Groups | Kind::Projects | Kind::Tasks => {
                    &&& crate::documents::same_outside(m, fm, set!["meta"@, "acl"@])
                    &&& fm.contains_key("meta"@) && fm.contains_key("acl"@)
                    &&& crate::documents::meta_defaults(if m.contains_key("meta"@) { Some(m["meta"@]) } else { None },
                        fm["meta"@], user, now)
                    &&& crate::documents::acl_with_creator(if m.contains_key("acl"@) { Some(m["acl"@]) } else { None },
                        fm["acl"@], user, now)
                },
                Kind::RepoCredentials => {
                    &&& crate::documents::create_defaults(m.remove("acl"@), fm.remove("acl"@), user, now)
                    &&& fm.contains_key("acl"@)
                    &&& crate::documents::acl_with_creator(if m.contains_key("acl"@) { Some(m["acl"@]) } else { None },
                        fm["acl"@], user, now)
                },
                _ => crate::documents::create_defaults(m, fm, user, now),
            }
        },
        _ => after == before,
    }
}

impl Kind {
    /// Prepare a new document before creation with the given timestamp:
    /// groups, projects and tasks get `meta` defaults and a ROOT ACL entry
    /// for the creator; repo credentials get the common defaults and the
    /// creator entry; other kinds get the common defaults.
    pub fn prepare_create_at(&self, body: &mut Json, user_id: &str, now: &str)
        ensures
            prepared(*self, *old(body), *final(body), user_id@, now@),
    {
        proof {
            reveal_strlit("meta");
            reveal_strlit("acl");
            reveal_strlit("labels");
            reveal_strlit("annotations");
            reveal_strlit("state");
            assert("meta"@.len() != "acl"@.len());
            assert("acl"@.len() != "labels"@.len());
            assert("acl"@.len() != "annotations"@.len());
            assert("acl"@.len() != "state"@.len());
        }
        let ghost before = *body;
        match self {
            Kind::Groups | Kind::Projects | Kind::Tasks => {
                match body {
                    Json::Object(obj) => {
                        let ghost m0 = obj.view();
                        fill_meta(obj, user_id, now);
                        let ghost m1 = obj.view();
                        ensure_creator_acl(obj, user_id, now);
                        proof {
                            assert(crate::documents::same_outside(m0, obj.view(), set!["meta"@, "acl"@]));
                        }
                    },
                    _ => {},
                }
            },
            Kind::RepoCredentials => {
                inject_create_defaults_at(body, user_id, now);
                let ghost mid = *body;
                match body {
                    Json::Object(obj) => {
                        let ghost m1 = obj.view();
                        ensure_creator_acl(obj, user_id, now);
                        proof {
                            let fm = obj.view();
                            if let Json::Object(o) = before {
                                let m = o.view();
                                assert(m.remove("acl"@).remove("state"@) =~= m.remove("state"@).remove("acl"@));
                                assert(crate::documents::same_outside(m.remove("acl"@), fm.remove("acl"@), set!["labels"@, "annotations"@, "state"@]));
                                assert(fm.remove("acl"@)["labels"@] == m1["labels"@]);
                                assert(fm.remove("acl"@)["annotations"@] == m1["annotations"@]);
                                assert(fm.remove("acl"@)["state"@] == m1["state"@]);
                            }
                        }
                    },
                    _ => {},
                }
            },
            _ => {
                inject_create_defaults_at(body, user_id, now);
            },
        }
    }

    /// Prepare a new document before creation, stamped with the current time
    /// in RFC 3339 form.
    pub fn prepare_create(&self, body: &mut Json, user_id: &str)
        ensures
            exists|now: Seq<char>| prepared(*self, *old(body), *final(body), user_id@, now)
                && (four_digit_year(now) ==> rfc3339_instant(now) is Some),
    {
        let now = now_rfc3339();
        self.prepare_create_at(body, user_id, now.as_str());
    }
}

// ---------------------------------------------------------------------------
// Password hashing
// ---------------------------------------------------------------------------

/// Hashes a password with `bcrypt::hash` at bcrypt's default cost. The salt
/// comes from the OS random source, so the hash text is not determined by
/// the password and drawing it may fail; when it succeeds it is bcrypt's
/// 60-character modular-crypt string, which `bcrypt::verify` accepts for
/// that same password (it rehashes with the salt and cost the string holds).
#[verifier::external_body]
pub(crate) fn hash_password(password: &str) -> (r: Result<String, String>)
    ensures
        r matches Ok(h) ==> h@.len() == 60,
        r matches Ok(h) ==> crate::models::bcrypt_verified(password@, h@) == Some(true),
{
    match bcrypt::hash(password, bcrypt::DEFAULT_COST) {
        Ok(h) => Ok(h),
        Err(e) => Err(e.to_string()),
    }
}

/// The first `__` found from `i` in `a` is found at the same place in any
/// extension of `a`.
proof fn lemma_sep_in_prefix(a: Seq<char>, b: Seq<char>, i: int, k: int)
    requires
        0 <= i,
        sep_from(a, i) == Some(k),
    ensures
        sep_from(a + b, i) == Some(k),
    decreases a.len() - i,
{
    let s = a + b;
    assert(s[i] == a[i] && s[i + 1] == a[i + 1]);
    if !(a[i] == '_' && a[i + 1] == '_') {
        lemma_sep_in_prefix(a, b, i + 1, k);
    }
}

/// Addressing a ticket group by its database key gives that key back, for
/// projects whose ids do not begin the key with `tg_`.
pub proof fn law_scoped_key_idempotent(project: Seq<char>, id: Seq<char>)
    requires
        !seq_starts_with(project + "__"@, "tg_"@),
    ensures
        scoped_key_of(project, scoped_key_of(project, id)) == scoped_key_of(project, id),
{
    reveal_strlit("tg_");
    reveal_strlit("__");
    let p2 = project + "__"@;
    let code = seq_strip_prefix(seq_strip_prefix(id, "tg_"@), p2);
    let key = composite_key_of(project, code);
    assert(key =~= p2 + code);
    if seq_starts_with(key, "tg_"@) {
        if project.len() == 0 {
            assert(key[0] == p2[0]);
            assert(p2[0] == '_');
            assert(key.subrange(0, 3)[0] == 't');
        } else {
            assert(key.subrange(0, 3) =~= p2.subrange(0, 3));
        }
    }
    assert(seq_strip_prefix(key, "tg_"@) == key);
    assert(key.subrange(0, p2.len() as int) =~= p2);
    assert(key.subrange(p2.len() as int, key.len() as int) =~= code);
}

/// The API id of a stored ticket group (`tg_` and the code after the first
/// `__` of its key) addresses the same key again, when the project id holds
/// no `__` of its own.
pub proof fn law_ticket_group_id_roundtrip(project: Seq<char>, code: Seq<char>)
    requires
        sep_from(project + "__"@, 0) == Some(project.len() as int),
        !seq_starts_with(code, project + "__"@),
    ensures
        after_first_sep(composite_key_of(project, code)) == Some(code),
        scoped_key_of(project, "tg_"@ + code) == composite_key_of(project, code),
{
    reveal_strlit("tg_");
    reveal_strlit("__");
    let p2 = project + "__"@;
    let key = composite_key_of(project, code);
    assert(key =~= p2 + code);
    lemma_sep_in_prefix(p2, code, 0, project.len() as int);
    assert(key.subrange(project.len() as int + 2, key.len() as int) =~= code);
    let t = "tg_"@ + code;
    assert(t.subrange(0, 3) =~= "tg_"@);
    assert(t.subrange(3, t.len() as int) =~= code);
}

} // verus!
