//! Authorization decisions: who may read, write or create a document of a
//! given kind, given the caller's principals and super-permissions and the
//! documents (and their ACLs) involved. The database lookups that supply
//! these facts happen outside; the rules are here.

use vstd::prelude::*;
use vstd::string::*;
use crate::json::Json;
use crate::error::AppError;
use crate::acl::{Permissions, AccessControlStore, READ_BITS, MODIFY_BITS, WRITE_BITS, CREATE_BITS, FETCH_BITS,
    ROOT_BITS, parse_acl, parsed_acl_entries, acl_parsed_from, acl_grants, acl_grants_scoped, string_views,
    bits_contain, effective_bits, AccessControlList};
use crate::kinds::Kind;
use crate::acl::acl_object;
use crate::text::{str_eq, owned, concat_str};

verus! {

/// Super-permission: bypasses every ACL.
pub const ADM_GODMODE: &'static str = "adm_godmode";
/// Super-permission: manages users, groups and memberships.
pub const ADM_USER_MANAGER: &'static str = "adm_user_manager";
/// Super-permission: manages projects, credentials and configuration.
pub const ADM_CONFIG_EDITOR: &'static str = "adm_config_editor";
/// Super-permission: manages tasks.
pub const ADM_PROJECT_MANAGER: &'static str = "adm_project_manager";
/// Super-permission: may create groups.
pub const USR_CREATE_GROUPS: &'static str = "usr_create_groups";
/// Super-permission: may create projects.
pub const USR_CREATE_PROJECTS: &'static str = "usr_create_projects";

pub open spec fn adm_godmode() -> Seq<char> { "adm_godmode"@ }
pub open spec fn adm_user_manager() -> Seq<char> { "adm_user_manager"@ }
pub open spec fn adm_config_editor() -> Seq<char> { "adm_config_editor"@ }
pub open spec fn adm_project_manager() -> Seq<char> { "adm_project_manager"@ }
pub open spec fn usr_create_groups() -> Seq<char> { "usr_create_groups"@ }
pub open spec fn usr_create_projects() -> Seq<char> { "usr_create_projects"@ }

/// What is known about the requesting user: their principals (own id plus
/// every group reachable through memberships) and the super-permissions
/// any of those principals holds.
pub struct Caller {
    pub principals: Vec<String>,
    pub super_permissions: Vec<String>,
}

impl Caller {
    /// The caller holds super-permission `p`.
    pub open spec fn holds(&self, p: Seq<char>) -> bool {
        string_views(self.super_permissions@).contains(p)
    }

    /// The caller's principal names.
    pub open spec fn names(&self) -> Seq<Seq<char>> {
        string_views(self.principals@)
    }

    /// Whether the caller holds super-permission `perm`.
    pub fn has(&self, perm: &str) -> (r: bool)
        ensures
            r == self.holds(perm@),
    {
        let n = self.super_permissions.len();
        let mut i: usize = 0;
        while i < n
            invariant
                n == self.super_permissions@.len(),
                i <= n,
                forall|j: int| 0 <= j < i ==> self.super_permissions@[j]@ != perm@,
            decreases n - i,
        {
            if str_eq(self.super_permissions[i].as_str(), perm) {
                assert(string_views(self.super_permissions@)[i as int] == perm@);
                return true;
            }
            i = i + 1;
        }
        assert forall|j: int| 0 <= j < string_views(self.super_permissions@).len()
            implies string_views(self.super_permissions@)[j] != perm@ by {}
        false
    }
}

/// The document's ACL grants `required` to the caller (false when the
/// document has no well-formed ACL).
pub open spec fn doc_grants(doc: Json, names: Seq<Seq<char>>, required: u8) -> bool {
    match parsed_acl_entries(doc) {
        Some(es) => exists|k: int| 0 <= k < es.len() && bits_contain(#[trigger] es[k].bits, required)
            && exists|i: int, j: int| #![trigger es[k].principals[i], names[j]]
                0 <= i < es[k].principals.len() && 0 <= j < names.len() && es[k].principals[i] == names[j],
        None => false,
    }
}

pub(crate) proof fn lemma_grants_views(store: AccessControlStore, doc: Json, names: Seq<Seq<char>>, required: u8)
    requires
        acl_parsed_from(Ok(store), doc),
    ensures
        acl_grants(store.list@, names, required) == doc_grants(doc, names, required),
{
    let es = parsed_acl_entries(doc).unwrap();
    let f = |e: AccessControlList| crate::acl::entry_view(e);
    assert(store.list@.map_values(f) == es);
    if acl_grants(store.list@, names, required) {
        let k = choose|k: int| 0 <= k < store.list@.len() && crate::acl::entry_grants(#[trigger] store.list@[k], names, required);
        let e = store.list@[k];
        assert(es[k] == f(e));
        let (i, j) = choose|i: int, j: int| #![trigger e.principals@[i], names[j]]
            0 <= i < e.principals@.len() && 0 <= j < names.len() && e.principals@[i]@ == names[j];
        assert(es[k].principals[i] == e.principals@[i]@);
        assert(bits_contain(es[k].bits, required));
        assert(es[k].principals[i] == names[j]);
        assert(doc_grants(doc, names, required));
    }
    if doc_grants(doc, names, required) {
        let k = choose|k: int| 0 <= k < es.len() && bits_contain(#[trigger] es[k].bits, required)
            && exists|i: int, j: int| #![trigger es[k].principals[i], names[j]]
                0 <= i < es[k].principals.len() && 0 <= j < names.len() && es[k].principals[i] == names[j];
        let e = store.list@[k];
        assert(es[k] == f(e));
        let (i, j) = choose|i: int, j: int| #![trigger es[k].principals[i], names[j]]
            0 <= i < es[k].principals.len() && 0 <= j < names.len() && es[k].principals[i] == names[j];
        assert(es[k].principals[i] == e.principals@[i]@);
        assert(crate::acl::entry_grants(store.list@[k], names, required));
    }
}

/// Whether the document's ACL grants `required` to the caller.
pub fn doc_acl_allows(doc: &Json, caller: &Caller, required: Permissions) -> (r: bool)
    ensures
        r == doc_grants(*doc, caller.names(), required.bits),
{
    match parse_acl(doc) {
        Ok(acl) => {
            proof { lemma_grants_views(acl, *doc, caller.names(), required.bits); }
            acl.check_permission(caller.principals.as_slice(), required)
        },
        Err(()) => false,
    }
}

/// Who may read a document of `kind`.
pub open spec fn read_allowed(kind: Kind, c: Caller, doc: Option<Json>) -> bool {
    match kind {
        Kind::Groups => c.holds(adm_user_manager())
            || (doc matches Some(d) && doc_grants(d, c.names(), READ_BITS)),
        Kind::Projects | Kind::RepoCredentials => c.holds(adm_config_editor())
            || (doc matches Some(d) && doc_grants(d, c.names(), READ_BITS)),
        Kind::Tasks => c.holds(adm_project_manager())
            || (doc matches Some(d) && doc_grants(d, c.names(), READ_BITS)),
        Kind::Memberships => c.holds(adm_user_manager()),
        _ => true,
    }
}

/// Who may write (update/delete) an existing document of `kind`, or create
/// one (`doc` is `None`).
pub open spec fn write_allowed(kind: Kind, c: Caller, doc: Option<Json>) -> bool {
    match kind {
        Kind::Users => c.holds(adm_user_manager()),
        Kind::Groups => c.holds(adm_user_manager()) || match doc {
            Some(d) => doc_grants(d, c.names(), MODIFY_BITS),
            None => c.holds(usr_create_groups()),
        },
        Kind::Projects | Kind::RepoCredentials => c.holds(adm_config_editor()) || match doc {
            Some(d) => doc_grants(d, c.names(), MODIFY_BITS),
            None => c.holds(usr_create_projects()),
        },
        Kind::Tasks => c.holds(adm_project_manager()) || match doc {
            Some(d) => doc_grants(d, c.names(), WRITE_BITS),
            None => c.holds(usr_create_projects()),
        },
        Kind::Crds => c.holds(adm_godmode()),
        Kind::Memberships => false,
        _ => true,
    }
}

impl Kind {
    /// Whether the caller may read `doc`. For memberships this is the
    /// administrator shortcut only; the target group's ACL is checked by
    /// `membership_can_read`.
    pub fn can_read(&self, caller: &Caller, doc: Option<&Json>) -> (r: bool)
        ensures
            r == read_allowed(*self, *caller, match doc { Some(d) => Some(*d), None => None }),
    {
        match self {
            Kind::Groups => caller.has(ADM_USER_MANAGER) || match doc {
                Some(d) => doc_acl_allows(d, caller, Permissions::read()),
                None => false,
            },
            Kind::Projects | Kind::RepoCredentials => caller.has(ADM_CONFIG_EDITOR) || match doc {
                Some(d) => doc_acl_allows(d, caller, Permissions::read()),
                None => false,
            },
            Kind::Tasks => caller.has(ADM_PROJECT_MANAGER) || match doc {
                Some(d) => doc_acl_allows(d, caller, Permissions::read()),
                None => false,
            },
            Kind::Memberships => caller.has(ADM_USER_MANAGER),
            _ => true,
        }
    }

    /// Whether the caller may write `doc` (or create a new document when
    /// `doc` is `None`). Memberships are decided by `can_modify_group`.
    pub fn can_write(&self, caller: &Caller, doc: Option<&Json>) -> (r: bool)
        ensures
            r == write_allowed(*self, *caller, match doc { Some(d) => Some(*d), None => None }),
    {
        match self {
            Kind::Users => caller.has(ADM_USER_MANAGER),
            Kind::Groups => caller.has(ADM_USER_MANAGER) || match doc {
                Some(d) => doc_acl_allows(d, caller, Permissions::modify()),
                None => caller.has(USR_CREATE_GROUPS),
            },
            Kind::Projects | Kind::RepoCredentials => caller.has(ADM_CONFIG_EDITOR) || match doc {
                Some(d) => doc_acl_allows(d, caller, Permissions::modify()),
                None => caller.has(USR_CREATE_PROJECTS),
            },
            Kind::Tasks => caller.has(ADM_PROJECT_MANAGER) || match doc {
                Some(d) => doc_acl_allows(d, caller, Permissions::write()),
                None => caller.has(USR_CREATE_PROJECTS),
            },
            Kind::Crds => caller.has(ADM_GODMODE),
            Kind::Memberships => false,
            _ => true,
        }
    }
}

/// The group a membership document (or request body) targets.
pub fn membership_group(doc: &Json) -> (r: Option<String>)
    ensures
        match doc.field("group"@) {
            Some(Json::String(g)) => r matches Some(x) && x@ == g@,
            _ => r is None,
        },
{
    proof { reveal_strlit("group"); }
    match doc.get("group") {
        Some(Json::String(g)) => Some(g.clone()),
        _ => None,
    }
}

/// Whether the caller may modify a group's membership: administrators
/// always; otherwise the group document's ACL must grant MODIFY.
pub fn can_modify_group(caller: &Caller, group_doc: Option<&Json>) -> (r: bool)
    ensures
        r == (caller.holds(adm_user_manager()) || (group_doc matches Some(d) && doc_grants(*d, caller.names(), MODIFY_BITS))),
{
    caller.has(ADM_USER_MANAGER) || match group_doc {
        Some(d) => doc_acl_allows(d, caller, Permissions::modify()),
        None => false,
    }
}

/// Whether the caller may read a membership whose target group document is
/// `group_doc`: administrators always; otherwise the group's ACL must grant READ.
pub fn membership_can_read(caller: &Caller, group_doc: Option<&Json>) -> (r: bool)
    ensures
        r == (caller.holds(adm_user_manager()) || (group_doc matches Some(d) && doc_grants(*d, caller.names(), READ_BITS))),
{
    caller.has(ADM_USER_MANAGER) || match group_doc {
        Some(d) => doc_acl_allows(d, caller, Permissions::read()),
        None => false,
    }
}

/// A document created without an ACL, once prepared for a kind that records
/// its creator (groups, projects, tasks, repo credentials), grants its
/// creator every permission.
pub proof fn law_creator_gets_root(kind: Kind, before: Json, after: Json, user: Seq<char>, now: Seq<char>)
    requires
        kind == Kind::Groups || kind == Kind::Projects || kind == Kind::Tasks || kind == Kind::RepoCredentials,
        before matches Json::Object(o) && !o.view().contains_key("acl"@),
        crate::kinds::prepared(kind, before, after, user, now),
    ensures
        doc_grants(after, seq![user], ROOT_BITS),
{
    reveal_strlit("acl");
    reveal_strlit("list");
    reveal_strlit("permissions");
    reveal_strlit("principals");
    let fm = crate::documents::obj_view(after).unwrap();
    let a = fm["acl"@];
    assert(crate::documents::acl_with_creator(None, a, user, now));
    let am = crate::documents::obj_view(a).unwrap();
    let items = am["list"@]->Array_0;
    assert(!crate::documents::creator_listed(Seq::<Json>::empty(), user));
    assert(items@.len() == 1);
    let e = items@[0];
    assert(items@.last() == e);
    assert(crate::documents::is_root_entry(e, user));
    let em = crate::documents::obj_view(e).unwrap();
    assert(e.field("permissions"@) == Some(Json::Number(crate::json::JsonNumber::PosInt(31))));
    assert(((31u64 % 256) as u8) == 31u8) by (bit_vector);
    assert(crate::acl::bits_defined(31u8)) by (bit_vector);
    assert(crate::acl::entry_bits(e) == Some(31u8));
    let ps = em["principals"@]->Array_0;
    assert(ps@.drop_last() =~= Seq::<Json>::empty());
    assert(crate::acl::string_items(Seq::<Json>::empty()) =~= Seq::<Seq<char>>::empty());
    assert(crate::acl::string_items(ps@.drop_last()) =~= Seq::<Seq<char>>::empty());
    assert(ps@.last().str_view() == Some(user));
    assert(crate::acl::string_items(ps@) =~= seq![user]);
    assert(items@.drop_last() =~= Seq::<Json>::empty());
    assert(crate::acl::parsed_entries(Seq::<Json>::empty()) == Some(Seq::<crate::acl::AclEntryView>::empty()));
    assert(crate::acl::parsed_entries(items@.drop_last()) == Some(Seq::<crate::acl::AclEntryView>::empty()));
    assert(crate::acl::parsed_entry(e) is Some);
    assert(acl_object(after) == Some(a));
    let es = parsed_acl_entries(after).unwrap();
    assert(es.len() == 1);
    assert(es[0].bits == 31u8);
    assert(es[0].principals =~= seq![user]);
    assert(bits_contain(31u8, 31u8)) by (bit_vector);
    assert(seq![user][0] == user);
    assert(es[0].principals[0] == seq![user][0]);
}


/// Some ACL entry of `d` names one of `names` and holds every bit of `mask`.
pub open spec fn acl_names_with_bits(d: Json, names: Seq<Seq<char>>, mask: u8) -> bool {
    match parsed_acl_entries(d) {
        Some(es) => exists|k: int, i: int, j: int| #![trigger es[k].principals[i], names[j]]
            0 <= k < es.len() && es[k].bits & mask == mask
            && 0 <= i < es[k].principals.len() && 0 <= j < names.len()
            && es[k].principals[i] == names[j],
        None => false,
    }
}

proof fn lemma_grants_flat(d: Json, names: Seq<Seq<char>>, mask: u8)
    ensures
        doc_grants(d, names, mask) == acl_names_with_bits(d, names, mask),
{
    match parsed_acl_entries(d) {
        Some(es) => {
            if doc_grants(d, names, mask) {
                let k = choose|k: int| 0 <= k < es.len() && bits_contain(#[trigger] es[k].bits, mask)
                    && exists|i: int, j: int| #![trigger es[k].principals[i], names[j]]
                        0 <= i < es[k].principals.len() && 0 <= j < names.len() && es[k].principals[i] == names[j];
                let (i, j) = choose|i: int, j: int| #![trigger es[k].principals[i], names[j]]
                    0 <= i < es[k].principals.len() && 0 <= j < names.len() && es[k].principals[i] == names[j];
                assert(es[k].bits & mask == mask);
            }
            if acl_names_with_bits(d, names, mask) {
                let (k, i, j) = choose|k: int, i: int, j: int| #![trigger es[k].principals[i], names[j]]
                    0 <= k < es.len() && es[k].bits & mask == mask
                    && 0 <= i < es[k].principals.len() && 0 <= j < names.len()
                    && es[k].principals[i] == names[j];
                assert(bits_contain(es[k].bits, mask));
                assert(doc_grants(d, names, mask));
            }
        },
        None => {},
    }
}

/// Writing an existing task through its ACL takes an entry that names one
/// of the caller's principals and holds both CREATE (8) and MODIFY (16);
/// without the project-manager super-permission nothing else allows it.
pub proof fn law_task_write_needs_write_bits(c: Caller, d: Json)
    ensures
        write_allowed(Kind::Tasks, c, Some(d))
            <==> (c.holds("adm_project_manager"@) || acl_names_with_bits(d, c.names(), 24u8)),
{
    reveal_strlit("adm_project_manager");
    lemma_grants_flat(d, c.names(), WRITE_BITS);
}

/// An ACL whose entries grant at most FETCH, LIST and NOTIFY never lets a
/// caller write a task; only the project-manager super-permission does.
pub proof fn law_read_only_acl_never_writes_task(c: Caller, d: Json)
    requires
        parsed_acl_entries(d) matches Some(es) && forall|k: int| 0 <= k < es.len() ==> #[trigger] es[k].bits <= 7u8,
    ensures
        write_allowed(Kind::Tasks, c, Some(d)) == c.holds("adm_project_manager"@),
{
    law_task_write_needs_write_bits(c, d);
    let es = parsed_acl_entries(d)->Some_0;
    assert forall|k: int| 0 <= k < es.len() implies #[trigger] es[k].bits & 24u8 != 24u8 by {
        let b = es[k].bits;
        assert(b <= 7u8 ==> b & 24u8 != 24u8) by (bit_vector);
    }
}

/// Writing an existing group, project or repository credential through its
/// ACL takes an entry naming one of the caller's principals that holds
/// MODIFY (16); otherwise only the kind's administrator super-permission
/// (user manager for groups, config editor for the others) allows it.
pub proof fn law_acl_write_needs_modify_bit(kind: Kind, c: Caller, d: Json)
    requires
        kind == Kind::Groups || kind == Kind::Projects || kind == Kind::RepoCredentials,
    ensures
        write_allowed(kind, c, Some(d)) <==> (
            c.holds(if kind == Kind::Groups { "adm_user_manager"@ } else { "adm_config_editor"@ })
            || acl_names_with_bits(d, c.names(), 16u8)),
{
    reveal_strlit("adm_user_manager");
    reveal_strlit("adm_config_editor");
    lemma_grants_flat(d, c.names(), MODIFY_BITS);
}

/// Reading a group, project, repository credential or task through its ACL
/// takes an entry naming one of the caller's principals that holds FETCH,
/// LIST and NOTIFY (7); otherwise only the kind's administrator
/// super-permission allows it.
pub proof fn law_acl_read_needs_read_bits(kind: Kind, c: Caller, d: Json)
    requires
        kind == Kind::Groups || kind == Kind::Projects || kind == Kind::RepoCredentials || kind == Kind::Tasks,
    ensures
        read_allowed(kind, c, Some(d)) <==> (
            c.holds(if kind == Kind::Groups { "adm_user_manager"@ }
                else if kind == Kind::Tasks { "adm_project_manager"@ }
                else { "adm_config_editor"@ })
            || acl_names_with_bits(d, c.names(), 7u8)),
{
    reveal_strlit("adm_user_manager");
    reveal_strlit("adm_config_editor");
    reveal_strlit("adm_project_manager");
    lemma_grants_flat(d, c.names(), READ_BITS);
}

/// Who may create a document (no stored one yet): users take the user
/// manager; groups the user manager or leave to create groups; projects,
/// credentials and tasks their administrator or leave to create projects;
/// CRDs god mode; memberships nobody through this check.
pub proof fn law_create_permissions(kind: Kind, c: Caller)
    ensures
        kind == Kind::Users ==> write_allowed(kind, c, None) == c.holds("adm_user_manager"@),
        kind == Kind::Groups ==> write_allowed(kind, c, None)
            == (c.holds("adm_user_manager"@) || c.holds("usr_create_groups"@)),
        (kind == Kind::Projects || kind == Kind::RepoCredentials) ==> write_allowed(kind, c, None)
            == (c.holds("adm_config_editor"@) || c.holds("usr_create_projects"@)),
        kind == Kind::Tasks ==> write_allowed(kind, c, None)
            == (c.holds("adm_project_manager"@) || c.holds("usr_create_projects"@)),
        kind == Kind::Crds ==> write_allowed(kind, c, None) == c.holds("adm_godmode"@),
        kind == Kind::Memberships ==> !write_allowed(kind, c, None),
{
    reveal_strlit("adm_user_manager");
    reveal_strlit("adm_config_editor");
    reveal_strlit("adm_project_manager");
    reveal_strlit("usr_create_groups");
    reveal_strlit("usr_create_projects");
    reveal_strlit("adm_godmode");
}

} // verus!
