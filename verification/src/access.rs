//! The access-check endpoint: which permission bits a caller effectively
//! holds on a resource, answered as if the resource did not exist when the
//! caller cannot even fetch it.

use vstd::prelude::*;
use vstd::string::*;
use crate::acl::{Permissions, AccessControlStore, AccessControlList, AclEntryView, FETCH_BITS, LIST_BITS, NOTIFY_BITS,
    CREATE_BITS, MODIFY_BITS, ROOT_BITS, parse_acl, parsed_acl_entries, effective_bits, entry_matches, entry_view,
    string_views, bits_contain};
use crate::error::AppError;
use crate::json::{Json, JsonNumber, JsonObject};
use crate::policy::{Caller, adm_godmode, ADM_GODMODE};
use crate::principals::string_array;
use crate::text::owned;

verus! {

/// The entry names one of `names`.
pub open spec fn view_matches(e: AclEntryView, names: Seq<Seq<char>>) -> bool {
    exists|i: int, j: int| #![trigger e.principals[i], names[j]]
        0 <= i < e.principals.len() && 0 <= j < names.len() && e.principals[i] == names[j]
}

/// Union of the bits of the entries naming one of `names`.
pub open spec fn views_effective_bits(es: Seq<AclEntryView>, names: Seq<Seq<char>>) -> u8
    decreases es.len(),
{
    if es.len() == 0 {
        0
    } else {
        let rest = views_effective_bits(es.drop_last(), names);
        if view_matches(es.last(), names) { rest | es.last().bits } else { rest }
    }
}

proof fn lemma_effective_views(list: Seq<AccessControlList>, names: Seq<Seq<char>>)
    ensures
        effective_bits(list, names) == views_effective_bits(list.map_values(|e: AccessControlList| entry_view(e)), names),
    decreases list.len(),
{
    let es = list.map_values(|e: AccessControlList| entry_view(e));
    if list.len() > 0 {
        assert(es.drop_last() =~= list.drop_last().map_values(|e: AccessControlList| entry_view(e)));
        lemma_effective_views(list.drop_last(), names);
        let e = list.last();
        assert(es.last() == entry_view(e));
        if entry_matches(e, names) {
            let (i, j) = choose|i: int, j: int| #![trigger e.principals@[i], names[j]]
                0 <= i < e.principals@.len() && 0 <= j < names.len() && e.principals@[i]@ == names[j];
            assert(es.last().principals[i] == e.principals@[i]@);
        }
        if view_matches(es.last(), names) {
            let (i, j) = choose|i: int, j: int| #![trigger es.last().principals[i], names[j]]
                0 <= i < es.last().principals.len() && 0 <= j < names.len() && es.last().principals[i] == names[j];
            assert(es.last().principals[i] == e.principals@[i]@);
        }
    }
}

/// The entries of a document's ACL, none when it has no well-formed one.
pub open spec fn entries_or_none(doc: Json) -> Seq<AclEntryView> {
    match parsed_acl_entries(doc) {
        Some(es) => es,
        None => Seq::empty(),
    }
}

/// The bits `names` effectively hold on `doc`: from its own ACL, or, when
/// that is empty and the resource is in a project, from the project's whole ACL.
pub open spec fn access_bits(doc: Json, project: Option<Json>, names: Seq<Seq<char>>) -> u8 {
    let own = entries_or_none(doc);
    let es = if own.len() == 0 {
        match project {
            Some(p) => entries_or_none(p),
            None => own,
        }
    } else {
        own
    };
    views_effective_bits(es, names)
}

/// `r` is the access report for `kind`/`id` with `bits`.
pub open spec fn is_access_report(r: Json, kind: Seq<char>, id: Seq<char>, bits: u8) -> bool {
    r matches Json::Object(o) && {
        let m = o.view();
        &&& m.dom() == set!["kind"@, "id"@, "permission_bits"@, "can_fetch"@, "can_list"@, "can_notify"@,
            "can_create"@, "can_modify"@]
        &&& m["kind"@].str_view() == Some(kind)
        &&& m["id"@].str_view() == Some(id)
        &&& m["permission_bits"@] == Json::Number(JsonNumber::PosInt(bits as u64))
        &&& m["can_fetch"@] == Json::Bool(bits_contain(bits, FETCH_BITS))
        &&& m["can_list"@] == Json::Bool(bits_contain(bits, LIST_BITS))
        &&& m["can_notify"@] == Json::Bool(bits_contain(bits, NOTIFY_BITS))
        &&& m["can_create"@] == Json::Bool(bits_contain(bits, CREATE_BITS))
        &&& m["can_modify"@] == Json::Bool(bits_contain(bits, MODIFY_BITS))
    }
}

/// The access report: the bits and one flag per permission.
pub fn build_response(kind: &str, id: &str, bits: Permissions) -> (r: Json)
    ensures
        is_access_report(r, kind@, id@, bits.bits),
{
    proof {
        reveal_strlit("kind");
        reveal_strlit("id");
        reveal_strlit("permission_bits");
        reveal_strlit("can_fetch");
        reveal_strlit("can_list");
        reveal_strlit("can_notify");
        reveal_strlit("can_create");
        reveal_strlit("can_modify");
    }
    let mut o = JsonObject::new();
    o.insert(String::from_str("kind"), Json::from_str(kind));
    o.insert(String::from_str("id"), Json::from_str(id));
    o.insert(String::from_str("permission_bits"), Json::Number(JsonNumber::PosInt(bits.bits() as u64)));
    o.insert(String::from_str("can_fetch"), Json::Bool(bits.contains(Permissions::fetch())));
    o.insert(String::from_str("can_list"), Json::Bool(bits.contains(Permissions::list())));
    o.insert(String::from_str("can_notify"), Json::Bool(bits.contains(Permissions::notify())));
    o.insert(String::from_str("can_create"), Json::Bool(bits.contains(Permissions::create())));
    o.insert(String::from_str("can_modify"), Json::Bool(bits.contains(Permissions::modify())));
    proof {
        let m = o.view();
        assert("kind"@ != "id"@) by { assert("kind"@[0] != "id"@[0]); }
        assert("can_fetch"@ != "can_list"@) by { assert("can_fetch"@[4] != "can_list"@[4]); }
        assert("can_fetch"@ != "can_notify"@) by { assert("can_fetch"@[4] != "can_notify"@[4]); }
        assert("can_fetch"@ != "can_create"@) by { assert("can_fetch"@[4] != "can_create"@[4]); }
        assert("can_fetch"@ != "can_modify"@) by { assert("can_fetch"@[4] != "can_modify"@[4]); }
        assert("can_list"@ != "can_notify"@) by { assert("can_list"@[4] != "can_notify"@[4]); }
        assert("can_list"@ != "can_create"@) by { assert("can_list"@[4] != "can_create"@[4]); }
        assert("can_list"@ != "can_modify"@) by { assert("can_list"@[4] != "can_modify"@[4]); }
        assert("can_notify"@ != "can_create"@) by { assert("can_notify"@[4] != "can_create"@[4]); }
        assert("can_notify"@ != "can_modify"@) by { assert("can_notify"@[4] != "can_modify"@[4]); }
        assert("can_create"@ != "can_modify"@) by { assert("can_create"@[4] != "can_modify"@[4]); }
        assert("kind"@ != "permission_bits"@) by { assert("kind"@[0] != "permission_bits"@[0]); }
        assert("id"@ != "permission_bits"@) by { assert("id"@[0] != "permission_bits"@[0]); }
        assert("kind"@.len() != "can_fetch"@.len() && "kind"@.len() != "can_list"@.len());
        assert("kind"@[0] != "can_notify"@[0] && "kind"@[0] != "can_create"@[0] && "kind"@[0] != "can_modify"@[0]);
        assert("id"@.len() != "can_fetch"@.len() && "id"@.len() != "can_list"@.len());
        assert("id"@[0] != "can_notify"@[0] && "id"@[0] != "can_create"@[0] && "id"@[0] != "can_modify"@[0]);
        assert("permission_bits"@[0] != "can_fetch"@[0] && "permission_bits"@[0] != "can_list"@[0]);
        assert("permission_bits"@[0] != "can_notify"@[0] && "permission_bits"@[0] != "can_create"@[0]);
        assert("permission_bits"@[0] != "can_modify"@[0]);
        assert(m.dom() =~= set!["kind"@, "id"@, "permission_bits"@, "can_fetch"@, "can_list"@, "can_notify"@,
            "can_create"@, "can_modify"@]);
    }
    Json::Object(o)
}

/// The ACL entries of a document, or none (`parse_acl(..).unwrap_or_default()`).
fn acl_or_default(doc: &Json) -> (r: AccessControlStore)
    ensures
        r.list@.map_values(|e: AccessControlList| entry_view(e)) == entries_or_none(*doc),
{
    match parse_acl(doc) {
        Ok(acl) => acl,
        Err(()) => {
            let e = AccessControlStore::empty();
            assert(e.list@.map_values(|x: AccessControlList| entry_view(x)) =~= Seq::<AclEntryView>::empty());
            e
        },
    }
}

/// Whether the resource's own ACL is empty, so that a scoped resource's
/// access comes from its project's ACL.
pub fn needs_project_acl(doc: &Json) -> (r: bool)
    ensures
        r == (entries_or_none(*doc).len() == 0),
{
    let acl = acl_or_default(doc);
    acl.list.len() == 0
}

/// The answer of the access check for a caller whose principals are
/// `principals` and whose super-permissions are `super_permissions`: 404
/// when the resource is absent, ROOT for god mode, otherwise the effective
/// bits, and 404 again when they lack FETCH.
pub fn access_result(kind: &str, id: &str, caller: &Caller, doc: Option<&Json>, project_doc: Option<&Json>)
    -> (r: Result<Json, AppError>)
    ensures
        match doc {
            None => r matches Err(AppError::NotFound(m)) && m@ == "not found"@,
            Some(d) => if caller.holds(adm_godmode()) {
                r matches Ok(j) && is_access_report(j, kind@, id@, ROOT_BITS)
            } else {
                let bits = access_bits(*d, match project_doc { Some(p) => Some(*p), None => None }, caller.names());
                if bits_contain(bits, FETCH_BITS) {
                    r matches Ok(j) && is_access_report(j, kind@, id@, bits)
                } else {
                    r matches Err(AppError::NotFound(m)) && m@ == "not found"@
                }
            },
        },
{
    let d = match doc {
        Some(d) => d,
        None => return Err(AppError::not_found("not found")),
    };
    if caller.has(ADM_GODMODE) {
        return Ok(build_response(kind, id, Permissions::root()));
    }
    let own = acl_or_default(d);
    let acl = if own.list.len() == 0 {
        match project_doc {
            Some(p) => acl_or_default(p),
            None => own,
        }
    } else {
        own
    };
    let bits = acl.effective_permissions(caller.principals.as_slice());
    proof {
        lemma_effective_views(acl.list@, caller.names());
    }
    if !bits.contains(Permissions::fetch()) {
        return Err(AppError::not_found("not found"));
    }
    Ok(build_response(kind, id, bits))
}

/// The caller's own super-permissions, as the UI asks for them.
pub fn my_permissions_response(perms: &Vec<String>) -> (r: Json)
    ensures
        r matches Json::Object(o) && o.view().dom() == set!["super_permissions"@]
            && (o.view()["super_permissions"@] matches Json::Array(a) && a@.len() == perms@.len()
            && forall|i: int| 0 <= i < perms@.len() ==> (#[trigger] a@[i]).str_view() == Some(perms@[i]@)),
{
    proof { reveal_strlit("super_permissions"); }
    let mut o = JsonObject::new();
    o.insert(String::from_str("super_permissions"), string_array(perms));
    assert(o.view().dom() =~= set!["super_permissions"@]);
    Json::Object(o)
}

/// A caller who holds FETCH through some entry is never told the resource is
/// absent: effective bits include every granting entry's bits.
pub proof fn law_fetch_grant_is_reported(es: Seq<AclEntryView>, names: Seq<Seq<char>>, k: int)
    requires
        0 <= k < es.len(),
        view_matches(es[k], names),
        bits_contain(es[k].bits, FETCH_BITS),
    ensures
        bits_contain(views_effective_bits(es, names), FETCH_BITS),
    decreases es.len(),
{
    let rest = views_effective_bits(es.drop_last(), names);
    if k < es.len() - 1 {
        assert(es.drop_last()[k] == es[k]);
        law_fetch_grant_is_reported(es.drop_last(), names, k);
        let last = es.last().bits;
        assert(bits_contain(rest, FETCH_BITS) ==> bits_contain(rest | last, FETCH_BITS)) by (bit_vector);
    } else {
        let last = es.last().bits;
        assert(bits_contain(last, FETCH_BITS) ==> bits_contain(rest | last, FETCH_BITS)) by (bit_vector);
    }
}

} // verus!
