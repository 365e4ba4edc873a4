//! The administrators' access-debugging report: a user's principals and
//! super-permissions, the ACL of a resource, the entries that name the
//! user, and whether a given permission would be granted and why.

use vstd::prelude::*;
use vstd::string::*;
use crate::acl::{Permissions, AccessControlStore, AccessControlList, AclEntryView, parse_acl, parsed_acl_entries,
    entry_view, string_views, acl_grants};
use crate::access::entries_or_none;
use crate::config::{parse_unsigned_decimal, parse_unsigned};
use crate::error::AppError;
use crate::json::{Json, JsonNumber, JsonObject};
use crate::principals::string_array;
use crate::text::{owned, find_char_from};

verus! {

/// The kind and id named by a `kind/id` resource parameter (split at the first `/`).
pub open spec fn resource_parts(r: Seq<char>) -> Option<(Seq<char>, Seq<char>)> {
    if exists|k: int| 0 <= k < r.len() && r[k] == '/' {
        let k = choose|k: int| 0 <= k < r.len() && r[k] == '/' && forall|j: int| 0 <= j < k ==> r[j] != '/';
        Some((r.subrange(0, k), r.subrange(k + 1, r.len() as int)))
    } else {
        None
    }
}

/// Splits a `kind/id` resource parameter.
pub fn split_resource(resource: &str) -> (r: Result<(String, String), AppError>)
    ensures
        match resource_parts(resource@) {
            Some((k, i)) => r matches Ok((a, b)) && a@ == k && b@ == i,
            None => r matches Err(AppError::BadRequest(m)) && m@ == "'resource' must be in format 'kind/id'"@,
        },
{
    let n = resource.unicode_len();
    match find_char_from(resource, '/', 0) {
        Some(k) => {
            proof {
                let c = choose|c: int| 0 <= c < resource@.len() && resource@[c] == '/'
                    && forall|j: int| 0 <= j < c ==> resource@[j] != '/';
                assert(c == k) by {
                    if c < k { assert(resource@[c] != '/'); }
                    if c > k { assert(resource@[k as int] == '/'); }
                }
            }
            Ok((owned(resource.substring_char(0, k)), owned(resource.substring_char(k + 1, n))))
        },
        None => Err(AppError::bad_request("'resource' must be in format 'kind/id'")),
    }
}

/// The principals of `ps` that are among `names`, in order, repeats kept.
pub open spec fn principals_in(ps: Seq<Seq<char>>, names: Seq<Seq<char>>) -> Seq<Seq<char>>
    decreases ps.len(),
{
    if ps.len() == 0 {
        Seq::empty()
    } else {
        let rest = principals_in(ps.drop_last(), names);
        if names.contains(ps.last()) { rest.push(ps.last()) } else { rest }
    }
}

/// For each entry naming one of `names`: its position, bits and the names it lists.
pub open spec fn matching_view(es: Seq<AclEntryView>, names: Seq<Seq<char>>) -> Seq<(int, u8, Seq<Seq<char>>)>
    decreases es.len(),
{
    if es.len() == 0 {
        Seq::empty()
    } else {
        let rest = matching_view(es.drop_last(), names);
        let m = principals_in(es.last().principals, names);
        if m.len() > 0 { rest.push((es.len() - 1, es.last().bits, m)) } else { rest }
    }
}

/// `j` reports the matching entry `t`.
pub open spec fn reports_entry(j: Json, t: (int, u8, Seq<Seq<char>>)) -> bool {
    j matches Json::Object(o) && {
        let m = o.view();
        &&& m.dom() == set!["entry_index"@, "permission_bits"@, "matching_principals"@]
        &&& m["entry_index"@] == Json::Number(JsonNumber::PosInt(t.0 as u64))
        &&& m["permission_bits"@] == Json::Number(JsonNumber::PosInt(t.1 as u64))
        &&& m["matching_principals"@] matches Json::Array(a) && a@.len() == t.2.len()
            && forall|i: int| 0 <= i < t.2.len() ==> (#[trigger] a@[i]).str_view() == Some(t.2[i])
    }
}

fn is_listed(names: &[String], p: &String) -> (r: bool)
    ensures
        r == string_views(names@).contains(p@),
{
    let r = crate::acl::principal_listed(names, p);
    proof {
        if r {
            let j = choose|j: int| 0 <= j < names@.len() && names@[j]@ == p@;
            assert(string_views(names@)[j] == p@);
        }
        if string_views(names@).contains(p@) {
            let j = choose|j: int| 0 <= j < string_views(names@).len() && string_views(names@)[j] == p@;
            assert(names@[j]@ == p@);
        }
    }
    r
}

fn matched_principals(e: &AccessControlList, names: &[String]) -> (r: Vec<String>)
    ensures
        string_views(r@) == principals_in(string_views(e.principals@), string_views(names@)),
{
    let mut out: Vec<String> = Vec::new();
    let n = e.principals.len();
    let mut i: usize = 0;
    while i < n
        invariant
            n == e.principals@.len(),
            i <= n,
            string_views(out@) == principals_in(string_views(e.principals@).subrange(0, i as int), string_views(names@)),
        decreases n - i,
    {
        let ghost ps = string_views(e.principals@);
        proof {
            assert(ps.subrange(0, i + 1).drop_last() =~= ps.subrange(0, i as int));
            assert(ps.subrange(0, i + 1).last() == e.principals@[i as int]@);
        }
        if is_listed(names, &e.principals[i]) {
            out.push(e.principals[i].clone());
            proof {
                assert(string_views(out@) =~= string_views(out@.drop_last()).push(out@.last()@));
            }
        }
        i = i + 1;
    }
    proof {
        assert(string_views(e.principals@).subrange(0, n as int) =~= string_views(e.principals@));
    }
    out
}

fn entry_report(index: usize, bits: u8, matched: &Vec<String>) -> (r: Json)
    ensures
        reports_entry(r, (index as int, bits, string_views(matched@))),
{
    proof {
        reveal_strlit("entry_index");
        reveal_strlit("permission_bits");
        reveal_strlit("matching_principals");
        assert("entry_index"@[0] != "permission_bits"@[0]);
        assert("entry_index"@[0] != "matching_principals"@[0]);
        assert("permission_bits"@[0] != "matching_principals"@[0]);
    }
    let mut o = JsonObject::new();
    o.insert(String::from_str("entry_index"), Json::Number(JsonNumber::PosInt(index as u64)));
    o.insert(String::from_str("permission_bits"), Json::Number(JsonNumber::PosInt(bits as u64)));
    o.insert(String::from_str("matching_principals"), string_array(matched));
    assert(o.view().dom() =~= set!["entry_index"@, "permission_bits"@, "matching_principals"@]);
    Json::Object(o)
}

/// The entries of `acl` that name one of `principals`, as reported.
pub fn matching_entries(acl: &AccessControlStore, principals: &[String]) -> (r: Vec<Json>)
    ensures
        r@.len() == matching_view(acl.list@.map_values(|e: AccessControlList| entry_view(e)), string_views(principals@)).len(),
        forall|t: int| 0 <= t < r@.len() ==> reports_entry(#[trigger] r@[t],
            matching_view(acl.list@.map_values(|e: AccessControlList| entry_view(e)), string_views(principals@))[t]),
{
    let ghost names = string_views(principals@);
    let ghost es = acl.list@.map_values(|e: AccessControlList| entry_view(e));
    let mut out: Vec<Json> = Vec::new();
    let n = acl.list.len();
    let mut i: usize = 0;
    while i < n
        invariant
            n == acl.list@.len(),
            i <= n,
            names == string_views(principals@),
            es == acl.list@.map_values(|e: AccessControlList| entry_view(e)),
            out@.len() == matching_view(es.subrange(0, i as int), names).len(),
            forall|t: int| 0 <= t < out@.len() ==> reports_entry(#[trigger] out@[t], matching_view(es.subrange(0, i as int), names)[t]),
        decreases n - i,
    {
        let e = &acl.list[i];
        let matched = matched_principals(e, principals);
        proof {
            assert(es.subrange(0, i + 1).drop_last() =~= es.subrange(0, i as int));
            assert(es.subrange(0, i + 1).last() == entry_view(acl.list@[i as int]));
        }
        if matched.len() > 0 {
            let rep = entry_report(i, e.permissions.bits, &matched);
            let ghost before = out@;
            out.push(rep);
            proof {
                assert forall|t: int| 0 <= t < out@.len() implies reports_entry(#[trigger] out@[t],
                    matching_view(es.subrange(0, i + 1), names)[t]) by {
                    if t < before.len() {
                        assert(out@[t] == before[t]);
                    }
                }
            }
        }
        i = i + 1;
    }
    proof {
        assert(es.subrange(0, n as int) =~= es);
    }
    out
}

/// Why a permission is or is not granted.
pub open spec fn decision_reason(godmode: bool, acl_access: bool) -> Seq<char> {
    if godmode { "godmode bypass"@ } else if acl_access { "ACL match"@ } else { "denied"@ }
}

/// The report's verdict object for `required` bits.
pub fn decision_report(required_bits: u8, godmode: bool, acl_access: bool) -> (r: Json)
    ensures
        r matches Json::Object(o) && {
            let m = o.view();
            &&& m.dom() == set!["required_bits"@, "granted"@, "reason"@]
            &&& m["required_bits"@] == Json::Number(JsonNumber::PosInt(required_bits as u64))
            &&& m["granted"@] == Json::Bool(godmode || acl_access)
            &&& m["reason"@].str_view() == Some(decision_reason(godmode, acl_access))
        },
{
    proof {
        reveal_strlit("required_bits");
        reveal_strlit("granted");
        reveal_strlit("reason");
        assert("required_bits"@.len() != "granted"@.len());
        assert("required_bits"@[0] != "granted"@[0]);
        assert("granted"@[0] != "reason"@[0]);
        assert("required_bits"@[2] != "reason"@[2]);
    }
    let reason = if godmode { "godmode bypass" } else if acl_access { "ACL match" } else { "denied" };
    let mut o = JsonObject::new();
    o.insert(String::from_str("required_bits"), Json::Number(JsonNumber::PosInt(required_bits as u64)));
    o.insert(String::from_str("granted"), Json::Bool(godmode || acl_access));
    o.insert(String::from_str("reason"), Json::from_str(reason));
    assert(o.view().dom() =~= set!["required_bits"@, "granted"@, "reason"@]);
    Json::Object(o)
}

/// The report's base: the user, their principals and their super-permissions.
pub fn report_base(user_id: &str, principals: &Vec<String>, super_permissions: &Vec<String>) -> (r: JsonObject)
    ensures
        r.view().dom() == set!["user"@, "principals"@, "super_permissions"@],
        r.view()["user"@].str_view() == Some(user_id@),
        r.view()["principals"@] matches Json::Array(a) && a@.len() == principals@.len()
            && forall|i: int| 0 <= i < principals@.len() ==> (#[trigger] a@[i]).str_view() == Some(principals@[i]@),
        r.view()["super_permissions"@] matches Json::Array(a) && a@.len() == super_permissions@.len()
            && forall|i: int| 0 <= i < super_permissions@.len() ==> (#[trigger] a@[i]).str_view() == Some(super_permissions@[i]@),
{
    proof {
        reveal_strlit("user");
        reveal_strlit("principals");
        reveal_strlit("super_permissions");
        assert("user"@[0] != "principals"@[0]);
        assert("user"@[0] != "super_permissions"@[0]);
        assert("principals"@[0] != "super_permissions"@[0]);
    }
    let mut o = JsonObject::new();
    o.insert(String::from_str("user"), Json::from_str(user_id));
    o.insert(String::from_str("principals"), string_array(principals));
    o.insert(String::from_str("super_permissions"), string_array(super_permissions));
    assert(o.view().dom() =~= set!["user"@, "principals"@, "super_permissions"@]);
    o
}

/// Adds what is known of the looked-up resource to the report: whether it
/// exists, its raw ACL, the entries naming the user and, when `permission`
/// is given, the verdict on those bits (`permission` must be a `u8`).
pub fn add_resource_findings(report: &mut JsonObject, doc: Option<Json>, principals: &Vec<String>,
    super_permissions: &Vec<String>, permission: Option<&str>) -> (r: Result<(), AppError>)
    ensures
        match doc {
            None => r is Ok && final(report).view() == old(report).view().insert("resource_found"@, Json::Bool(false)),
            Some(d) => {
                let es = entries_or_none(d);
                let names = string_views(principals@);
                let mv = matching_view(es, names);
                let fm = final(report).view();
                let with_findings = fm.contains_key("resource_found"@) && fm["resource_found"@] == Json::Bool(true)
                    && fm.contains_key("resource_acl"@)
                    && fm["resource_acl"@] == match d.field("acl"@) { Some(a) => a, None => Json::Null }
                    && fm.contains_key("matching_acl_entries"@)
                    && (fm["matching_acl_entries"@] matches Json::Array(a) && a@.len() == mv.len()
                        && forall|t: int| 0 <= t < mv.len() ==> reports_entry(#[trigger] a@[t], mv[t]));
                match permission {
                    None => r is Ok && with_findings
                        && fm.dom() == old(report).view().dom().insert("resource_found"@).insert("resource_acl"@)
                            .insert("matching_acl_entries"@),
                    Some(p) => match parse_unsigned(p@, 255) {
                        Err(_) => r matches Err(AppError::BadRequest(m)) && m@ == "'permission' must be a numeric u8 value"@,
                        Ok(bits) => {
                            let godmode = string_views(super_permissions@).contains("adm_godmode"@);
                            r is Ok && with_findings
                                && fm.dom() == old(report).view().dom().insert("resource_found"@).insert("resource_acl"@)
                                    .insert("matching_acl_entries"@).insert("access_result"@)
                                && (fm["access_result"@] matches Json::Object(ao) && ao.view()["granted"@]
                                    == Json::Bool(godmode || crate::policy::doc_grants(d, names, (bits as u8) & crate::acl::ROOT_BITS)))
                        },
                    },
                }
            },
        },
{
    proof {
        reveal_strlit("resource_found");
        reveal_strlit("resource_acl");
        reveal_strlit("matching_acl_entries");
        reveal_strlit("access_result");
        reveal_strlit("acl");
        reveal_strlit("adm_godmode");
    }
    let d = match doc {
        None => {
            report.insert(String::from_str("resource_found"), Json::Bool(false));
            return Ok(());
        },
        Some(d) => d,
    };
    let ghost dv = d;
    let parsed = parse_acl(&d);
    let ghost parsed_g = parsed;
    let acl = match parsed {
        Ok(a) => a,
        Err(()) => AccessControlStore::empty(),
    };
    proof {
        assert(acl.list@.map_values(|e: AccessControlList| entry_view(e)) =~= entries_or_none(dv));
    }
    let matching = matching_entries(&acl, principals.as_slice());
    let acl_raw = match d {
        Json::Object(mut o) => match o.remove("acl") {
            Some(v) => v,
            None => Json::Null,
        },
        _ => Json::Null,
    };
    report.insert(String::from_str("resource_found"), Json::Bool(true));
    report.insert(String::from_str("resource_acl"), acl_raw);
    report.insert(String::from_str("matching_acl_entries"), Json::Array(matching));
    proof {
        assert("resource_found"@[9] != "resource_acl"@[9]);
        assert("resource_found"@[0] != "matching_acl_entries"@[0]);
        assert("resource_acl"@[0] != "matching_acl_entries"@[0]);
        assert("access_result"@[0] != "resource_found"@[0]);
        assert("access_result"@[0] != "resource_acl"@[0]);
        assert("access_result"@[0] != "matching_acl_entries"@[0]);
    }
    match permission {
        None => Ok(()),
        Some(p) => {
            let bits = match parse_unsigned_decimal(p, 255) {
                Ok(b) => b as u8,
                Err(_) => return Err(AppError::bad_request("'permission' must be a numeric u8 value")),
            };
            let required = Permissions::from_bits_truncate(bits);
            let mut godmode = false;
            let n = super_permissions.len();
            let mut i: usize = 0;
            while i < n
                invariant
                    n == super_permissions@.len(),
                    i <= n,
                    godmode == exists|j: int| 0 <= j < i && super_permissions@[j]@ == "adm_godmode"@,
                decreases n - i,
            {
                if crate::text::str_eq(super_permissions[i].as_str(), "adm_godmode") {
                    godmode = true;
                }
                i = i + 1;
            }
            proof {
                if godmode {
                    let j = choose|j: int| 0 <= j < n && super_permissions@[j]@ == "adm_godmode"@;
                    assert(string_views(super_permissions@)[j] == "adm_godmode"@);
                }
                if string_views(super_permissions@).contains("adm_godmode"@) {
                    let j = choose|j: int| 0 <= j < n && string_views(super_permissions@)[j] == "adm_godmode"@;
                    assert(super_permissions@[j]@ == "adm_godmode"@);
                }
            }
            let has_acl_access = acl.check_permission(principals.as_slice(), required);
            proof {
                if parsed_g is Ok {
                    crate::policy::lemma_grants_views(parsed_g->Ok_0, dv, string_views(principals@), required.bits);
                }
            }
            report.insert(String::from_str("access_result"), decision_report(bits, godmode, has_acl_access));
            Ok(())
        },
    }
}

/// The user a debug report is about: the `user` parameter is required.
pub fn require_user_param(user: Option<&str>) -> (r: Result<&str, AppError>)
    ensures
        match user {
            Some(u) => r == Ok::<&str, AppError>(u),
            None => r matches Err(AppError::BadRequest(m)) && m@ == "missing 'user' query param"@,
        },
{
    match user {
        Some(u) => Ok(u),
        None => Err(AppError::bad_request("missing 'user' query param")),
    }
}

/// A failed collection dump: asking for a system collection is the
/// caller's mistake (400), anything else a server fault.
pub fn classify_dump_error(message: &str) -> (r: AppError)
    ensures
        if crate::config::seq_contains(message@, "system collections"@) {
            r matches AppError::BadRequest(m) && m@ == message@
        } else {
            r matches AppError::Internal(m) && m@ == message@
        },
{
    if crate::config::str_contains(message, "system collections") {
        AppError::BadRequest(owned(message))
    } else {
        AppError::Internal(owned(message))
    }
}

} // verus!
