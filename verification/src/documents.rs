//! Shared document transforms between the external (API) and internal
//! (database) representation: id/key renaming, default fields, field
//! filtering and the creator's initial ACL entry.

use vstd::prelude::*;
use vstd::string::*;
use crate::json::{Json, JsonNumber, JsonObject, field_set};
use crate::acl::{ROOT_BITS, rfc3339_instant};
use crate::text::owned;

verus! {

/// The map of an object value.
pub open spec fn obj_view(j: Json) -> Option<Map<Seq<char>, Json>> {
    match j {
        Json::Object(o) => Some(o.view()),
        _ => None,
    }
}

/// `j` is `{}`.
pub open spec fn is_empty_object(j: Json) -> bool {
    obj_view(j) == Some(Map::<Seq<char>, Json>::empty())
}

/// `j` is the string `s`.
pub open spec fn is_string(j: Json, s: Seq<char>) -> bool {
    j.str_view() == Some(s)
}

/// `fm` holds `k`: unchanged if `m` had it, otherwise a value satisfying `p`.
pub open spec fn added_if_absent(m: Map<Seq<char>, Json>, fm: Map<Seq<char>, Json>, k: Seq<char>, p: spec_fn(Json) -> bool) -> bool {
    &&& fm.contains_key(k)
    &&& m.contains_key(k) ==> fm[k] == m[k]
    &&& !m.contains_key(k) ==> p(fm[k])
}

/// `fm` agrees with `m` on every key outside `ks`, and has no key outside `m` and `ks`.
pub open spec fn same_outside(m: Map<Seq<char>, Json>, fm: Map<Seq<char>, Json>, ks: Set<Seq<char>>) -> bool {
    &&& forall|k: Seq<char>| !ks.contains(k) ==> (#[trigger] fm.contains_key(k) == m.contains_key(k))
    &&& forall|k: Seq<char>| !ks.contains(k) && m.contains_key(k) ==> #[trigger] fm[k] == m[k]
}

/// The map after `rename_id_to_key`.
pub open spec fn id_to_key_map(m: Map<Seq<char>, Json>) -> Map<Seq<char>, Json> {
    if m.contains_key("id"@) { m.remove("id"@).insert("_key"@, m["id"@]) } else { m }
}

/// The map after `rename_key_to_id`.
pub open spec fn key_to_id_map(m: Map<Seq<char>, Json>) -> Map<Seq<char>, Json> {
    let renamed = if m.contains_key("_key"@) { m.remove("_key"@).insert("id"@, m["_key"@]) } else { m };
    renamed.remove("_id"@).remove("_rev"@)
}

/// An object's map transformed by `f`; other values unchanged.
pub open spec fn maps_object(before: Json, after: Json, f: spec_fn(Map<Seq<char>, Json>) -> Map<Seq<char>, Json>) -> bool {
    match before {
        Json::Object(o) => obj_view(after) == Some(f(o.view())),
        _ => after == before,
    }
}

/// Rename `id` to `_key` in an object.
pub fn rename_id_to_key(body: &mut Json)
    ensures
        maps_object(*old(body), *final(body), |m: Map<Seq<char>, Json>| id_to_key_map(m)),
{
    proof {
        reveal_strlit("id");
        reveal_strlit("_key");
    }
    let ghost before = *body;
    match body {
        Json::Object(obj) => {
            match obj.remove("id") {
                Some(id) => {
                    obj.insert(owned("_key"), id);
                },
                None => {},
            }
        },
        _ => {},
    }
    proof {
        let after = *body;
        if let Json::Object(o) = before {
            if let Json::Object(f) = after {
                assert(f.view() =~= id_to_key_map(o.view()));
            }
        }
    }
}

/// Rename `_key` to `id` and drop the database's `_id` and `_rev` fields.
pub fn rename_key_to_id(doc: &mut Json)
    ensures
        maps_object(*old(doc), *final(doc), |m: Map<Seq<char>, Json>| key_to_id_map(m)),
{
    proof {
        reveal_strlit("id");
        reveal_strlit("_key");
        reveal_strlit("_id");
        reveal_strlit("_rev");
    }
    let ghost before = *doc;
    match doc {
        Json::Object(obj) => {
            match obj.remove("_key") {
                Some(key) => {
                    obj.insert(owned("id"), key);
                },
                None => {},
            }
            obj.remove("_id");
            obj.remove("_rev");
        },
        _ => {},
    }
    proof {
        let after = *doc;
        if let Json::Object(o) = before {
            if let Json::Object(f) = after {
                assert(f.view() =~= key_to_id_map(o.view()));
            }
        }
    }
}

/// Standard external-to-internal transform: `id` becomes `_key`.
pub fn standard_to_internal(body: Json) -> (r: Json)
    ensures
        maps_object(body, r, |m: Map<Seq<char>, Json>| id_to_key_map(m)),
{
    let mut body = body;
    rename_id_to_key(&mut body);
    body
}

/// Standard internal-to-external transform: `_key` becomes `id`, `_id` and
/// `_rev` are dropped, and `labels` defaults to `{}`.
pub fn standard_to_external(doc: Json) -> (r: Json)
    ensures
        match doc {
            Json::Object(o) => r matches Json::Object(f) && crate::kinds::external_of(o.view(), f.view()),
            _ => r == doc,
        },
{
    proof {
        reveal_strlit("labels");
    }
    let ghost before = doc;
    let mut doc = doc;
    rename_key_to_id(&mut doc);
    match &mut doc {
        Json::Object(obj) => {
            obj.insert_if_absent(owned("labels"), Json::empty_object());
        },
        _ => {},
    }
    proof {
        let ghost after = doc;
        if let Json::Object(f) = after {
            if let Json::Object(o) = before {
                let m = key_to_id_map(o.view());
                assert(f.view().dom() =~= m.dom().insert("labels"@));
            }
        }
    }
    doc
}

/// Keep only the listed top-level fields of an object (brief list views).
pub fn filter_to_brief(value: Json, fields: &[&str]) -> (r: Json)
    ensures
        maps_object(value, r, |m: Map<Seq<char>, Json>| m.restrict(field_set(fields@))),
{
    let mut value = value;
    match &mut value {
        Json::Object(obj) => obj.retain_fields(fields),
        _ => {},
    }
    value
}

/// Drop every top-level field not in the kind's allowed list.
pub fn strip_unknown_fields(body: &mut Json, allowed: &[&str])
    ensures
        maps_object(*old(body), *final(body), |m: Map<Seq<char>, Json>| m.restrict(field_set(allowed@))),
{
    match body {
        Json::Object(obj) => obj.retain_fields(allowed),
        _ => {},
    }
}

/// Whether a timestamp text starts with a four-digit year and `-`: the
/// form in which chrono writes the years 0 to 9999.
pub open spec fn four_digit_year(t: Seq<char>) -> bool {
    t.len() > 4 && t[4] == '-'
}

/// The current time in RFC 3339 form (`chrono::Utc::now().to_rfc3339()`).
/// Which time it is depends on the clock. chrono writes the date, time and
/// `+00:00` offset in the form that `DateTime::parse_from_rfc3339` reads, so
/// the text parses back; only a year past 9999, which chrono writes with a
/// sign and five digits, falls outside that form.
#[verifier::external_body]
pub(crate) fn now_rfc3339() -> (r: String)
    ensures
        four_digit_year(r@) ==> rfc3339_instant(r@) is Some,
{
    chrono::Utc::now().to_rfc3339()
}

/// `state` after the audit defaults: an object gains `created_at`,
/// `created_by` and `updated_at` where absent; other values are kept.
pub open spec fn audit_defaults(before: Option<Json>, after: Json, user: Seq<char>, now: Seq<char>) -> bool {
    let base = match before {
        None => Some(Map::<Seq<char>, Json>::empty()),
        Some(Json::Object(o)) => Some(o.view()),
        Some(_) => None,
    };
    match base {
        None => Some(after) == before,
        Some(m) => obj_view(after) matches Some(fm) && {
            &&& same_outside(m, fm, set!["created_at"@, "created_by"@, "updated_at"@])
            &&& added_if_absent(m, fm, "created_at"@, |v: Json| is_string(v, now))
            &&& added_if_absent(m, fm, "created_by"@, |v: Json| is_string(v, user))
            &&& added_if_absent(m, fm, "updated_at"@, |v: Json| is_string(v, now))
        },
    }
}

fn fill_audit(state: Json, user_id: &str, now: &str) -> (r: Json)
    ensures
        audit_defaults(Some(state), r, user_id@, now@),
{
    proof {
        reveal_strlit("created_at");
        reveal_strlit("created_by");
        reveal_strlit("updated_at");
        assert("created_at"@[8] != "created_by"@[8]);
        assert("created_at"@[0] != "updated_at"@[0]);
        assert("created_by"@[0] != "updated_at"@[0]);
    }
    let ghost before = state;
    let mut state = state;
    match &mut state {
        Json::Object(so) => {
            so.insert_if_absent(owned("created_at"), Json::from_str(now));
            so.insert_if_absent(owned("created_by"), Json::from_str(user_id));
            so.insert_if_absent(owned("updated_at"), Json::from_str(now));
        },
        _ => {},
    }
    proof {
        let after = state;
        if let Json::Object(f) = after {
            if let Json::Object(o) = before {
                assert(same_outside(o.view(), f.view(), set!["created_at"@, "created_by"@, "updated_at"@]));
            }
        }
    }
    state
}

/// The object after the creation defaults of `inject_create_defaults`.
pub open spec fn create_defaults(m: Map<Seq<char>, Json>, fm: Map<Seq<char>, Json>, user: Seq<char>, now: Seq<char>) -> bool {
    &&& same_outside(m, fm, set!["labels"@, "annotations"@, "state"@])
    &&& added_if_absent(m, fm, "labels"@, |v: Json| is_empty_object(v))
    &&& added_if_absent(m, fm, "annotations"@, |v: Json| is_empty_object(v))
    &&& fm.contains_key("state"@)
    &&& audit_defaults(if m.contains_key("state"@) { Some(m["state"@]) } else { None }, fm["state"@], user, now)
}

/// Inject the common creation defaults with the given timestamp: empty
/// `labels` and `annotations` where absent, and the `state` audit fields.
pub fn inject_create_defaults_at(body: &mut Json, user_id: &str, now: &str)
    ensures
        match *old(body) {
            Json::Object(o) => obj_view(*final(body)) matches Some(fm) && create_defaults(o.view(), fm, user_id@, now@),
            _ => *final(body) == *old(body),
        },
{
    proof {
        reveal_strlit("labels");
        reveal_strlit("annotations");
        reveal_strlit("state");
        assert("labels"@.len() != "annotations"@.len());
        assert("labels"@.len() != "state"@.len());
        assert("state"@.len() != "annotations"@.len());
    }
    let ghost before = *body;
    match body {
        Json::Object(obj) => {
            obj.insert_if_absent(owned("labels"), Json::empty_object());
            obj.insert_if_absent(owned("annotations"), Json::empty_object());
            let state = match obj.remove("state") {
                Some(v) => fill_audit(v, user_id, now),
                None => fill_audit(Json::empty_object(), user_id, now),
            };
            obj.insert(owned("state"), state);
        },
        _ => {},
    }
    proof {
        let after = *body;
        if let Json::Object(o) = before {
            if let Json::Object(f) = after {
                let m = o.view();
                let fm = f.view();
                assert(same_outside(m, fm, set!["labels"@, "annotations"@, "state"@]));
                assert(added_if_absent(m, fm, "labels"@, |v: Json| is_empty_object(v)));
                assert(added_if_absent(m, fm, "annotations"@, |v: Json| is_empty_object(v)));
                assert(fm.contains_key("state"@));
                assert(audit_defaults(if m.contains_key("state"@) { Some(m["state"@]) } else { None }, fm["state"@], user_id@, now@));
            }
        }
    }
}

/// Inject the common creation defaults, stamped with the current time in
/// RFC 3339 form.
pub fn inject_create_defaults(body: &mut Json, user_id: &str)
    ensures
        match *old(body) {
            Json::Object(o) => obj_view(*final(body)) matches Some(fm)
                && exists|now: Seq<char>| create_defaults(o.view(), fm, user_id@, now)
                    && (four_digit_year(now) ==> rfc3339_instant(now) is Some),
            _ => *final(body) == *old(body),
        },
{
    let now = now_rfc3339();
    inject_create_defaults_at(body, user_id, now.as_str());
}

/// The `meta` object after the metadata defaults (audit fields plus empty
/// `labels` and `annotations`).
pub open spec fn meta_defaults(before: Option<Json>, after: Json, user: Seq<char>, now: Seq<char>) -> bool {
    let base = match before {
        None => Some(Map::<Seq<char>, Json>::empty()),
        Some(Json::Object(o)) => Some(o.view()),
        Some(_) => None,
    };
    match base {
        None => Some(after) == before,
        Some(m) => obj_view(after) matches Some(fm) && {
            &&& same_outside(m, fm, set!["created_at"@, "created_by"@, "updated_at"@, "labels"@, "annotations"@])
            &&& added_if_absent(m, fm, "created_at"@, |v: Json| is_string(v, now))
            &&& added_if_absent(m, fm, "created_by"@, |v: Json| is_string(v, user))
            &&& added_if_absent(m, fm, "updated_at"@, |v: Json| is_string(v, now))
            &&& added_if_absent(m, fm, "labels"@, |v: Json| is_empty_object(v))
            &&& added_if_absent(m, fm, "annotations"@, |v: Json| is_empty_object(v))
        },
    }
}

/// Fill the `meta` object of a document with its creation defaults.
pub fn fill_meta(obj: &mut JsonObject, user_id: &str, now: &str)
    ensures
        same_outside(old(obj).view(), final(obj).view(), set!["meta"@]),
        final(obj).view().contains_key("meta"@),
        meta_defaults(if old(obj).view().contains_key("meta"@) { Some(old(obj).view()["meta"@]) } else { None },
            final(obj).view()["meta"@], user_id@, now@),
{
    proof {
        reveal_strlit("meta");
        reveal_strlit("created_at");
        reveal_strlit("created_by");
        reveal_strlit("updated_at");
        reveal_strlit("labels");
        reveal_strlit("annotations");
        assert("created_at"@[8] != "created_by"@[8]);
        assert("created_at"@[0] != "updated_at"@[0]);
        assert("created_by"@[0] != "updated_at"@[0]);
    }
    let ghost meta_before = if obj.view().contains_key("meta"@) { Some(obj.view()["meta"@]) } else { None::<Json> };
    let mut meta = match obj.remove("meta") {
        Some(v) => v,
        None => Json::empty_object(),
    };
    match &mut meta {
        Json::Object(mo) => {
            mo.insert_if_absent(owned("created_at"), Json::from_str(now));
            mo.insert_if_absent(owned("created_by"), Json::from_str(user_id));
            mo.insert_if_absent(owned("updated_at"), Json::from_str(now));
            mo.insert_if_absent(owned("labels"), Json::empty_object());
            mo.insert_if_absent(owned("annotations"), Json::empty_object());
        },
        _ => {},
    }
    proof {
        let after = meta;
        if let Json::Object(f) = after {
            let m = match meta_before { Some(Json::Object(o)) => o.view(), _ => Map::<Seq<char>, Json>::empty() };
            assert(same_outside(m, f.view(), set!["created_at"@, "created_by"@, "updated_at"@, "labels"@, "annotations"@]));
        }
    }
    obj.insert(owned("meta"), meta);
}

/// `e` is an ACL entry document naming `user` among its principals.
pub open spec fn names_principal(e: Json, user: Seq<char>) -> bool {
    match e.field("principals"@) {
        Some(Json::Array(ps)) => has_string(ps@, user),
        _ => false,
    }
}

/// One of `items` is the string `s`.
pub open spec fn has_string(items: Seq<Json>, s: Seq<char>) -> bool {
    exists|j: int| 0 <= j < items.len() && is_string(#[trigger] items[j], s)
}

/// Some entry of `items` names `user`.
pub open spec fn creator_listed(items: Seq<Json>, user: Seq<char>) -> bool {
    exists|i: int| 0 <= i < items.len() && names_principal(#[trigger] items[i], user)
}

/// `e` is `{"permissions": ROOT, "principals": [user]}`.
pub open spec fn is_root_entry(e: Json, user: Seq<char>) -> bool {
    obj_view(e) matches Some(m) && {
        &&& m.dom() == set!["permissions"@, "principals"@]
        &&& m["permissions"@] == Json::Number(JsonNumber::PosInt(ROOT_BITS as u64))
        &&& m["principals"@] matches Json::Array(ps) && ps@.len() == 1 && is_string(ps@[0], user)
    }
}

/// The ACL list after adding the creator: a ROOT entry is appended unless
/// some entry already names the creator.
pub open spec fn list_with_creator(before: Seq<Json>, after: Seq<Json>, user: Seq<char>) -> bool {
    if creator_listed(before, user) {
        after == before
    } else {
        after.len() == before.len() + 1 && after.drop_last() == before && is_root_entry(after.last(), user)
    }
}

/// The `acl` value after the creator step (see `ensure_creator_acl`).
pub open spec fn acl_with_creator(before: Option<Json>, after: Json, user: Seq<char>, now: Seq<char>) -> bool {
    match before {
        None => obj_view(after) matches Some(am) && {
            &&& am.dom() == set!["list"@, "last_mod_date"@]
            &&& is_string(am["last_mod_date"@], now)
            &&& am["list"@] matches Json::Array(items) && list_with_creator(Seq::empty(), items@, user)
        },
        Some(Json::Object(ao)) => obj_view(after) matches Some(am) && {
            &&& same_outside(ao.view(), am, set!["list"@])
            &&& am.contains_key("list"@)
            &&& if !ao.view().contains_key("list"@) {
                am["list"@] matches Json::Array(items) && list_with_creator(Seq::empty(), items@, user)
            } else {
                match ao.view()["list"@] {
                    Json::Array(old_items) => am["list"@] matches Json::Array(items)
                        && list_with_creator(old_items@, items@, user),
                    other => am["list"@] == other,
                }
            }
        },
        Some(other) => after == other,
    }
}

fn entry_names(e: &Json, user_id: &str) -> (r: bool)
    ensures
        r == names_principal(*e, user_id@),
{
    proof {
        reveal_strlit("principals");
    }
    match e.get("principals") {
        Some(Json::Array(ps)) => {
            let n = ps.len();
            let mut j: usize = 0;
            while j < n
                invariant
                    e.field("principals"@) == Some(Json::Array(*ps)),
                    n == ps@.len(),
                    j <= n,
                    forall|k: int| 0 <= k < j ==> !is_string(#[trigger] ps@[k], user_id@),
                decreases n - j,
            {
                match ps[j].as_str() {
                    Some(t) => {
                        if crate::text::str_eq(t, user_id) {
                            assert(is_string(ps@[j as int], user_id@));
                            assert(has_string(ps@, user_id@));
                            return true;
                        }
                    },
                    None => {},
                }
                j = j + 1;
            }
            false
        },
        _ => false,
    }
}

fn has_creator(items: &Vec<Json>, user_id: &str) -> (r: bool)
    ensures
        r == creator_listed(items@, user_id@),
{
    let n = items.len();
    let mut i: usize = 0;
    while i < n
        invariant
            n == items@.len(),
            i <= n,
            forall|k: int| 0 <= k < i ==> !names_principal(#[trigger] items@[k], user_id@),
        decreases n - i,
    {
        if entry_names(&items[i], user_id) {
            return true;
        }
        i = i + 1;
    }
    false
}

/// `{"permissions": ROOT, "principals": [user]}`.
pub fn root_entry(user_id: &str) -> (r: Json)
    ensures
        is_root_entry(r, user_id@),
{
    proof {
        reveal_strlit("permissions");
        reveal_strlit("principals");
        assert("permissions"@[3] != "principals"@[3]);
    }
    let mut e = JsonObject::new();
    e.insert(owned("permissions"), Json::Number(JsonNumber::PosInt(ROOT_BITS as u64)));
    let mut ps: Vec<Json> = Vec::new();
    ps.push(Json::from_str(user_id));
    proof {
        assert(is_string(ps@[0], user_id@));
    }
    e.insert(owned("principals"), Json::Array(ps));
    proof {
        assert(e.view().dom() =~= set!["permissions"@, "principals"@]);
    }
    Json::Object(e)
}

fn add_creator_to_list(list: Json, user_id: &str) -> (r: Json)
    ensures
        match list {
            Json::Array(old_items) => r matches Json::Array(items) && list_with_creator(old_items@, items@, user_id@),
            _ => r == list,
        },
{
    match list {
        Json::Array(items) => {
            let mut items = items;
            if !has_creator(&items, user_id) {
                let ghost before = items@;
                items.push(root_entry(user_id));
                proof {
                    assert(items@.drop_last() =~= before);
                }
            }
            Json::Array(items)
        },
        other => other,
    }
}

/// `{"list": [], "last_mod_date": now}`.
fn fresh_acl(now: &str) -> (r: Json)
    ensures
        obj_view(r) matches Some(m) && m.dom() == set!["list"@, "last_mod_date"@]
            && (m["list"@] matches Json::Array(v) && v@.len() == 0)
            && is_string(m["last_mod_date"@], now@),
{
    proof {
        reveal_strlit("list");
        reveal_strlit("last_mod_date");
    }
    proof {
        assert("list"@.len() != "last_mod_date"@.len());
    }
    let mut fresh = JsonObject::new();
    let empty: Vec<Json> = Vec::new();
    fresh.insert(owned("list"), Json::Array(empty));
    fresh.insert(owned("last_mod_date"), Json::from_str(now));
    proof {
        assert(fresh.view().dom() =~= set!["list"@, "last_mod_date"@]);
    }
    Json::Object(fresh)
}

/// Ensure the document's ACL gives its creator ROOT permissions: creates
/// `{"list": [], "last_mod_date": now}` when there is no `acl`, an empty
/// `list` when the ACL has none, and appends a ROOT entry for the creator
/// unless some entry already names them.
pub fn ensure_creator_acl(obj: &mut JsonObject, user_id: &str, now: &str)
    ensures
        same_outside(old(obj).view(), final(obj).view(), set!["acl"@]),
        final(obj).view().contains_key("acl"@),
        acl_with_creator(if old(obj).view().contains_key("acl"@) { Some(old(obj).view()["acl"@]) } else { None },
            final(obj).view()["acl"@], user_id@, now@),
{
    proof {
        reveal_strlit("acl");
        reveal_strlit("list");
        reveal_strlit("last_mod_date");
        assert("list"@.len() != "last_mod_date"@.len());
    }
    let ghost acl_before = if obj.view().contains_key("acl"@) { Some(obj.view()["acl"@]) } else { None::<Json> };
    let acl = match obj.remove("acl") {
        Some(v) => v,
        None => fresh_acl(now),
    };
    let ghost acl_mid = acl;
    let acl = match acl {
        Json::Object(ao) => {
            let ghost ao_before = ao.view();
            let mut ao = ao;
            let list = match ao.remove("list") {
                Some(l) => l,
                None => Json::Array(Vec::new()),
            };
            let ghost list_before = list;
            let list = add_creator_to_list(list, user_id);
            ao.insert(owned("list"), list);
            proof {
                assert(same_outside(ao_before, ao.view(), set!["list"@]));
                assert(ao.view()["list"@] == list);
                if acl_before is None {
                    assert(ao_before.dom() =~= set!["list"@, "last_mod_date"@]);
                    assert(list_before matches Json::Array(v) && v@.len() == 0);
                    if let Json::Array(v) = list_before {
                        assert(v@ =~= Seq::<Json>::empty());
                    }
                    assert(ao.view().dom() =~= set!["list"@, "last_mod_date"@]);
                    assert(ao.view()["last_mod_date"@] == ao_before["last_mod_date"@]);
                    assert(acl_with_creator(acl_before, Json::Object(ao), user_id@, now@));
                }
            }
            Json::Object(ao)
        },
        other => other,
    };
    proof {
        match acl_before {
            None => {
                assert(acl_with_creator(acl_before, acl, user_id@, now@));
            },
            Some(Json::Object(ao)) => {
                assert(acl_mid == Json::Object(ao));
                assert(acl_with_creator(acl_before, acl, user_id@, now@));
            },
            Some(other) => {
                assert(acl_with_creator(acl_before, acl, user_id@, now@));
            },
        }
    }
    obj.insert(owned("acl"), acl);
}

/// Renaming `id` to `_key` and back restores a document that had no
/// database fields (`_key`, `_id`, `_rev`).
pub proof fn law_rename_roundtrip(m: Map<Seq<char>, Json>)
    requires
        !m.contains_key("_key"@),
        !m.contains_key("_id"@),
        !m.contains_key("_rev"@),
    ensures
        key_to_id_map(id_to_key_map(m)) == m,
{
    reveal_strlit("id");
    reveal_strlit("_key");
    reveal_strlit("_id");
    reveal_strlit("_rev");
    assert("id"@ != "_key"@) by { assert("id"@[0] != "_key"@[0]); }
    assert("id"@ != "_id"@) by { assert("id"@[0] != "_id"@[0]); }
    assert("id"@ != "_rev"@) by { assert("id"@[0] != "_rev"@[0]); }
    assert(key_to_id_map(id_to_key_map(m)) =~= m);
}

} // verus!
