//! Principals: where each kind of principal is stored, who may grant
//! super-permissions to them, and the batch resolution of principal ids to
//! identity cards, served from the identity-card cache where possible.

use vstd::prelude::*;
use vstd::string::*;
use crate::acl::{string_views, principal_listed};
use crate::cache::{CacheStore, CacheEntry, stored, store_lookup, others_unchanged, PRINCIPAL_INFO_CACHE,
    SPECIAL_ACCESS_CACHE};
use crate::error::AppError;
use crate::json::{Json, JsonObject, json_same};
use crate::lexical::{sort_dedup, strictly_sorted, view_set, seq_lt, lemma_lt_irreflexive};
use crate::policy::{Caller, ADM_USER_MANAGER, ADM_GODMODE, adm_user_manager, adm_godmode};
use crate::text::{starts_with, seq_starts_with, concat_str};

verus! {

/// The collection a principal id lives in, by its prefix.
pub open spec fn principal_collection(id: Seq<char>) -> Seq<char> {
    if seq_starts_with(id, "g_"@) {
        "groups"@
    } else if seq_starts_with(id, "sa_"@) {
        "service_accounts"@
    } else if seq_starts_with(id, "pa_"@) {
        "pipeline_accounts"@
    } else {
        "users"@
    }
}

/// The collection holding the principal `principal_id`: groups (`g_`),
/// service accounts (`sa_`), pipeline accounts (`pa_`), otherwise users.
pub fn collection_for_principal(principal_id: &str) -> (r: &'static str)
    ensures
        r@ == principal_collection(principal_id@),
{
    if starts_with(principal_id, "g_") {
        "groups"
    } else if starts_with(principal_id, "sa_") {
        "service_accounts"
    } else if starts_with(principal_id, "pa_") {
        "pipeline_accounts"
    } else {
        "users"
    }
}

/// The cache key under which a user's god-mode flag is kept.
pub fn godmode_cache_key(user_id: &str) -> (r: String)
    ensures
        r@ == user_id@ + "//adm_godmode"@,
{
    concat_str(user_id, "//adm_godmode")
}

/// The god-mode flag cached for `user_id`, if a boolean is cached and fresh at `now`.
pub fn cached_godmode(cache: &CacheStore, user_id: &str, now: u64) -> (r: Option<bool>)
    ensures
        r == match store_lookup(cache.view(), SPECIAL_ACCESS_CACHE@, user_id@ + "//adm_godmode"@, now) {
            Some(Json::Bool(b)) => Some(b),
            _ => None::<bool>,
        },
{
    let key = godmode_cache_key(user_id);
    match cache.get(SPECIAL_ACCESS_CACHE, key.as_str(), now) {
        Some(Json::Bool(b)) => Some(*b),
        _ => None,
    }
}

/// Caches the god-mode flag of `user_id` at `now`.
pub fn remember_godmode(cache: &mut CacheStore, user_id: &str, holds: bool, now: u64)
    ensures
        others_unchanged(old(cache).view(), final(cache).view(), SPECIAL_ACCESS_CACHE@),
        old(cache).view().contains_key(SPECIAL_ACCESS_CACHE@) ==> stored(
            old(cache).view()[SPECIAL_ACCESS_CACHE@].view(), old(cache).view()[SPECIAL_ACCESS_CACHE@].ttl(),
            old(cache).view()[SPECIAL_ACCESS_CACHE@].max(), user_id@ + "//adm_godmode"@, Json::Bool(holds), now,
            final(cache).view()[SPECIAL_ACCESS_CACHE@].view()),
        !old(cache).view().contains_key(SPECIAL_ACCESS_CACHE@) ==> final(cache).view() == old(cache).view(),
{
    let key = godmode_cache_key(user_id);
    cache.set(SPECIAL_ACCESS_CACHE, key, Json::Bool(holds), now);
}

/// A request body naming principals: a list, a single one, or both.
pub struct PermissionBody {
    pub principals: Vec<String>,
    pub principal: Option<String>,
}

/// The list `ps` with `p` appended unless an equal string is already listed.
pub open spec fn with_principal(ps: Seq<String>, p: Option<String>) -> Seq<String> {
    match p {
        Some(x) => if string_views(ps).contains(x@) { ps } else { ps.push(x) },
        None => ps,
    }
}

impl PermissionBody {
    /// All principals named by the body: the list, then the single one if
    /// it is not listed already.
    pub fn resolved_principals(self) -> (r: Vec<String>)
        ensures
            r@ == with_principal(self.principals@, self.principal),
    {
        let mut all = self.principals;
        match self.principal {
            Some(p) => {
                let listed = principal_listed(all.as_slice(), &p);
                proof {
                    if string_views(all@).contains(p@) {
                        let j = choose|j: int| 0 <= j < string_views(all@).len() && string_views(all@)[j] == p@;
                        assert(all@[j]@ == p@);
                    }
                    if listed {
                        let j = choose|j: int| 0 <= j < all@.len() && all@[j]@ == p@;
                        assert(string_views(all@)[j] == p@);
                    }
                }
                if !listed {
                    all.push(p);
                }
                all
            },
            None => all,
        }
    }
}

/// Every principal named in the body, listed or single, is resolved.
pub proof fn law_resolved_principals_cover_body(ps: Seq<String>, p: Option<String>)
    ensures
        forall|i: int| 0 <= i < ps.len() ==> string_views(with_principal(ps, p)).contains(#[trigger] ps[i]@),
        p matches Some(x) ==> string_views(with_principal(ps, p)).contains(x@),
{
    let r = with_principal(ps, p);
    assert forall|i: int| 0 <= i < ps.len() implies string_views(r).contains(#[trigger] ps[i]@) by {
        assert(r[i] == ps[i]);
        assert(string_views(r)[i] == ps[i]@);
    }
    if let Some(x) = p {
        if !string_views(ps).contains(x@) {
            assert(string_views(r)[ps.len() as int] == x@);
        }
    }
}

/// Resolving adds no duplicate: distinct listed principals stay distinct.
pub proof fn law_resolved_principals_distinct(ps: Seq<String>, p: Option<String>)
    requires
        forall|i: int, j: int| 0 <= i < j < ps.len() ==> ps[i]@ != ps[j]@,
    ensures
        forall|i: int, j: int| 0 <= i < j < with_principal(ps, p).len()
            ==> with_principal(ps, p)[i]@ != with_principal(ps, p)[j]@,
{
    let r = with_principal(ps, p);
    if let Some(x) = p {
        if !string_views(ps).contains(x@) {
            assert forall|i: int, j: int| 0 <= i < j < r.len() implies r[i]@ != r[j]@ by {
                if j == ps.len() {
                    assert(string_views(ps)[i] == ps[i]@);
                }
            }
        }
    }
}

/// Only user managers and god-mode holders may grant or revoke super-permissions.
pub fn require_permission_manager(caller: &Caller) -> (r: Result<(), AppError>)
    ensures
        r is Ok <==> caller.holds(adm_user_manager()) || caller.holds(adm_godmode()),
        r matches Err(e) ==> e matches AppError::Forbidden(m) && m@ == "requires ADM_USER_MANAGER or ADM_GODMODE"@,
{
    if caller.has(ADM_USER_MANAGER) || caller.has(ADM_GODMODE) {
        Ok(())
    } else {
        Err(AppError::forbidden("requires ADM_USER_MANAGER or ADM_GODMODE"))
    }
}

/// The principals a grant or revoke applies to; at least one is needed.
pub fn permission_targets(body: PermissionBody) -> (r: Result<Vec<String>, AppError>)
    ensures
        match r {
            Ok(v) => v@ == with_principal(body.principals@, body.principal) && v@.len() > 0,
            Err(e) => with_principal(body.principals@, body.principal).len() == 0
                && (e matches AppError::BadRequest(m) && m@ == "at least one principal must be provided"@),
        },
{
    let ps = body.resolved_principals();
    if ps.len() == 0 {
        Err(AppError::bad_request("at least one principal must be provided"))
    } else {
        Ok(ps)
    }
}

/// The strings of `v` as a JSON array.
pub fn string_array(v: &Vec<String>) -> (r: Json)
    ensures
        r matches Json::Array(a) && a@.len() == v@.len()
            && forall|i: int| 0 <= i < v@.len() ==> (#[trigger] a@[i]).str_view() == Some(v@[i]@),
{
    let mut out: Vec<Json> = Vec::new();
    let n = v.len();
    let mut i: usize = 0;
    while i < n
        invariant
            n == v@.len(),
            i <= n,
            out@.len() == i,
            forall|j: int| 0 <= j < i ==> (#[trigger] out@[j]).str_view() == Some(v@[j]@),
        decreases n - i,
    {
        out.push(Json::String(v[i].clone()));
        i = i + 1;
    }
    Json::Array(out)
}

/// The reply to a grant (`granted`) or revoke: the permission and the
/// principals it was granted to or revoked from.
pub fn permission_change_response(key: &str, principals: &Vec<String>, granted: bool) -> (r: Json)
    ensures
        r matches Json::Object(o) && {
            let list_key = if granted { "granted_to"@ } else { "revoked_from"@ };
            &&& o.view().dom() == set!["permission"@, list_key]
            &&& o.view()["permission"@].str_view() == Some(key@)
            &&& o.view()[list_key] matches Json::Array(a) && a@.len() == principals@.len()
                && forall|i: int| 0 <= i < principals@.len() ==> (#[trigger] a@[i]).str_view() == Some(principals@[i]@)
        },
{
    proof {
        reveal_strlit("permission");
        reveal_strlit("granted_to");
        reveal_strlit("revoked_from");
    }
    let mut o = JsonObject::new();
    o.insert(String::from_str("permission"), Json::from_str(key));
    let list_key = if granted { "granted_to" } else { "revoked_from" };
    proof {
        assert(list_key@ != "permission"@) by {
            assert(list_key@[0] != "permission"@[0]);
        }
    }
    o.insert(String::from_str(list_key), string_array(principals));
    proof {
        assert(o.view().dom() =~= set!["permission"@, list_key@]);
    }
    Json::Object(o)
}

/// Largest number of ids one resolution request may name.
pub const MAX_RESOLVE_IDS: usize = 500;

/// Body of a resolution request: the principal ids to resolve.
pub struct ResolveBody {
    pub ids: Vec<String>,
}

/// Query of a resolution request: `no_cache` bypasses the cache.
pub struct ResolveQuery {
    pub no_cache: Option<bool>,
}

/// Principal ids, distinct and in ascending order.
pub struct SortedIds {
    ids: Vec<String>,
}

impl SortedIds {
    #[verifier::type_invariant]
    spec fn inv(self) -> bool {
        strictly_sorted(self.ids@)
    }

    /// The ids in order.
    pub closed spec fn view(&self) -> Seq<String> {
        self.ids@
    }

    /// The ids in order.
    pub fn as_vec(&self) -> (r: &Vec<String>)
        ensures
            r@ == self.view(),
            strictly_sorted(r@),
    {
        proof { use_type_invariant(self); }
        &self.ids
    }
}

/// The ids to resolve: at most 500, sorted, each once.
pub fn resolve_request_ids(body: &ResolveBody) -> (r: Result<SortedIds, AppError>)
    ensures
        body.ids@.len() > MAX_RESOLVE_IDS <==> r is Err,
        match r {
            Ok(s) => strictly_sorted(s.view()) && view_set(s.view()) == view_set(body.ids@),
            Err(e) => e matches AppError::BadRequest(m) && m@ == "Maximum 500 IDs per request"@,
        },
{
    if body.ids.len() > MAX_RESOLVE_IDS {
        return Err(AppError::bad_request("Maximum 500 IDs per request"));
    }
    let ids = sort_dedup(&body.ids);
    Ok(SortedIds { ids })
}

/// The id is answered from the cache at `now`.
pub open spec fn cache_hit(cache: Map<Seq<char>, crate::cache::TtlCache>, no_cache: bool, id: Seq<char>, now: u64) -> bool {
    !no_cache && store_lookup(cache, PRINCIPAL_INFO_CACHE@, id, now) is Some
}

/// Distinct entries of a sorted sequence are distinct strings.
proof fn lemma_sorted_distinct(s: Seq<String>, a: int, b: int)
    requires
        strictly_sorted(s),
        0 <= a < s.len(),
        0 <= b < s.len(),
        a != b,
    ensures
        s[a]@ != s[b]@,
{
    if a < b {
        assert(seq_lt(s[a]@, s[b]@));
        lemma_lt_irreflexive(s[a]@);
    } else {
        assert(seq_lt(s[b]@, s[a]@));
        lemma_lt_irreflexive(s[b]@);
    }
}

/// Splits the ids into those answered from the identity-card cache at `now`
/// (with a copy of each cached card) and the misses, still sorted. With
/// `no_cache` every id is a miss.
pub fn serve_from_cache(cache: &CacheStore, ids: &SortedIds, no_cache: bool, now: u64) -> (r: (JsonObject, SortedIds))
    ensures
        forall|s: Seq<char>| #[trigger] r.0.view().contains_key(s)
            <==> view_set(ids.view()).contains(s) && cache_hit(cache.view(), no_cache, s, now),
        forall|s: Seq<char>| #[trigger] r.0.view().contains_key(s)
            ==> json_same(store_lookup(cache.view(), PRINCIPAL_INFO_CACHE@, s, now).unwrap(), r.0.view()[s]),
        forall|s: Seq<char>| #[trigger] view_set(r.1.view()).contains(s)
            <==> view_set(ids.view()).contains(s) && !cache_hit(cache.view(), no_cache, s, now),
        strictly_sorted(r.1.view()),
{
    let v = ids.as_vec();
    let mut hits = JsonObject::new();
    let mut misses: Vec<String> = Vec::new();
    let n = v.len();
    let mut i: usize = 0;
    while i < n
        invariant
            n == v@.len(),
            v@ == ids.view(),
            strictly_sorted(v@),
            i <= n,
            forall|s: Seq<char>| #[trigger] hits.view().contains_key(s)
                <==> view_set(v@.take(i as int)).contains(s) && cache_hit(cache.view(), no_cache, s, now),
            forall|s: Seq<char>| #[trigger] hits.view().contains_key(s)
                ==> json_same(store_lookup(cache.view(), PRINCIPAL_INFO_CACHE@, s, now).unwrap(), hits.view()[s]),
            forall|s: Seq<char>| #[trigger] view_set(misses@).contains(s)
                <==> view_set(v@.take(i as int)).contains(s) && !cache_hit(cache.view(), no_cache, s, now),
            strictly_sorted(misses@),
            forall|a: int| 0 <= a < misses@.len() ==> exists|k: int| 0 <= k < i && (#[trigger] misses@[a])@ == v@[k]@,
        decreases n - i,
    {
        let id = &v[i];
        let ghost sv = id@;
        let found = if no_cache { None } else { cache.get(PRINCIPAL_INFO_CACHE, id.as_str(), now) };
        proof {
            assert forall|s: Seq<char>| view_set(v@.take(i + 1)).contains(s)
                <==> view_set(v@.take(i as int)).contains(s) || s == sv by {
                if view_set(v@.take(i + 1)).contains(s) {
                    let k = choose|k: int| 0 <= k < i + 1 && (#[trigger] v@.take(i + 1)[k])@ == s;
                    if k < i { assert(v@.take(i as int)[k] == v@.take(i + 1)[k]); }
                }
                if view_set(v@.take(i as int)).contains(s) {
                    let k = choose|k: int| 0 <= k < i && (#[trigger] v@.take(i as int)[k])@ == s;
                    assert(v@.take(i as int)[k] == v@.take(i + 1)[k]);
                }
                if s == sv {
                    assert(v@.take(i + 1)[i as int] == v@[i as int]);
                }
            }
            assert(!view_set(v@.take(i as int)).contains(sv)) by {
                if view_set(v@.take(i as int)).contains(sv) {
                    let k = choose|k: int| 0 <= k < i && (#[trigger] v@.take(i as int)[k])@ == sv;
                    assert(v@.take(i as int)[k] == v@[k]);
                    lemma_sorted_distinct(v@, k, i as int);
                }
            }
        }
        match found {
            Some(cached) => {
                let c = cached.copy();
                hits.insert(id.clone(), c);
            },
            None => {
                let ghost before = misses@;
                misses.push(id.clone());
                proof {
                    assert forall|a: int, b: int| 0 <= a < b < misses@.len()
                        implies seq_lt(#[trigger] misses@[a]@, #[trigger] misses@[b]@) by {
                        if b == misses@.len() - 1 {
                            assert(misses@[a] == before[a]);
                            let k = choose|k: int| 0 <= k < i && (#[trigger] before[a])@ == v@[k]@;
                            assert(seq_lt(v@[k]@, v@[i as int]@));
                        } else {
                            assert(misses@[a] == before[a] && misses@[b] == before[b]);
                        }
                    }
                    assert forall|a: int| 0 <= a < misses@.len() implies exists|k: int| 0 <= k < i + 1
                        && (#[trigger] misses@[a])@ == v@[k]@ by {
                        if a < before.len() {
                            assert(misses@[a] == before[a]);
                            let k = choose|k: int| 0 <= k < i && (#[trigger] before[a])@ == v@[k]@;
                        } else {
                            assert(misses@[a]@ == v@[i as int]@);
                        }
                    }
                    assert forall|s: Seq<char>| #[trigger] view_set(misses@).contains(s)
                        <==> view_set(before).contains(s) || s == sv by {
                        if view_set(misses@).contains(s) {
                            let a = choose|a: int| 0 <= a < misses@.len() && (#[trigger] misses@[a])@ == s;
                            if a < before.len() { assert(misses@[a] == before[a]); }
                        }
                        if view_set(before).contains(s) {
                            let a = choose|a: int| 0 <= a < before.len() && (#[trigger] before[a])@ == s;
                            assert(misses@[a] == before[a]);
                        }
                        if s == sv {
                            assert(misses@[before.len() as int]@ == sv);
                        }
                    }
                }
            },
        }
        i = i + 1;
    }
    proof {
        assert(v@.take(n as int) =~= v@);
    }
    (hits, SortedIds { ids: misses })
}

/// `v` is the card answering an unknown principal: `{"error": "not_found"}`.
pub open spec fn is_not_found(v: Json) -> bool {
    v matches Json::Object(o) && o.view().dom() == set!["error"@] && o.view()["error"@].str_view() == Some("not_found"@)
}

/// The card answering an unknown principal.
pub fn not_found_info() -> (r: Json)
    ensures
        is_not_found(r),
{
    proof { reveal_strlit("error"); }
    let mut o = JsonObject::new();
    o.insert(String::from_str("error"), Json::from_str("not_found"));
    proof {
        assert(o.view().dom() =~= set!["error"@]);
    }
    Json::Object(o)
}

/// The id of a looked-up principal document, when it has a string `id`.
pub open spec fn doc_id(d: Json) -> Option<Seq<char>> {
    match d.field("id"@) {
        Some(Json::String(s)) => Some(s@),
        _ => None,
    }
}

/// `found[k]` is the last document whose id is `id`.
pub open spec fn last_with_id(found: Seq<Json>, id: Seq<char>, k: int) -> bool {
    &&& 0 <= k < found.len()
    &&& doc_id(found[k]) == Some(id)
    &&& forall|j: int| k < j < found.len() ==> doc_id(#[trigger] found[j]) != Some(id)
}

/// `v` is the document `doc` without its `id` field.
pub open spec fn info_of(doc: Json, v: Json) -> bool {
    &&& doc matches Json::Object(d)
    &&& v matches Json::Object(o)
    &&& o.view() == d.view().remove("id"@)
}

/// Indexes looked-up principal documents by their `id`, removing the field;
/// of several documents with one id the last wins.
pub fn principal_info_index(found: Vec<Json>) -> (r: JsonObject)
    ensures
        forall|s: Seq<char>| #[trigger] r.view().contains_key(s)
            <==> exists|k: int| 0 <= k < found@.len() && doc_id(found@[k]) == Some(s),
        forall|s: Seq<char>, k: int| #[trigger] last_with_id(found@, s, k) ==> info_of(found@[k], r.view()[s]),
{
    proof { reveal_strlit("id"); }
    let ghost all = found@;
    let ghost n = all.len();
    let mut docs = found;
    let mut index = JsonObject::new();
    while docs.len() > 0
        invariant
            n == all.len(),
            docs@.len() <= n,
            docs@ == all.take(docs@.len() as int),
            forall|s: Seq<char>| #[trigger] index.view().contains_key(s)
                <==> exists|k: int| docs@.len() <= k < n && doc_id(all[k]) == Some(s),
            forall|s: Seq<char>, k: int| docs@.len() <= k < n && #[trigger] last_with_id(all, s, k)
                ==> info_of(all[k], index.view()[s]),
        decreases docs@.len(),
    {
        let ghost p = docs@.len() - 1;
        let d = docs.pop().unwrap();
        proof {
            assert(all[p] == d);
            assert(docs@ =~= all.take(p));
        }
        let id: Option<String> = match d.get("id") {
            Some(Json::String(s)) => Some(s.clone()),
            _ => None,
        };
        let ghost index0 = index.view();
        match id {
            Some(key) => {
                match d {
                    Json::Object(mut o) => {
                        let ghost ov = o.view();
                        let _ = o.remove("id");
                        let ghost present = index.view().contains_key(key@);
                        index.insert_if_absent(key, Json::Object(o));
                        proof {
                            assert forall|s: Seq<char>| #[trigger] index.view().contains_key(s)
                                <==> exists|k: int| p <= k < n && doc_id(all[k]) == Some(s) by {
                                if s == key@ {
                                    assert(doc_id(all[p]) == Some(s));
                                }
                                if exists|k: int| p <= k < n && doc_id(all[k]) == Some(s) {
                                    let k = choose|k: int| p <= k < n && doc_id(all[k]) == Some(s);
                                    if k > p { assert(index0.contains_key(s)); }
                                }
                            }
                            assert forall|s: Seq<char>, k: int| p <= k < n && #[trigger] last_with_id(all, s, k)
                                implies info_of(all[k], index.view()[s]) by {
                                if k == p {
                                    assert(s == key@);
                                    if present {
                                        let k2 = choose|k2: int| p + 1 <= k2 < n && doc_id(all[k2]) == Some(s);
                                        assert(doc_id(all[k2]) != Some(s));
                                    }
                                } else {
                                    if s == key@ {
                                        assert(doc_id(all[k]) == Some(s));
                                        assert(index0.contains_key(s));
                                    }
                                }
                            }
                        }
                    },
                    _ => {
                        proof { assert(false); }
                    },
                }
            },
            None => {
                proof {
                    assert(doc_id(all[p]) is None);
                    assert forall|s: Seq<char>| #[trigger] index.view().contains_key(s)
                        <==> exists|k: int| p <= k < n && doc_id(all[k]) == Some(s) by {
                        if exists|k: int| p <= k < n && doc_id(all[k]) == Some(s) {
                            let k = choose|k: int| p <= k < n && doc_id(all[k]) == Some(s);
                            assert(k != p);
                        }
                    }
                    assert forall|s: Seq<char>, k: int| p <= k < n && #[trigger] last_with_id(all, s, k)
                        implies info_of(all[k], index.view()[s]) by {
                        assert(k != p);
                    }
                }
            },
        }
    }
    index
}

/// The identity-card cache, from state `c0`, reaches `c1` by storing at
/// `now`, in order, a copy of `values[keys[i]]` under each `keys[i]`.
pub open spec fn stored_in_order(c0: Map<Seq<char>, CacheEntry>, ttl: u64, max: Option<usize>, keys: Seq<Seq<char>>,
    values: Map<Seq<char>, Json>, now: u64, c1: Map<Seq<char>, CacheEntry>) -> bool {
    exists|states: Seq<Map<Seq<char>, CacheEntry>>, copies: Seq<Json>|
        states.len() == keys.len() + 1 && copies.len() == keys.len()
        && states[0] == c0 && states[keys.len() as int] == c1
        && forall|i: int| 0 <= i < keys.len() ==> json_same(values[#[trigger] keys[i]], copies[i])
            && stored(states[i], ttl, max, keys[i], copies[i], now, states[i + 1])
}

/// Answers each miss from `index` (or with the not-found card), adds the
/// answers to `result`, and caches a copy of each at `now` (negative
/// answers included).
pub fn record_resolved(cache: &mut CacheStore, result: &mut JsonObject, index: JsonObject, misses: &SortedIds, now: u64)
    ensures
        forall|s: Seq<char>| #[trigger] final(result).view().contains_key(s)
            <==> old(result).view().contains_key(s) || view_set(misses.view()).contains(s),
        forall|s: Seq<char>| #[trigger] final(result).view().contains_key(s) && !view_set(misses.view()).contains(s)
            ==> final(result).view()[s] == old(result).view()[s],
        forall|s: Seq<char>| #[trigger] view_set(misses.view()).contains(s) ==> if index.view().contains_key(s) {
            final(result).view()[s] == index.view()[s]
        } else {
            is_not_found(final(result).view()[s])
        },
        others_unchanged(old(cache).view(), final(cache).view(), PRINCIPAL_INFO_CACHE@),
        !old(cache).view().contains_key(PRINCIPAL_INFO_CACHE@) ==> final(cache).view() == old(cache).view(),
        old(cache).view().contains_key(PRINCIPAL_INFO_CACHE@) ==> stored_in_order(
            old(cache).view()[PRINCIPAL_INFO_CACHE@].view(), old(cache).view()[PRINCIPAL_INFO_CACHE@].ttl(),
            old(cache).view()[PRINCIPAL_INFO_CACHE@].max(), string_views(misses.view()), final(result).view(), now,
            final(cache).view()[PRINCIPAL_INFO_CACHE@].view()),
{
    let v = misses.as_vec();
    let ghost keys = string_views(v@);
    let ghost c0 = cache.view();
    let ghost r0 = result.view();
    let ghost i0 = index.view();
    let ghost registered = c0.contains_key(PRINCIPAL_INFO_CACHE@);
    let ghost mut states: Seq<Map<Seq<char>, CacheEntry>> = if registered { seq![c0[PRINCIPAL_INFO_CACHE@].view()] } else { seq![Map::empty()] };
    let ghost mut copies: Seq<Json> = Seq::empty();
    let mut idx = index;
    let n = v.len();
    let mut i: usize = 0;
    while i < n
        invariant
            n == v@.len(),
            keys == string_views(v@),
            strictly_sorted(v@),
            i <= n,
            others_unchanged(c0, cache.view(), PRINCIPAL_INFO_CACHE@),
            !registered ==> cache.view() == c0,
            registered == c0.contains_key(PRINCIPAL_INFO_CACHE@),
            states.len() == i + 1,
            copies.len() == i,
            registered ==> states[0] == c0[PRINCIPAL_INFO_CACHE@].view(),
            registered ==> states[i as int] == cache.view()[PRINCIPAL_INFO_CACHE@].view(),
            registered ==> forall|a: int| 0 <= a < i ==> stored(states[a], c0[PRINCIPAL_INFO_CACHE@].ttl(),
                c0[PRINCIPAL_INFO_CACHE@].max(), #[trigger] keys[a], copies[a], now, states[a + 1]),
            forall|a: int| 0 <= a < i ==> json_same(result.view()[#[trigger] keys[a]], copies[a]),
            forall|s: Seq<char>| #[trigger] idx.view().contains_key(s)
                <==> i0.contains_key(s) && !view_set(v@.take(i as int)).contains(s),
            forall|s: Seq<char>| #[trigger] idx.view().contains_key(s) ==> idx.view()[s] == i0[s],
            forall|s: Seq<char>| #[trigger] result.view().contains_key(s)
                <==> r0.contains_key(s) || view_set(v@.take(i as int)).contains(s),
            forall|s: Seq<char>| #[trigger] result.view().contains_key(s) && !view_set(v@.take(i as int)).contains(s)
                ==> result.view()[s] == r0[s],
            forall|s: Seq<char>| #[trigger] view_set(v@.take(i as int)).contains(s) ==> if i0.contains_key(s) {
                result.view()[s] == i0[s]
            } else {
                is_not_found(result.view()[s])
            },
        decreases n - i,
    {
        let id = &v[i];
        let ghost sv = id@;
        proof {
            assert(keys[i as int] == sv);
            assert forall|s: Seq<char>| view_set(v@.take(i + 1)).contains(s)
                <==> view_set(v@.take(i as int)).contains(s) || s == sv by {
                if view_set(v@.take(i + 1)).contains(s) {
                    let k = choose|k: int| 0 <= k < i + 1 && (#[trigger] v@.take(i + 1)[k])@ == s;
                    if k < i { assert(v@.take(i as int)[k] == v@.take(i + 1)[k]); }
                }
                if view_set(v@.take(i as int)).contains(s) {
                    let k = choose|k: int| 0 <= k < i && (#[trigger] v@.take(i as int)[k])@ == s;
                    assert(v@.take(i as int)[k] == v@.take(i + 1)[k]);
                }
                if s == sv {
                    assert(v@.take(i + 1)[i as int] == v@[i as int]);
                }
            }
            assert(!view_set(v@.take(i as int)).contains(sv)) by {
                if view_set(v@.take(i as int)).contains(sv) {
                    let k = choose|k: int| 0 <= k < i && (#[trigger] v@.take(i as int)[k])@ == sv;
                    assert(v@.take(i as int)[k] == v@[k]);
                    lemma_sorted_distinct(v@, k, i as int);
                }
            }
            assert forall|a: int| 0 <= a < i implies keys[a] != sv by {
                lemma_sorted_distinct(v@, a, i as int);
            }
        }
        let ghost idx_before = idx.view();
        let value = match idx.remove(id.as_str()) {
            Some(info) => info,
            None => not_found_info(),
        };
        proof {
            if i0.contains_key(sv) {
                assert(idx_before.contains_key(sv));
                assert(value == i0[sv]);
            } else {
                assert(!idx_before.contains_key(sv));
                assert(is_not_found(value));
            }
        }
        let c = value.copy();
        let ghost before = cache.view();
        cache.set(PRINCIPAL_INFO_CACHE, id.clone(), c, now);
        proof {
            if registered {
                states = states.push(cache.view()[PRINCIPAL_INFO_CACHE@].view());
            } else {
                states = states.push(Map::empty());
            }
            copies = copies.push(c);
            assert(others_unchanged(c0, cache.view(), PRINCIPAL_INFO_CACHE@));
        }
        let ghost rb = result.view();
        let ghost val = value;
        result.insert(id.clone(), value);
        proof {
            assert(result.view()[sv] == val);
            assert forall|s: Seq<char>| #[trigger] view_set(v@.take(i + 1)).contains(s) implies if i0.contains_key(s) {
                result.view()[s] == i0[s]
            } else {
                is_not_found(result.view()[s])
            } by {
                if s != sv {
                    assert(view_set(v@.take(i as int)).contains(s));
                    assert(result.view()[s] == rb[s]);
                }
            }
        }
        i = i + 1;
    }
    proof {
        assert(v@.take(n as int) =~= v@);
        if registered {
            assert(states[n as int] == cache.view()[PRINCIPAL_INFO_CACHE@].view());
            assert forall|a: int| 0 <= a < keys.len() implies json_same(result.view()[#[trigger] keys[a]], copies[a])
                && stored(states[a], c0[PRINCIPAL_INFO_CACHE@].ttl(), c0[PRINCIPAL_INFO_CACHE@].max(), keys[a], copies[a], now, states[a + 1]) by {}
        }
    }
}

/// Every requested id is answered, and nothing else: after the ids found
/// in the cache (`serve_from_cache`) and the misses answered from the store
/// (`record_resolved`), the response holds exactly the requested ids.
pub proof fn law_every_requested_id_answered(
    cache: CacheStore,
    ids: SortedIds,
    no_cache: bool,
    now: u64,
    served: JsonObject,
    misses: SortedIds,
    answered: JsonObject,
)
    requires
        forall|s: Seq<char>| #[trigger] served.view().contains_key(s)
            <==> view_set(ids.view()).contains(s) && cache_hit(cache.view(), no_cache, s, now),
        forall|s: Seq<char>| #[trigger] view_set(misses.view()).contains(s)
            <==> view_set(ids.view()).contains(s) && !cache_hit(cache.view(), no_cache, s, now),
        forall|s: Seq<char>| #[trigger] answered.view().contains_key(s)
            <==> served.view().contains_key(s) || view_set(misses.view()).contains(s),
    ensures
        forall|s: Seq<char>| #[trigger] answered.view().contains_key(s) <==> view_set(ids.view()).contains(s),
{
    assert forall|s: Seq<char>| #[trigger] answered.view().contains_key(s) <==> view_set(ids.view()).contains(s) by {
        if view_set(ids.view()).contains(s) {
            if cache_hit(cache.view(), no_cache, s, now) {
                assert(served.view().contains_key(s));
            } else {
                assert(view_set(misses.view()).contains(s));
            }
        }
        if answered.view().contains_key(s) {
            if served.view().contains_key(s) {} else { assert(view_set(misses.view()).contains(s)); }
        }
    }
}

} // verus!
