//! Database query shapes of the resource store: keyset pagination by `_key`
//! with one extra sentinel row, projections, the ACL filter of list queries,
//! and the membership edge linking a principal to a group.

use vstd::prelude::*;
use vstd::string::*;
use crate::config::{parse_unsigned_decimal, parse_unsigned};
use crate::json::{Json, JsonObject};
use crate::lexical::{seq_lt, lemma_lt_irreflexive, lemma_lt_transitive};
use crate::principals::{collection_for_principal, principal_collection};
use crate::text::{concat_str, owned, push_decimal, decimal};

verus! {

/// One page of documents.
pub struct PaginatedResult {
    pub docs: Vec<Json>,
    pub next_cursor: Option<String>,
    pub has_more: bool,
}

/// A page of `rows` fetched with `limit + 1`: the extra row only tells that
/// more follow.
pub open spec fn more_rows(rows: nat, limit: Option<u32>) -> bool {
    match limit {
        Some(l) => rows > l,
        None => false,
    }
}

/// The `_key` string of a document.
pub open spec fn key_of(d: Json) -> Option<Seq<char>> {
    match d.field("_key"@) {
        Some(Json::String(s)) => Some(s@),
        _ => None,
    }
}

/// The documents of a page made of `rows`: all of them, or all but the
/// sentinel when there is one.
pub open spec fn page_docs(rows: Seq<Json>, limit: Option<u32>) -> Seq<Json> {
    if more_rows(rows.len(), limit) { rows.drop_last() } else { rows }
}

/// The cursor of a page made of `rows`: where more follow, the `_key` of
/// its last document (none for an empty page or a key that is not a string).
pub open spec fn page_cursor(rows: Seq<Json>, limit: Option<u32>) -> Option<Seq<char>> {
    if more_rows(rows.len(), limit) && rows.len() >= 2 { key_of(rows.drop_last().last()) } else { None }
}

/// Turns the rows of a query run with `limit + 1` into a page: the sentinel
/// row is dropped and the cursor is the `_key` of the page's last document.
pub fn paginate(rows: Vec<Json>, limit: Option<u32>) -> (r: PaginatedResult)
    ensures
        r.has_more == more_rows(rows@.len(), limit),
        r.docs@ == page_docs(rows@, limit),
        match r.next_cursor {
            Some(c) => page_cursor(rows@, limit) == Some(c@),
            None => page_cursor(rows@, limit) is None,
        },
{
    proof { reveal_strlit("_key"); }
    let mut docs = rows;
    let has_more = match limit {
        Some(l) => docs.len() as u64 > l as u64,
        None => false,
    };
    if has_more {
        let _sentinel = docs.pop();
    }
    let next_cursor = if has_more && docs.len() > 0 {
        match docs[docs.len() - 1].get("_key") {
            Some(Json::String(s)) => Some(s.clone()),
            _ => None,
        }
    } else {
        None
    };
    PaginatedResult { docs, next_cursor, has_more }
}

/// The place of an event in the listing: its `moment` and `_key` strings.
pub open spec fn rank_of(d: Json) -> Option<(Seq<char>, Seq<char>)> {
    match (d.field("moment"@), key_of(d)) {
        (Some(Json::String(t)), Some(k)) => Some((t@, k)),
        _ => None,
    }
}

/// `a` comes before `b` in (moment, key) order.
pub open spec fn rank_lt(a: (Seq<char>, Seq<char>), b: (Seq<char>, Seq<char>)) -> bool {
    seq_lt(a.0, b.0) || (a.0 == b.0 && seq_lt(a.1, b.1))
}

proof fn lemma_rank_irreflexive(a: (Seq<char>, Seq<char>))
    ensures
        !rank_lt(a, a),
{
    lemma_lt_irreflexive(a.0);
    lemma_lt_irreflexive(a.1);
}

proof fn lemma_rank_transitive(a: (Seq<char>, Seq<char>), b: (Seq<char>, Seq<char>), c: (Seq<char>, Seq<char>))
    requires
        rank_lt(a, b),
        rank_lt(b, c),
    ensures
        rank_lt(a, c),
{
    if seq_lt(a.0, b.0) && seq_lt(b.0, c.0) {
        lemma_lt_transitive(a.0, b.0, c.0);
    } else if seq_lt(a.0, b.0) {
    } else if seq_lt(b.0, c.0) {
    } else {
        lemma_lt_transitive(a.1, b.1, c.1);
    }
}

proof fn lemma_rank_asymmetric(a: (Seq<char>, Seq<char>), b: (Seq<char>, Seq<char>))
    requires
        rank_lt(a, b),
    ensures
        !rank_lt(b, a),
{
    if rank_lt(b, a) {
        lemma_rank_transitive(a, b, a);
        lemma_rank_irreflexive(a);
    }
}

/// Whether a document comes before the cursor's place `c`: the event
/// query's condition `doc.moment < cur.moment OR (doc.moment == cur.moment
/// AND doc._key < cur._key)`, `cur` being the cursor's document.
pub open spec fn comes_before(d: Json, c: (Seq<char>, Seq<char>)) -> bool {
    match rank_of(d) {
        Some(r) => rank_lt(r, c),
        None => false,
    }
}

/// The test of the event listing's cursor condition.
pub open spec fn below_cursor(c: (Seq<char>, Seq<char>)) -> spec_fn(Json) -> bool {
    |d: Json| comes_before(d, c)
}

/// Every document of `m` has a string `moment` and `_key`, and their
/// (moment, key) places strictly decrease: the order in which the event
/// listing returns them (`SORT doc.moment DESC, doc._key DESC`).
pub open spec fn keys_descending(m: Seq<Json>) -> bool {
    &&& forall|i: int| 0 <= i < m.len() ==> rank_of(#[trigger] m[i]) is Some
    &&& forall|i: int, j: int| #![trigger m[i], m[j]] 0 <= i < j < m.len()
            ==> rank_lt(rank_of(m[j])->0, rank_of(m[i])->0)
}

/// The events of the ordered listing `m` that a query keeps whose cursor
/// document has the place `cursor`: all of them without a cursor, else
/// those that come before it.
pub open spec fn events_after(m: Seq<Json>, cursor: Option<(Seq<char>, Seq<char>)>) -> Seq<Json> {
    match cursor {
        Some(c) => m.filter(below_cursor(c)),
        None => m,
    }
}

/// The rows that the event query returns from the ordered listing `m`:
/// the first `limit + 1` of those the cursor keeps.
pub open spec fn events_rows(m: Seq<Json>, cursor: Option<(Seq<char>, Seq<char>)>, limit: u32) -> Seq<Json> {
    let a = events_after(m, cursor);
    if a.len() <= limit + 1 { a } else { a.take(limit + 1) }
}

/// Filtering by a cursor whose kept documents form the tail from `j` on
/// gives that tail.
proof fn lemma_filter_tail(m: Seq<Json>, c: (Seq<char>, Seq<char>), j: int)
    requires
        0 <= j <= m.len(),
        forall|i: int| 0 <= i < j ==> !comes_before(#[trigger] m[i], c),
        forall|i: int| j <= i < m.len() ==> comes_before(#[trigger] m[i], c),
    ensures
        m.filter(below_cursor(c)) == m.skip(j),
    decreases m.len(),
{
    reveal(Seq::filter);
    if m.len() == 0 {
        assert(m.skip(j) =~= m);
    } else {
        let p = m.drop_last();
        let jj = if j < m.len() { j } else { m.len() - 1 };
        assert forall|i: int| 0 <= i < jj implies !comes_before(#[trigger] p[i], c) by {
            assert(p[i] == m[i]);
        }
        assert forall|i: int| jj <= i < p.len() implies comes_before(#[trigger] p[i], c) by {
            assert(p[i] == m[i]);
        }
        lemma_filter_tail(p, c, jj);
        if j < m.len() {
            assert(below_cursor(c)(m.last()));
            assert(m.filter(below_cursor(c)) == p.skip(j).push(m.last()));
            assert(p.skip(j).push(m.last()) =~= m.skip(j));
        } else {
            assert(!below_cursor(c)(m.last()));
            assert(p.skip(jj) =~= m.skip(j));
        }
    }
}

/// In a listing ordered by descending keys, the documents whose key sorts
/// before `c` are a tail: they start at the returned index.
proof fn lemma_below_tail(m: Seq<Json>, c: (Seq<char>, Seq<char>)) -> (j: int)
    requires
        keys_descending(m),
    ensures
        0 <= j <= m.len(),
        forall|i: int| 0 <= i < j ==> !comes_before(#[trigger] m[i], c),
        forall|i: int| j <= i < m.len() ==> comes_before(#[trigger] m[i], c),
    decreases m.len(),
{
    if m.len() == 0 {
        0
    } else {
        let p = m.drop_last();
        assert forall|i: int| 0 <= i < p.len() implies rank_of(#[trigger] p[i]) is Some by {
            assert(p[i] == m[i]);
        }
        assert forall|i: int, k: int| #![trigger p[i], p[k]] 0 <= i < k < p.len()
            implies rank_lt(rank_of(p[k])->0, rank_of(p[i])->0) by {
            assert(p[i] == m[i] && p[k] == m[k]);
        }
        let jp = lemma_below_tail(p, c);
        let n = m.len() - 1;
        if comes_before(m[n], c) {
            assert forall|i: int| 0 <= i < jp implies !comes_before(#[trigger] m[i], c) by {
                assert(p[i] == m[i]);
            }
            assert forall|i: int| jp <= i < m.len() implies comes_before(#[trigger] m[i], c) by {
                if i < n {
                    assert(p[i] == m[i]);
                }
            }
            jp
        } else {
            assert forall|i: int| 0 <= i < m.len() implies !comes_before(#[trigger] m[i], c) by {
                if i < n && comes_before(m[i], c) {
                    assert(rank_of(m[n]) is Some && rank_of(m[i]) is Some);
                    assert(rank_lt(rank_of(m[n])->0, rank_of(m[i])->0));
                    lemma_rank_transitive(rank_of(m[n])->0, rank_of(m[i])->0, c);
                }
            }
            m.len() as int
        }
    }
}

/// Event pages join up: in a listing ordered newest first by moment, then
/// by key, a page fetched with `limit + 1` rows holds the first `limit`
/// events that its cursor keeps (all of them where no more follow); where
/// more follow, its cursor is the key of its last event, and the events
/// that this event's place keeps are exactly the rest, so following the
/// cursors yields every event once, in order, none skipped and none
/// repeated.
pub proof fn law_event_pages_join_up(m: Seq<Json>, cursor: Option<(Seq<char>, Seq<char>)>, limit: u32)
    requires
        keys_descending(m),
        1 <= limit < u32::MAX,
    ensures
        ({
            let rows = events_rows(m, cursor, limit);
            let after = events_after(m, cursor);
            &&& more_rows(rows.len(), Some(limit)) == (after.len() > limit)
            &&& if after.len() > limit {
                &&& page_docs(rows, Some(limit)) == after.take(limit as int)
                &&& page_cursor(rows, Some(limit)) == key_of(after[limit - 1])
                &&& after == page_docs(rows, Some(limit)) + events_after(m, rank_of(after[limit - 1]))
            } else {
                &&& page_docs(rows, Some(limit)) == after
                &&& page_cursor(rows, Some(limit)) is None
            }
        }),
{
    let after = events_after(m, cursor);
    let j: int = match cursor {
        Some(c) => {
            let j = lemma_below_tail(m, c);
            lemma_filter_tail(m, c, j);
            j
        },
        None => {
            assert(m.skip(0) =~= m);
            0
        },
    };
    assert(after == m.skip(j));
    let rows = events_rows(m, cursor, limit);
    if after.len() > limit {
        assert(rows.drop_last() =~= after.take(limit as int));
        let l = limit as int;
        let j2 = j + l;
        let k = rank_of(m[j2 - 1])->0;
        assert(after[limit - 1] == m[j2 - 1]);
        assert(rows.drop_last().last() == m[j2 - 1]);
        assert(page_cursor(rows, Some(limit)) == key_of(m[j2 - 1]));
        assert forall|i: int| 0 <= i < j2 implies !comes_before(#[trigger] m[i], k) by {
            lemma_rank_irreflexive(k);
            if i < j2 - 1 {
                assert(rank_lt(k, rank_of(m[i])->0));
                lemma_rank_asymmetric(k, rank_of(m[i])->0);
            }
        }
        assert forall|i: int| j2 <= i < m.len() implies comes_before(#[trigger] m[i], k) by {
            assert(rank_lt(rank_of(m[i])->0, rank_of(m[j2 - 1])->0));
        }
        lemma_filter_tail(m, k, j2);
        assert(after =~= after.take(l) + m.skip(j2));
    } else {
        assert(rows == after);
    }
}

/// `RETURN KEEP(doc, "f1", "f2", ...)` for a projection, else `RETURN doc`.
pub open spec fn return_clause_of(fields: Option<Seq<Seq<char>>>) -> Seq<char> {
    match fields {
        Some(f) => "RETURN KEEP(doc, "@ + quoted_list(f) + ")"@,
        None => "RETURN doc"@,
    }
}

/// `"a", "b", ...`.
pub open spec fn quoted_list(f: Seq<Seq<char>>) -> Seq<char>
    decreases f.len(),
{
    if f.len() == 0 {
        Seq::empty()
    } else if f.len() == 1 {
        "\""@ + f[0] + "\""@
    } else {
        quoted_list(f.drop_last()) + ", \""@ + f.last() + "\""@
    }
}

fn quoted_fields(fields: &[&str]) -> (r: String)
    ensures
        r@ == quoted_list(fields@.map_values(|f: &str| f@)),
{
    let ghost fs = fields@.map_values(|f: &str| f@);
    let mut s = String::new();
    let n = fields.len();
    let mut i: usize = 0;
    while i < n
        invariant
            n == fields@.len(),
            i <= n,
            fs == fields@.map_values(|f: &str| f@),
            s@ == quoted_list(fs.subrange(0, i as int)),
        decreases n - i,
    {
        proof {
            reveal_strlit("\"");
            reveal_strlit(", \"");
            assert(fs.subrange(0, i + 1).drop_last() =~= fs.subrange(0, i as int));
            assert(fs.subrange(0, i + 1).last() == fields@[i as int]@);
        }
        if i == 0 {
            s.append("\"");
        } else {
            s.append(", \"");
        }
        s.append(fields[i]);
        s.append("\"");
        proof {
            if i == 0 {
                assert(fs.subrange(0, 1)[0] == fields@[0]@);
                assert(quoted_list(fs.subrange(0, 0)) =~= Seq::<char>::empty());
                assert(s@ =~= quoted_list(fs.subrange(0, 1)));
            } else {
                assert(s@ =~= quoted_list(fs.subrange(0, i + 1)));
            }
        }
        i = i + 1;
    }
    proof {
        assert(fs.subrange(0, n as int) =~= fs);
    }
    s
}

/// The RETURN clause of a list query.
pub fn return_clause(fields: Option<&[&str]>) -> (r: String)
    ensures
        r@ == return_clause_of(match fields { Some(f) => Some(f@.map_values(|x: &str| x@)), None => None }),
{
    match fields {
        Some(f) => {
            let q = quoted_fields(f);
            let mut s = concat_str("RETURN KEEP(doc, ", q.as_str());
            s.append(")");
            s
        },
        None => String::from_str("RETURN doc"),
    }
}

/// `LIMIT n+1` for a page of `n` (the extra row detects more pages), else nothing.
pub fn limit_clause(limit: Option<u32>) -> (r: String)
    ensures
        r@ == match limit {
            Some(l) => "LIMIT "@ + decimal((l + 1) as nat),
            None => Seq::<char>::empty(),
        },
{
    match limit {
        Some(l) => {
            let mut s = String::from_str("LIMIT ");
            push_decimal(&mut s, (l as u64) + 1);
            s
        },
        None => {
            let s = String::new();
            s
        },
    }
}

/// The paged list query over a collection: live documents only, after the
/// cursor when there is one, in key order.
pub fn generic_list_query(has_cursor: bool, limit: Option<u32>, fields: Option<&[&str]>) -> (r: String)
    ensures
        r@ == "FOR doc IN @@col "@
            + (if has_cursor { "FILTER doc._key > @cursor AND doc.deletion == null"@ } else { "FILTER doc.deletion == null"@ })
            + " SORT doc._key ASC "@
            + match limit { Some(l) => "LIMIT "@ + decimal((l + 1) as nat), None => Seq::<char>::empty() }
            + " "@
            + return_clause_of(match fields { Some(f) => Some(f@.map_values(|x: &str| x@)), None => None }),
{
    let mut q = String::from_str("FOR doc IN @@col ");
    q.append(if has_cursor { "FILTER doc._key > @cursor AND doc.deletion == null" } else { "FILTER doc.deletion == null" });
    q.append(" SORT doc._key ASC ");
    let l = limit_clause(limit);
    q.append(l.as_str());
    q.append(" ");
    let rc = return_clause(fields);
    q.append(rc.as_str());
    q
}

/// `LIMIT n+1` for a page of `n`, else nothing.
pub open spec fn limit_text(limit: Option<u32>) -> Seq<char> {
    match limit {
        Some(l) => "LIMIT "@ + decimal((l + 1) as nat),
        None => Seq::<char>::empty(),
    }
}

/// The projection of a list query, by field names.
pub open spec fn fields_view(fields: Option<&[&str]>) -> Option<Seq<Seq<char>>> {
    match fields {
        Some(f) => Some(f@.map_values(|x: &str| x@)),
        None => None,
    }
}

/// The ACL test of list and search queries: bypass, or a document without
/// ACL entries, or an entry holding every required bit that names one of
/// the caller's principals.
pub const ACL_PASS_FILTER: &'static str = "LET acl_pass = @super_bypass OR (LENGTH(doc.acl.list || []) == 0 OR LENGTH(FOR entry IN (doc.acl.list || []) FILTER BIT_AND(entry.permissions, @required_perm) == @required_perm FILTER LENGTH(INTERSECTION(entry.principals, @principals)) > 0 LIMIT 1 RETURN 1) > 0) FILTER acl_pass";

/// The ACL test of scoped list queries, over the document's own entries or,
/// when it has none, its project's.
pub const SCOPED_ACL_FILTER: &'static str = "LET effective_acl = LENGTH(doc.acl.list || []) > 0 ? (doc.acl.list || []) : project_acl LET acl_pass = @super_bypass OR (LENGTH(FOR entry IN effective_acl FILTER BIT_AND(entry.permissions, @required_perm) == @required_perm FILTER LENGTH(INTERSECTION(entry.principals, @principals)) > 0 LIMIT 1 RETURN 1) > 0) FILTER acl_pass";

/// The live, non-deleted project whose ACL scoped documents fall back to.
pub const PROJECT_ACL_PRELUDE: &'static str = "LET project_doc = DOCUMENT(\"projects\", @project_id) LET project_acl = (project_doc != null AND project_doc.deletion == null) ? (project_doc.acl.list || []) : [] ";

/// The paged list query of a global kind with the ACL test done by the
/// database (bind variables `@col`, `principals`, `required_perm`,
/// `super_bypass`, and `cursor` when `has_cursor`).
pub fn acl_list_query(has_cursor: bool, limit: Option<u32>, fields: Option<&[&str]>) -> (r: String)
    ensures
        r@ == "FOR doc IN @@col FILTER doc.deletion == null "@
            + (if has_cursor { "FILTER doc._key > @cursor "@ } else { Seq::<char>::empty() })
            + ACL_PASS_FILTER@ + " SORT doc._key ASC "@ + limit_text(limit) + " "@
            + return_clause_of(fields_view(fields)),
{
    let mut q = String::from_str("FOR doc IN @@col FILTER doc.deletion == null ");
    if has_cursor {
        q.append("FILTER doc._key > @cursor ");
    }
    q.append(ACL_PASS_FILTER);
    q.append(" SORT doc._key ASC ");
    let l = limit_clause(limit);
    q.append(l.as_str());
    q.append(" ");
    let rc = return_clause(fields);
    q.append(rc.as_str());
    q
}

/// The search of a global kind by `_key` prefix (`@startwith`), at most 15
/// documents, with the same ACL test.
pub fn acl_search_query(fields: Option<&[&str]>) -> (r: String)
    ensures
        r@ == "FOR doc IN @@col FILTER doc.deletion == null FILTER STARTS_WITH(doc._key, @startwith) "@
            + ACL_PASS_FILTER@ + " SORT doc._key ASC LIMIT 15 "@ + return_clause_of(fields_view(fields)),
{
    let mut q = String::from_str("FOR doc IN @@col FILTER doc.deletion == null FILTER STARTS_WITH(doc._key, @startwith) ");
    q.append(ACL_PASS_FILTER);
    q.append(" SORT doc._key ASC LIMIT 15 ");
    let rc = return_clause(fields);
    q.append(rc.as_str());
    q
}

/// The paged list query of a project's documents (`@project_id`), each
/// tested against its own ACL or, when empty, the project's.
pub fn scoped_list_query(has_cursor: bool, limit: Option<u32>, fields: Option<&[&str]>) -> (r: String)
    ensures
        r@ == PROJECT_ACL_PRELUDE@ + "FOR doc IN @@col FILTER doc.project == @project_id FILTER doc.deletion == null "@
            + (if has_cursor { "FILTER doc._key > @cursor "@ } else { Seq::<char>::empty() })
            + SCOPED_ACL_FILTER@ + " SORT doc._key ASC "@ + limit_text(limit) + " "@
            + return_clause_of(fields_view(fields)),
{
    let mut q = String::from_str(PROJECT_ACL_PRELUDE);
    q.append("FOR doc IN @@col FILTER doc.project == @project_id FILTER doc.deletion == null ");
    if has_cursor {
        q.append("FILTER doc._key > @cursor ");
    }
    q.append(SCOPED_ACL_FILTER);
    q.append(" SORT doc._key ASC ");
    let l = limit_clause(limit);
    q.append(l.as_str());
    q.append(" ");
    let rc = return_clause(fields);
    q.append(rc.as_str());
    q
}

/// The filter of an event listing: the given conditions joined by `AND`
/// (kind, priority, then cursor), or nothing.
pub open spec fn events_filter(has_kind: bool, has_priority: bool, has_cursor: bool) -> Seq<char> {
    let parts = (if has_kind { seq!["doc.kind == @kind"@] } else { Seq::empty() })
        + (if has_priority { seq!["doc.priority == @priority"@] } else { Seq::empty() })
        + (if has_cursor { seq![EVENTS_AFTER_CURSOR@] } else { Seq::empty() });
    if parts.len() == 0 {
        Seq::empty()
    } else if parts.len() == 1 {
        "FILTER "@ + parts[0]
    } else if parts.len() == 2 {
        "FILTER "@ + parts[0] + " AND "@ + parts[1]
    } else {
        "FILTER "@ + parts[0] + " AND "@ + parts[1] + " AND "@ + parts[2]
    }
}

/// The event listing's cursor lookup: the document whose `_key` is the
/// cursor.
pub const EVENTS_CURSOR_LOOKUP: &'static str = "LET cur = DOCUMENT(\"system_events\", @cursor) ";

/// The event listing's cursor condition: the events that come after the
/// cursor's document, newest first by moment, then by key.
pub const EVENTS_AFTER_CURSOR: &'static str = "(doc.moment < cur.moment OR (doc.moment == cur.moment AND doc._key < cur._key))";

/// The event listing, `@limit` rows ordered newest first by `moment`, ties
/// by `_key`; a cursor (the `_key` of the last event seen) keeps the events
/// after that event in this order, so the last key of one page is where the
/// next one goes on (see `law_event_pages_join_up`).
pub fn events_query(has_kind: bool, has_priority: bool, has_cursor: bool) -> (r: String)
    ensures
        r@ == (if has_cursor { EVENTS_CURSOR_LOOKUP@ } else { Seq::<char>::empty() })
            + "FOR doc IN system_events "@ + events_filter(has_kind, has_priority, has_cursor)
            + " SORT doc.moment DESC, doc._key DESC LIMIT @limit RETURN doc"@,
{
    let mut parts: Vec<&str> = Vec::new();
    if has_kind {
        parts.push("doc.kind == @kind");
    }
    if has_priority {
        parts.push("doc.priority == @priority");
    }
    if has_cursor {
        parts.push(EVENTS_AFTER_CURSOR);
    }
    let ghost want = (if has_kind { seq!["doc.kind == @kind"@] } else { Seq::<Seq<char>>::empty() })
        + (if has_priority { seq!["doc.priority == @priority"@] } else { Seq::<Seq<char>>::empty() })
        + (if has_cursor { seq![EVENTS_AFTER_CURSOR@] } else { Seq::<Seq<char>>::empty() });
    assert(parts@.map_values(|x: &str| x@) =~= want);
    let mut q = if has_cursor { String::from_str(EVENTS_CURSOR_LOOKUP) } else { String::new() };
    q.append("FOR doc IN system_events ");
    let n = parts.len();
    if n > 0 {
        q.append("FILTER ");
        q.append(parts[0]);
        if n > 1 {
            q.append(" AND ");
            q.append(parts[1]);
            if n > 2 {
                q.append(" AND ");
                q.append(parts[2]);
            }
        }
    }
    proof {
        assert(parts@.map_values(|x: &str| x@).len() == n);
        if n > 0 { assert(want[0] == parts@[0]@); }
        if n > 1 { assert(want[1] == parts@[1]@); }
        if n > 2 { assert(want[2] == parts@[2]@); }
    }
    q.append(" SORT doc.moment DESC, doc._key DESC LIMIT @limit RETURN doc");
    q
}

/// The membership edge of `principal_id` in `group_id`.
pub fn membership_edge(principal_id: &str, group_id: &str) -> (r: Json)
    ensures
        r matches Json::Object(o) && {
            let m = o.view();
            &&& m.dom() == set!["_key"@, "_from"@, "_to"@, "principal"@, "group"@]
            &&& m["_key"@].str_view() == Some(principal_id@ + "::"@ + group_id@)
            &&& m["_from"@].str_view() == Some(principal_collection(principal_id@) + "/"@ + principal_id@)
            &&& m["_to"@].str_view() == Some("groups/"@ + group_id@)
            &&& m["principal"@].str_view() == Some(principal_id@)
            &&& m["group"@].str_view() == Some(group_id@)
        },
{
    proof {
        reveal_strlit("_key");
        reveal_strlit("_from");
        reveal_strlit("_to");
        reveal_strlit("principal");
        reveal_strlit("group");
        assert("_key"@[1] != "_from"@[1] && "_key"@[1] != "_to"@[1] && "_from"@[1] != "_to"@[1]);
        assert("_key"@[0] != "principal"@[0] && "_key"@[0] != "group"@[0]);
        assert("_from"@[0] != "principal"@[0] && "_from"@[0] != "group"@[0]);
        assert("_to"@[0] != "principal"@[0] && "_to"@[0] != "group"@[0] && "principal"@[0] != "group"@[0]);
    }
    let mut key = concat_str(principal_id, "::");
    key.append(group_id);
    let mut from = concat_str(collection_for_principal(principal_id), "/");
    from.append(principal_id);
    let to = concat_str("groups/", group_id);
    let mut o = JsonObject::new();
    o.insert(String::from_str("_key"), Json::String(key));
    o.insert(String::from_str("_from"), Json::String(from));
    o.insert(String::from_str("_to"), Json::String(to));
    o.insert(String::from_str("principal"), Json::from_str(principal_id));
    o.insert(String::from_str("group"), Json::from_str(group_id));
    assert(o.view().dom() =~= set!["_key"@, "_from"@, "_to"@, "principal"@, "group"@]);
    Json::Object(o)
}

/// The page size of an event listing: the `limit` parameter when it reads
/// as a `u32`, else 50, and never more than 200.
pub fn events_page_size(limit: Option<&str>) -> (r: u32)
    ensures
        r == match limit {
            Some(t) => match parse_unsigned(t@, u32::MAX as int) {
                Ok(v) => if v > 200 { 200 } else { v },
                Err(_) => 50,
            },
            None => 50,
        },
{
    let v: u64 = match limit {
        Some(t) => match parse_unsigned_decimal(t, 4294967295) {
            Ok(v) => v,
            Err(_) => 50,
        },
        None => 50,
    };
    if v > 200 { 200 } else { v as u32 }
}

/// A page of a query run with `limit + 1` never holds more than `limit`
/// documents.
pub proof fn law_page_bounded(rows: Seq<Json>, l: u32, page: Seq<Json>)
    requires
        rows.len() <= l + 1,
        more_rows(rows.len(), Some(l)) ==> page == rows.drop_last(),
        !more_rows(rows.len(), Some(l)) ==> page == rows,
    ensures
        page.len() <= l,
{
}

} // verus!
