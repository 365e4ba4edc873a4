//! Resource history and write retries: revisions of a resource are numbered
//! from 1 and named `{kind}_{key}_{revision:06}`; a conflicting upsert is
//! retried a bounded number of times with a doubling delay; a soft delete
//! records the membership edges it disconnects.

use vstd::prelude::*;
use vstd::string::*;
use vstd::arithmetic::power2::{pow2, lemma2_to64};
use vstd::arithmetic::power::pow;
use crate::config::{str_contains, seq_contains};
use crate::text::{concat_str, decimal, digit_char, push_decimal, push_char, owned};
use crate::lexical::seq_lt;
use crate::json::{Json, JsonObject};

verus! {

/// The revision after `existing` earlier ones: revisions start at 1.
pub fn next_revision(existing: u64) -> (r: u64)
    requires
        existing < u64::MAX,
    ensures
        r == existing + 1,
{
    existing + 1
}

/// `width` zeros, or fewer: what pads `digits` on the left to `width`.
pub open spec fn zero_pad(digits: Seq<char>, width: nat) -> Seq<char> {
    if digits.len() >= width {
        digits
    } else {
        Seq::new((width - digits.len()) as nat, |i: int| '0') + digits
    }
}

/// The id of a history entry: `{kind}_{key}_{revision}`, the revision in
/// at least six digits, zero-padded.
pub open spec fn history_id(kind: Seq<char>, key: Seq<char>, revision: nat) -> Seq<char> {
    kind + "_"@ + key + "_"@ + zero_pad(decimal(revision), 6)
}

/// The id of revision `revision` of `kind`/`key`.
pub fn history_entry_id(kind: &str, key: &str, revision: u64) -> (r: String)
    ensures
        r@ == history_id(kind@, key@, revision as nat),
{
    let mut digits = String::new();
    push_decimal(&mut digits, revision);
    assert(digits@ =~= decimal(revision as nat));
    let n = digits.as_str().unicode_len();
    let mut s = concat_str(kind, "_");
    s.append(key);
    s.append("_");
    let ghost prefix = s@;
    let mut k: usize = n;
    while k < 6
        invariant
            n == decimal(revision as nat).len(),
            n <= k <= 6 || (n > 6 && k == n),
            s@ == prefix + Seq::new((k - n) as nat, |i: int| '0'),
        decreases 6 - k,
    {
        push_char(&mut s, '0');
        proof {
            assert(s@ =~= prefix + Seq::new((k + 1 - n) as nat, |i: int| '0'));
        }
        k = k + 1;
    }
    s.append(digits.as_str());
    proof {
        if n >= 6 {
            assert(s@ =~= prefix + decimal(revision as nat));
        } else {
            assert(s@ =~= prefix + (Seq::new((6 - n) as nat, |i: int| '0') + decimal(revision as nat)));
        }
        reveal_strlit("_");
    }
    s
}

/// A number's decimal form has one digit below ten and at least two above.
proof fn lemma_decimal_len(n: nat)
    ensures
        n < 10 ==> decimal(n).len() == 1,
        n >= 10 ==> decimal(n).len() >= 2,
    decreases n,
{
    if n >= 10 {
        lemma_decimal_len(n / 10);
    }
}

/// The decimal form of a positive number does not begin with `0`.
proof fn lemma_decimal_leading(n: nat)
    requires
        n >= 1,
    ensures
        decimal(n)[0] != '0',
    decreases n,
{
    if n >= 10 {
        lemma_decimal_leading(n / 10);
        lemma_decimal_len(n / 10);
        assert(decimal(n)[0] == decimal(n / 10)[0]);
    }
}

/// Distinct numbers have distinct decimal forms.
proof fn lemma_decimal_injective(a: nat, b: nat)
    requires
        decimal(a) == decimal(b),
    ensures
        a == b,
    decreases a,
{
    lemma_decimal_len(a);
    lemma_decimal_len(b);
    if a < 10 {
        assert(decimal(a)[0] == digit_char(a));
        assert(decimal(b)[0] == digit_char(b));
    } else {
        let da = decimal(a);
        assert(da.last() == digit_char(a % 10));
        assert(decimal(b).last() == digit_char(b % 10));
        assert(a % 10 == b % 10);
        assert(da.drop_last() =~= decimal(a / 10));
        assert(decimal(b).drop_last() =~= decimal(b / 10));
        lemma_decimal_injective(a / 10, b / 10);
    }
}

/// Zero-padding keeps distinct decimal forms distinct.
proof fn lemma_padded_injective(a: nat, b: nat)
    requires
        zero_pad(decimal(a), 6) == zero_pad(decimal(b), 6),
    ensures
        a == b,
{
    let da = decimal(a);
    let db = decimal(b);
    lemma_decimal_len(a);
    lemma_decimal_len(b);
    let pa = zero_pad(da, 6);
    let pb = zero_pad(db, 6);
    if da.len() >= 6 && db.len() >= 6 {
        lemma_decimal_injective(a, b);
    } else if da.len() < 6 && db.len() < 6 {
        if da.len() == db.len() {
            assert(da =~= pa.subrange(6 - da.len(), 6));
            assert(db =~= pb.subrange(6 - db.len(), 6));
            lemma_decimal_injective(a, b);
        } else if da.len() < db.len() {
            lemma_decimal_leading(b);
            assert(pa[6 - db.len()] == '0');
            assert(pb[6 - db.len()] == db[0]);
        } else {
            lemma_decimal_leading(a);
            assert(pb[6 - da.len()] == '0');
            assert(pa[6 - da.len()] == da[0]);
        }
    } else if da.len() >= 6 {
        lemma_decimal_leading(a);
        assert(pa[0] == da[0]);
        assert(pb[0] == '0');
    } else {
        lemma_decimal_leading(b);
        assert(pb[0] == db[0]);
        assert(pa[0] == '0');
    }
}

/// Each revision of a resource has its own history id.
pub proof fn law_history_ids_distinct(kind: Seq<char>, key: Seq<char>, a: nat, b: nat)
    requires
        a != b,
    ensures
        history_id(kind, key, a) != history_id(kind, key, b),
{
    let prefix = kind + "_"@ + key + "_"@;
    if history_id(kind, key, a) == history_id(kind, key, b) {
        let ha = history_id(kind, key, a);
        assert(ha.subrange(prefix.len() as int, ha.len() as int) =~= zero_pad(decimal(a), 6));
        assert(history_id(kind, key, b).subrange(prefix.len() as int, ha.len() as int) =~= zero_pad(decimal(b), 6));
        lemma_padded_injective(a, b);
    }
}

/// `10` to the power `k`.
pub open spec fn pow10(k: nat) -> nat
    decreases k,
{
    if k == 0 { 1 } else { 10 * pow10((k - 1) as nat) }
}

/// The last `w` decimal digits of `n`, most significant first.
pub open spec fn fixed_digits(n: nat, w: nat) -> Seq<char>
    decreases w,
{
    if w == 0 { Seq::empty() } else { fixed_digits(n / 10, (w - 1) as nat).push(digit_char(n % 10)) }
}

proof fn lemma_fixed_digits_zero(w: nat)
    ensures
        fixed_digits(0, w) == Seq::new(w, |i: int| '0'),
    decreases w,
{
    if w > 0 {
        lemma_fixed_digits_zero((w - 1) as nat);
        assert(fixed_digits(0, w) =~= Seq::new(w, |i: int| '0'));
    }
}

/// A number below `10^k` has at most `k` decimal digits.
proof fn lemma_decimal_len_bound(n: nat, k: nat)
    requires
        k >= 1,
        n < pow10(k),
    ensures
        decimal(n).len() <= k,
    decreases n,
{
    if n >= 10 {
        assert(n / 10 < pow10((k - 1) as nat));
        if k == 1 {
            assert(false);
        } else {
            lemma_decimal_len_bound(n / 10, (k - 1) as nat);
        }
    }
}

/// Below `10^w`, the zero-padded decimal form is the `w` last digits.
proof fn lemma_padded_is_fixed(n: nat, w: nat)
    requires
        w >= 1,
        n < pow10(w),
    ensures
        zero_pad(decimal(n), w) == fixed_digits(n, w),
    decreases w,
{
    lemma_decimal_len(n);
    if n < 10 {
        lemma_fixed_digits_zero((w - 1) as nat);
        assert(n / 10 == 0);
        assert(zero_pad(decimal(n), w) =~= fixed_digits(n, w));
    } else {
        assert(n / 10 < pow10((w - 1) as nat));
        if w == 1 {
            assert(false);
        } else {
            lemma_padded_is_fixed(n / 10, (w - 1) as nat);
            lemma_decimal_len_bound(n / 10, (w - 1) as nat);
            let d = decimal(n / 10);
            assert(decimal(n) == d.push(digit_char(n % 10)));
            assert(zero_pad(decimal(n), w) =~= zero_pad(d, (w - 1) as nat).push(digit_char(n % 10)));
        }
    }
}

/// Pushing onto strings of equal length keeps their order.
proof fn lemma_lt_push(x: Seq<char>, y: Seq<char>, c: char, d: char)
    requires
        x.len() == y.len(),
        seq_lt(x, y),
    ensures
        seq_lt(x.push(c), y.push(d)),
    decreases x.len(),
{
    if x.len() > 0 && x[0] == y[0] {
        assert(x.push(c).drop_first() =~= x.drop_first().push(c));
        assert(y.push(d).drop_first() =~= y.drop_first().push(d));
        lemma_lt_push(x.drop_first(), y.drop_first(), c, d);
    }
}

/// A common prefix followed by a smaller character sorts first.
proof fn lemma_lt_last(x: Seq<char>, c: char, d: char)
    requires
        (c as int) < (d as int),
    ensures
        seq_lt(x.push(c), x.push(d)),
    decreases x.len(),
{
    if x.len() > 0 {
        assert(x.push(c).drop_first() =~= x.drop_first().push(c));
        assert(x.push(d).drop_first() =~= x.drop_first().push(d));
        lemma_lt_last(x.drop_first(), c, d);
    } else {
        assert(x.push(c)[0] == c);
        assert(x.push(d)[0] == d);
    }
}

/// Digits are ordered as the numbers they stand for.
proof fn lemma_digit_order(a: nat, b: nat)
    requires
        a < b < 10,
    ensures
        (digit_char(a) as int) < (digit_char(b) as int),
{
}

proof fn lemma_fixed_digits_len(n: nat, w: nat)
    ensures
        fixed_digits(n, w).len() == w,
    decreases w,
{
    if w > 0 {
        lemma_fixed_digits_len(n / 10, (w - 1) as nat);
    }
}

/// Fixed-width digit strings sort as their numbers.
proof fn lemma_fixed_digits_order(a: nat, b: nat, w: nat)
    requires
        w >= 1,
        a < b < pow10(w),
    ensures
        seq_lt(fixed_digits(a, w), fixed_digits(b, w)),
    decreases w,
{
    let w1 = (w - 1) as nat;
    lemma_fixed_digits_len(a / 10, w1);
    lemma_fixed_digits_len(b / 10, w1);
    if a / 10 == b / 10 {
        assert(a % 10 < b % 10);
        lemma_digit_order(a % 10, b % 10);
        lemma_lt_last(fixed_digits(a / 10, w1), digit_char(a % 10), digit_char(b % 10));
    } else {
        assert(a / 10 < b / 10);
        assert(b / 10 < pow10(w1));
        if w == 1 {
            assert(false);
        } else {
            lemma_fixed_digits_order(a / 10, b / 10, w1);
            lemma_lt_push(fixed_digits(a / 10, w1), fixed_digits(b / 10, w1), digit_char(a % 10), digit_char(b % 10));
        }
    }
}

/// A common prefix keeps the order of what follows it.
proof fn lemma_lt_prefix(p: Seq<char>, x: Seq<char>, y: Seq<char>)
    requires
        seq_lt(x, y),
    ensures
        seq_lt(p + x, p + y),
    decreases p.len(),
{
    if p.len() > 0 {
        assert((p + x).drop_first() =~= p.drop_first() + x);
        assert((p + y).drop_first() =~= p.drop_first() + y);
        lemma_lt_prefix(p.drop_first(), x, y);
    } else {
        assert(p + x =~= x);
        assert(p + y =~= y);
    }
}

/// For the first million revisions, a resource's history ids sort in
/// revision order.
pub proof fn law_history_ids_sorted(kind: Seq<char>, key: Seq<char>, a: nat, b: nat)
    requires
        a < b < 1000000,
    ensures
        seq_lt(history_id(kind, key, a), history_id(kind, key, b)),
{
    assert(pow10(0) == 1);
    assert(pow10(1) == 10);
    assert(pow10(2) == 100);
    assert(pow10(3) == 1000);
    assert(pow10(4) == 10000);
    assert(pow10(5) == 100000);
    assert(pow10(6) == 1000000);
    lemma_padded_is_fixed(a, 6);
    lemma_padded_is_fixed(b, 6);
    lemma_fixed_digits_order(a, b, 6);
    let prefix = kind + "_"@ + key + "_"@;
    assert(history_id(kind, key, a) == prefix + zero_pad(decimal(a), 6));
    assert(history_id(kind, key, b) == prefix + zero_pad(decimal(b), 6));
    lemma_lt_prefix(prefix, zero_pad(decimal(a), 6), zero_pad(decimal(b), 6));
}

/// How many times a conflicting upsert is tried in all.
pub const MAX_UPSERT_ATTEMPTS: u32 = 3;

/// The wait before retrying after try `attempt` (counted from 0) failed on
/// a write-write conflict: 5 ms, doubled each time.
pub open spec fn backoff_ms(attempt: nat) -> nat {
    5 * pow2(attempt)
}

/// After try `attempt` of an upsert (counted from 0) ended with `error`
/// (`None` on success): the delay before trying again, or `None` when this
/// outcome is final. Only a conflict (an error whose text holds `1200`) is
/// retried, and never after the last allowed try.
pub fn upsert_retry_delay(attempt: u32, error: Option<&str>) -> (r: Option<u64>)
    requires
        attempt < MAX_UPSERT_ATTEMPTS,
    ensures
        r == (match error {
            Some(t) => if seq_contains(t@, "1200"@) && attempt + 1 < MAX_UPSERT_ATTEMPTS {
                Some(backoff_ms(attempt as nat) as u64)
            } else {
                None::<u64>
            },
            None => None::<u64>,
        }),
        attempt + 1 == MAX_UPSERT_ATTEMPTS ==> r is None,
{
    proof { lemma2_to64(); }
    match error {
        Some(t) => {
            if str_contains(t, "1200") && attempt + 1 < MAX_UPSERT_ATTEMPTS {
                if attempt == 0 { Some(5) } else { Some(10) }
            } else {
                None
            }
        },
        None => None,
    }
}

/// Each retry waits twice as long as the one before.
pub proof fn law_backoff_doubles(attempt: nat)
    ensures
        backoff_ms(attempt + 1) == 2 * backoff_ms(attempt),
{
    reveal(pow);
    assert(pow(2, attempt + 1) == 2 * pow(2, attempt));
    assert(pow(2, attempt) >= 0) by {
        vstd::arithmetic::power::lemma_pow_positive(2, attempt);
    }
}

/// The paths whose membership edges a soft delete of `collection`/`key`
/// disconnects: edges from `{collection}/{key}`, and edges to
/// `groups/{key}` (members of a deleted group).
pub fn soft_delete_paths(collection: &str, key: &str) -> (r: (String, String))
    ensures
        r.0@ == collection@ + "/"@ + key@,
        r.1@ == "groups/"@ + key@,
{
    let mut from = concat_str(collection, "/");
    from.append(key);
    (from, concat_str("groups/", key))
}

/// A membership edge cut by a soft delete.
pub struct DisconnectedEdge {
    pub collection: String,
    pub key: String,
    pub from: String,
    pub to: String,
}

/// The `key`, `from` and `to` strings of an edge row, when all three are there.
pub open spec fn edge_row(e: Json) -> Option<(Seq<char>, Seq<char>, Seq<char>)> {
    match (e.field("key"@), e.field("from"@), e.field("to"@)) {
        (Some(Json::String(k)), Some(Json::String(f)), Some(Json::String(t))) => Some((k@, f@, t@)),
        _ => None,
    }
}

/// The well-formed rows of `rows`, in order.
pub open spec fn edge_rows(rows: Seq<Json>) -> Seq<(Seq<char>, Seq<char>, Seq<char>)>
    decreases rows.len(),
{
    if rows.len() == 0 {
        Seq::empty()
    } else {
        let rest = edge_rows(rows.drop_last());
        match edge_row(rows.last()) {
            Some(t) => rest.push(t),
            None => rest,
        }
    }
}

/// The view of a disconnected edge.
pub open spec fn edge_view(e: DisconnectedEdge) -> (Seq<char>, Seq<char>, Seq<char>, Seq<char>) {
    (e.collection@, e.key@, e.from@, e.to@)
}

/// The edges of the membership rows `{key, from, to}` found for a soft
/// delete; rows missing one of the three strings are skipped.
pub fn disconnected_edges(rows: &Vec<Json>) -> (r: Vec<DisconnectedEdge>)
    ensures
        r@.len() == edge_rows(rows@).len(),
        forall|i: int| 0 <= i < r@.len() ==> edge_view(#[trigger] r@[i])
            == ("memberships"@, edge_rows(rows@)[i].0, edge_rows(rows@)[i].1, edge_rows(rows@)[i].2),
{
    proof { reveal_strlit("key"); reveal_strlit("from"); reveal_strlit("to"); }
    let mut out: Vec<DisconnectedEdge> = Vec::new();
    let n = rows.len();
    let mut i: usize = 0;
    while i < n
        invariant
            n == rows@.len(),
            i <= n,
            out@.len() == edge_rows(rows@.subrange(0, i as int)).len(),
            forall|j: int| 0 <= j < out@.len() ==> edge_view(#[trigger] out@[j])
                == ("memberships"@, edge_rows(rows@.subrange(0, i as int))[j].0,
                    edge_rows(rows@.subrange(0, i as int))[j].1, edge_rows(rows@.subrange(0, i as int))[j].2),
        decreases n - i,
    {
        proof {
            assert(rows@.subrange(0, i + 1).drop_last() =~= rows@.subrange(0, i as int));
            assert(rows@.subrange(0, i + 1).last() == rows@[i as int]);
        }
        let row = &rows[i];
        let k = row.get("key");
        let f = row.get("from");
        let t = row.get("to");
        match (k, f, t) {
            (Some(Json::String(k)), Some(Json::String(f)), Some(Json::String(t))) => {
                let ghost before = out@;
                out.push(DisconnectedEdge {
                    collection: String::from_str("memberships"),
                    key: k.clone(),
                    from: f.clone(),
                    to: t.clone(),
                });
                proof {
                    assert forall|j: int| 0 <= j < out@.len() implies edge_view(#[trigger] out@[j])
                        == ("memberships"@, edge_rows(rows@.subrange(0, i + 1))[j].0,
                            edge_rows(rows@.subrange(0, i + 1))[j].1, edge_rows(rows@.subrange(0, i + 1))[j].2) by {
                        if j < before.len() {
                            assert(out@[j] == before[j]);
                        }
                    }
                }
            },
            _ => {},
        }
        i = i + 1;
    }
    proof {
        assert(rows@.subrange(0, n as int) =~= rows@);
    }
    out
}

} // verus!
