//! Lexicographic order on strings (the order of `str`'s `<`: code point by
//! code point, a proper prefix first) and sorting with duplicates removed.

use vstd::prelude::*;
use vstd::string::*;
use crate::text::str_eq;

verus! {

/// `a` sorts strictly before `b`.
pub open spec fn seq_lt(a: Seq<char>, b: Seq<char>) -> bool
    decreases a.len(),
{
    if b.len() == 0 {
        false
    } else if a.len() == 0 {
        true
    } else if a[0] != b[0] {
        (a[0] as int) < (b[0] as int)
    } else {
        seq_lt(a.drop_first(), b.drop_first())
    }
}

/// No string sorts before itself.
pub proof fn lemma_lt_irreflexive(a: Seq<char>)
    ensures
        !seq_lt(a, a),
    decreases a.len(),
{
    if a.len() > 0 {
        lemma_lt_irreflexive(a.drop_first());
    }
}

/// The order is transitive.
pub proof fn lemma_lt_transitive(a: Seq<char>, b: Seq<char>, c: Seq<char>)
    requires
        seq_lt(a, b),
        seq_lt(b, c),
    ensures
        seq_lt(a, c),
    decreases a.len(),
{
    if a.len() > 0 && b.len() > 0 && c.len() > 0 && a[0] == b[0] && b[0] == c[0] {
        lemma_lt_transitive(a.drop_first(), b.drop_first(), c.drop_first());
    }
}

/// Any two distinct strings are ordered one way or the other.
pub proof fn lemma_lt_total(a: Seq<char>, b: Seq<char>)
    ensures
        a == b || seq_lt(a, b) || seq_lt(b, a),
    decreases a.len(),
{
    if a.len() == 0 && b.len() == 0 {
        assert(a =~= b);
    } else if a.len() > 0 && b.len() > 0 && a[0] == b[0] {
        lemma_lt_total(a.drop_first(), b.drop_first());
        if a.drop_first() == b.drop_first() {
            assert(a =~= b) by {
                assert(a.drop_first().len() == b.drop_first().len());
                assert(a.len() == b.len());
                assert forall|i: int| 0 <= i < a.len() implies a[i] == b[i] by {
                    if i > 0 {
                        assert(a[i] == a.drop_first()[i - 1]);
                        assert(b[i] == b.drop_first()[i - 1]);
                    }
                }
            }
        }
    } else if a.len() > 0 && b.len() > 0 {
        let x = a[0] as int;
        let y = b[0] as int;
        assert(x != y);
    }
}

/// The order is asymmetric.
pub proof fn lemma_lt_asymmetric(a: Seq<char>, b: Seq<char>)
    requires
        seq_lt(a, b),
    ensures
        !seq_lt(b, a),
{
    if seq_lt(b, a) {
        lemma_lt_transitive(a, b, a);
        lemma_lt_irreflexive(a);
    }
}

/// Whether `a` sorts strictly before `b`.
pub fn str_lt(a: &str, b: &str) -> (r: bool)
    ensures
        r == seq_lt(a@, b@),
{
    let n = a.unicode_len();
    let m = b.unicode_len();
    let mut i: usize = 0;
    proof {
        assert(a@.skip(0) =~= a@);
        assert(b@.skip(0) =~= b@);
    }
    while i < n && i < m
        invariant
            n == a@.len(),
            m == b@.len(),
            i <= n,
            i <= m,
            seq_lt(a@, b@) == seq_lt(a@.skip(i as int), b@.skip(i as int)),
        decreases n - i,
    {
        let ca = a.get_char(i);
        let cb = b.get_char(i);
        proof {
            assert(a@.skip(i as int)[0] == ca);
            assert(b@.skip(i as int)[0] == cb);
        }
        if ca != cb {
            return (ca as u32) < (cb as u32);
        }
        proof {
            assert(a@.skip(i as int).drop_first() =~= a@.skip(i + 1));
            assert(b@.skip(i as int).drop_first() =~= b@.skip(i + 1));
        }
        i = i + 1;
    }
    i < m
}

/// The strings a vector holds, as a set of character sequences.
pub open spec fn view_set(v: Seq<String>) -> Set<Seq<char>> {
    Set::new(|s: Seq<char>| exists|k: int| 0 <= k < v.len() && v[k]@ == s)
}

/// Each string sorts strictly before every later one.
pub open spec fn strictly_sorted(v: Seq<String>) -> bool {
    forall|i: int, j: int| 0 <= i < j < v.len() ==> seq_lt(#[trigger] v[i]@, #[trigger] v[j]@)
}

/// The distinct strings of `ids` in ascending order.
pub fn sort_dedup(ids: &Vec<String>) -> (r: Vec<String>)
    ensures
        strictly_sorted(r@),
        view_set(r@) == view_set(ids@),
{
    let mut out: Vec<String> = Vec::new();
    let n = ids.len();
    let mut i: usize = 0;
    while i < n
        invariant
            n == ids@.len(),
            i <= n,
            strictly_sorted(out@),
            view_set(out@) == view_set(ids@.take(i as int)),
        decreases n - i,
    {
        let x = ids[i].clone();
        let len = out.len();
        let mut j: usize = 0;
        while j < len && str_lt(out[j].as_str(), x.as_str())
            invariant
                len == out@.len(),
                j <= len,
                forall|q: int| 0 <= q < j ==> seq_lt(#[trigger] out@[q]@, x@),
            decreases len - j,
        {
            j = j + 1;
        }
        let ghost before = out@;
        if j < len && str_eq(out[j].as_str(), x.as_str()) {
            proof {
                assert(view_set(out@) =~= view_set(ids@.take(i + 1))) by {
                    assert forall|s: Seq<char>| view_set(ids@.take(i + 1)).contains(s) implies view_set(out@).contains(s) by {
                        let k = choose|k: int| 0 <= k < i + 1 && (#[trigger] ids@.take(i + 1)[k])@ == s;
                        if k < i {
                            assert(ids@.take(i as int)[k] == ids@[k]);
                            assert(view_set(ids@.take(i as int)).contains(s));
                        } else {
                            assert(out@[j as int]@ == s);
                        }
                    }
                    assert forall|s: Seq<char>| view_set(out@).contains(s) implies view_set(ids@.take(i + 1)).contains(s) by {
                        assert(view_set(ids@.take(i as int)).contains(s));
                        let k = choose|k: int| 0 <= k < i && (#[trigger] ids@.take(i as int)[k])@ == s;
                        assert(ids@.take(i + 1)[k] == ids@[k]);
                    }
                }
            }
        } else {
            proof {
                if j < len {
                    lemma_lt_total(out@[j as int]@, x@);
                }
            }
            out.insert(j, x);
            proof {
                let xs = x@;
                assert forall|a: int, b: int| 0 <= a < b < out@.len() implies seq_lt(#[trigger] out@[a]@, #[trigger] out@[b]@) by {
                    if b < j {
                        assert(out@[a] == before[a] && out@[b] == before[b]);
                    } else if b == j {
                        assert(out@[a] == before[a]);
                    } else if a == j {
                        assert(out@[b] == before[b - 1]);
                        if b - 1 > j {
                            lemma_lt_transitive(xs, before[j as int]@, before[b - 1]@);
                        }
                    } else if a < j {
                        assert(out@[a] == before[a] && out@[b] == before[b - 1]);
                    } else {
                        assert(out@[a] == before[a - 1] && out@[b] == before[b - 1]);
                    }
                }
                assert(view_set(out@) =~= view_set(ids@.take(i + 1))) by {
                    assert forall|s: Seq<char>| view_set(ids@.take(i + 1)).contains(s) implies view_set(out@).contains(s) by {
                        let k = choose|k: int| 0 <= k < i + 1 && (#[trigger] ids@.take(i + 1)[k])@ == s;
                        if k < i {
                            assert(ids@.take(i as int)[k] == ids@[k]);
                            assert(view_set(ids@.take(i as int)).contains(s));
                            assert(view_set(before).contains(s));
                            let q = choose|q: int| 0 <= q < before.len() && (#[trigger] before[q])@ == s;
                            if q < j { assert(out@[q] == before[q]); } else { assert(out@[q + 1] == before[q]); }
                        } else {
                            assert(out@[j as int]@ == s);
                        }
                    }
                    assert forall|s: Seq<char>| view_set(out@).contains(s) implies view_set(ids@.take(i + 1)).contains(s) by {
                        let q = choose|q: int| 0 <= q < out@.len() && (#[trigger] out@[q])@ == s;
                        if q == j {
                            assert(ids@.take(i + 1)[i as int] == ids@[i as int]);
                        } else {
                            let q2 = if q < j { q } else { q - 1 };
                            assert(out@[q] == before[q2]);
                            assert(view_set(before).contains(s));
                            let k = choose|k: int| 0 <= k < i && (#[trigger] ids@.take(i as int)[k])@ == s;
                            assert(ids@.take(i + 1)[k] == ids@[k]);
                        }
                    }
                }
            }
        }
        i = i + 1;
    }
    proof {
        assert(ids@.take(n as int) =~= ids@);
    }
    out
}

} // verus!
