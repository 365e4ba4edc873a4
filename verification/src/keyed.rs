//! Association lists keyed by strings: a vector of `(key, value)` pairs whose
//! keys are pairwise distinct, viewed as a map from key to value.

use vstd::prelude::*;
use vstd::string::*;
use crate::text::str_eq;

verus! {

/// Keys of `s` are pairwise distinct.
pub open spec fn unique_keys<V>(s: Seq<(String, V)>) -> bool {
    forall|i: int, j: int| 0 <= i < s.len() && 0 <= j < s.len() && i != j ==> s[i].0@ != s[j].0@
}

/// The map an association list denotes (later pairs win on equal keys).
pub open spec fn keyed_map<V>(s: Seq<(String, V)>) -> Map<Seq<char>, V>
    decreases s.len(),
{
    if s.len() == 0 {
        Map::empty()
    } else {
        keyed_map(s.drop_last()).insert(s.last().0@, s.last().1)
    }
}

/// With distinct keys, the map holds exactly the listed keys, each with its value,
/// and has as many keys as the list has pairs.
pub proof fn lemma_keyed_map<V>(s: Seq<(String, V)>)
    requires
        unique_keys(s),
    ensures
        keyed_map(s).dom().finite(),
        keyed_map(s).len() == s.len(),
        forall|k: Seq<char>| #[trigger] keyed_map(s).contains_key(k)
            <==> exists|i: int| 0 <= i < s.len() && s[i].0@ == k,
        forall|i: int| 0 <= i < s.len() ==> #[trigger] keyed_map(s)[s[i].0@] == s[i].1,
    decreases s.len(),
{
    if s.len() > 0 {
        let t = s.drop_last();
        assert(unique_keys(t));
        lemma_keyed_map(t);
        let last = s.last().0@;
        assert(!keyed_map(t).contains_key(last)) by {
            if keyed_map(t).contains_key(last) {
                let i = choose|i: int| 0 <= i < t.len() && t[i].0@ == last;
                assert(s[i] == t[i]);
            }
        }
        assert forall|k: Seq<char>| #[trigger] keyed_map(s).contains_key(k)
            implies exists|i: int| 0 <= i < s.len() && s[i].0@ == k by {
            if k != last {
                let i = choose|i: int| 0 <= i < t.len() && t[i].0@ == k;
                assert(s[i] == t[i]);
            } else {
                assert(s[s.len() - 1].0@ == k);
            }
        }
        assert forall|k: Seq<char>| (exists|i: int| 0 <= i < s.len() && s[i].0@ == k)
            implies #[trigger] keyed_map(s).contains_key(k) by {
            let i = choose|i: int| 0 <= i < s.len() && s[i].0@ == k;
            if i < s.len() - 1 {
                assert(t[i] == s[i]);
            }
        }
        assert forall|i: int| 0 <= i < s.len() implies #[trigger] keyed_map(s)[s[i].0@] == s[i].1 by {
            if i < s.len() - 1 {
                assert(t[i] == s[i]);
                assert(s[i].0@ != s[s.len() - 1].0@);
            }
        }
    }
}

/// Removing the pair at `i` removes its key from the map.
pub proof fn lemma_keyed_remove<V>(s: Seq<(String, V)>, i: int)
    requires
        unique_keys(s),
        0 <= i < s.len(),
    ensures
        unique_keys(s.remove(i)),
        keyed_map(s.remove(i)) == keyed_map(s).remove(s[i].0@),
{
    let t = s.remove(i);
    assert(unique_keys(t)) by {
        assert forall|a: int, b: int| 0 <= a < t.len() && 0 <= b < t.len() && a != b implies t[a].0@ != t[b].0@ by {
            let a2 = if a < i { a } else { a + 1 };
            let b2 = if b < i { b } else { b + 1 };
            assert(t[a] == s[a2]);
            assert(t[b] == s[b2]);
        }
    }
    lemma_keyed_map(s);
    lemma_keyed_map(t);
    let key = s[i].0@;
    assert forall|k: Seq<char>| #[trigger] keyed_map(t).contains_key(k)
        == keyed_map(s).remove(key).contains_key(k) by {
        if keyed_map(t).contains_key(k) {
            let j = choose|j: int| 0 <= j < t.len() && t[j].0@ == k;
            if j < i { assert(s[j] == t[j]); } else { assert(s[j + 1] == t[j]); }
        }
        if keyed_map(s).remove(key).contains_key(k) {
            let j = choose|j: int| 0 <= j < s.len() && s[j].0@ == k;
            if j < i { assert(s[j] == t[j]); } else { assert(s[j] == t[j - 1]); }
        }
    }
    assert forall|k: Seq<char>| #[trigger] keyed_map(t).contains_key(k)
        implies keyed_map(t)[k] == keyed_map(s)[k] by {
        let j = choose|j: int| 0 <= j < t.len() && t[j].0@ == k;
        if j < i { assert(s[j] == t[j]); } else { assert(s[j + 1] == t[j]); }
    }
    assert(keyed_map(t) =~= keyed_map(s).remove(key));
}

/// Appending a pair with a new key keeps keys distinct and inserts it.
pub proof fn lemma_keyed_push<V>(s: Seq<(String, V)>, k: String, v: V)
    requires
        unique_keys(s),
        !keyed_map(s).contains_key(k@),
    ensures
        unique_keys(s.push((k, v))),
        keyed_map(s.push((k, v))) == keyed_map(s).insert(k@, v),
{
    lemma_keyed_map(s);
    let t = s.push((k, v));
    assert(t.drop_last() =~= s);
    assert forall|a: int, b: int| 0 <= a < t.len() && 0 <= b < t.len() && a != b implies t[a].0@ != t[b].0@ by {
        if a < s.len() && b < s.len() {
            assert(t[a] == s[a] && t[b] == s[b]);
        } else if a < s.len() {
            assert(t[a] == s[a]);
        } else if b < s.len() {
            assert(t[b] == s[b]);
        }
    }
}

/// Position of the pair whose key is `key`.
pub fn find_key<V>(s: &Vec<(String, V)>, key: &str) -> (r: Option<usize>)
    ensures
        match r {
            Some(i) => i < s@.len() && s@[i as int].0@ == key@,
            None => forall|i: int| 0 <= i < s@.len() ==> s@[i].0@ != key@,
        },
{
    let n = s.len();
    let mut i: usize = 0;
    while i < n
        invariant
            n == s@.len(),
            i <= n,
            forall|j: int| 0 <= j < i ==> s@[j].0@ != key@,
        decreases n - i,
    {
        if str_eq(s[i].0.as_str(), key) {
            return Some(i);
        }
        i = i + 1;
    }
    None
}

} // verus!
