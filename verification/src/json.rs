//! A JSON document model with a map view of objects.
//!
//! Documents travel between the HTTP layer and the database as JSON; the
//! rules that inspect and rewrite them work on this model. Objects keep
//! their keys distinct, and their view is the map from key to value.

use vstd::prelude::*;
use vstd::string::*;
use crate::text::str_eq;

verus! {

/// A JSON number. Floating-point numbers are carried by their IEEE-754 bits.
#[derive(Debug, Clone, Copy, PartialEq, Eq, Structural)]
pub enum JsonNumber {
    PosInt(u64),
    NegInt(i64),
    FloatBits(u64),
}

/// A JSON value.
#[derive(Debug, PartialEq, Eq)]
pub enum Json {
    Null,
    Bool(bool),
    Number(JsonNumber),
    String(String),
    Array(Vec<Json>),
    Object(JsonObject),
}

/// A JSON object: string keys, each at most once, mapped to values.
#[derive(Debug, PartialEq, Eq)]
pub struct JsonObject {
    entries: Vec<(String, Json)>,
}

/// Keys of `s` are pairwise distinct.
pub open spec fn keys_distinct(s: Seq<(String, Json)>) -> bool {
    forall|i: int, j: int| 0 <= i < s.len() && 0 <= j < s.len() && i != j ==> s[i].0@ != s[j].0@
}

/// The map an entry sequence denotes (later entries win on equal keys).
pub open spec fn entries_map(s: Seq<(String, Json)>) -> Map<Seq<char>, Json>
    decreases s.len(),
{
    if s.len() == 0 {
        Map::empty()
    } else {
        entries_map(s.drop_last()).insert(s.last().0@, s.last().1)
    }
}

/// With distinct keys, the map holds exactly the entries' keys with their values.
pub proof fn lemma_entries_map(s: Seq<(String, Json)>)
    requires
        keys_distinct(s),
    ensures
        entries_map(s).dom().finite(),
        forall|k: Seq<char>| #[trigger] entries_map(s).contains_key(k)
            <==> exists|i: int| 0 <= i < s.len() && s[i].0@ == k,
        forall|i: int| 0 <= i < s.len() ==> #[trigger] entries_map(s)[s[i].0@] == s[i].1,
    decreases s.len(),
{
    if s.len() > 0 {
        let t = s.drop_last();
        assert(keys_distinct(t));
        lemma_entries_map(t);
        assert forall|k: Seq<char>| #[trigger] entries_map(s).contains_key(k)
            implies exists|i: int| 0 <= i < s.len() && s[i].0@ == k by {
            if k != s.last().0@ {
                let i = choose|i: int| 0 <= i < t.len() && t[i].0@ == k;
                assert(s[i] == t[i]);
            } else {
                assert(s[s.len() - 1].0@ == k);
            }
        }
        assert forall|k: Seq<char>| (exists|i: int| 0 <= i < s.len() && s[i].0@ == k)
            implies #[trigger] entries_map(s).contains_key(k) by {
            let i = choose|i: int| 0 <= i < s.len() && s[i].0@ == k;
            if i < s.len() - 1 {
                assert(t[i] == s[i]);
            }
        }
        assert forall|i: int| 0 <= i < s.len() implies #[trigger] entries_map(s)[s[i].0@] == s[i].1 by {
            if i < s.len() - 1 {
                assert(t[i] == s[i]);
                assert(s[i].0@ != s[s.len() - 1].0@);
            }
        }
    }
}

impl JsonObject {
    #[verifier::type_invariant]
    spec fn inv(self) -> bool {
        keys_distinct(self.entries@)
    }

    /// The map from key to value.
    pub closed spec fn view(&self) -> Map<Seq<char>, Json> {
        entries_map(self.entries@)
    }

    /// The empty object.
    pub fn new() -> (r: JsonObject)
        ensures
            r.view() == Map::<Seq<char>, Json>::empty(),
    {
        JsonObject { entries: Vec::new() }
    }

    /// Number of keys.
    pub fn len(&self) -> (r: usize)
        ensures
            r == self.view().len(),
    {
        proof {
            use_type_invariant(self);
            lemma_entries_map(self.entries@);
            self.lemma_len();
        }
        self.entries.len()
    }

    proof fn lemma_len(&self)
        requires
            keys_distinct(self.entries@),
        ensures
            self.view().len() == self.entries@.len(),
    {
        lemma_entries_map_len(self.entries@);
    }

    fn find(&self, key: &str) -> (r: Option<usize>)
        ensures
            match r {
                Some(i) => i < self.entries@.len() && self.entries@[i as int].0@ == key@,
                None => forall|i: int| 0 <= i < self.entries@.len() ==> self.entries@[i].0@ != key@,
            },
    {
        let n = self.entries.len();
        let mut i: usize = 0;
        while i < n
            invariant
                n == self.entries@.len(),
                i <= n,
                forall|j: int| 0 <= j < i ==> self.entries@[j].0@ != key@,
            decreases n - i,
        {
            if str_eq(self.entries[i].0.as_str(), key) {
                return Some(i);
            }
            i = i + 1;
        }
        None
    }

    /// Whether `key` is present.
    pub fn contains_key(&self, key: &str) -> (r: bool)
        ensures
            r == self.view().contains_key(key@),
    {
        proof {
            use_type_invariant(self);
            lemma_entries_map(self.entries@);
        }
        self.find(key).is_some()
    }

    /// The value stored under `key`.
    pub fn get(&self, key: &str) -> (r: Option<&Json>)
        ensures
            match r {
                Some(v) => self.view().contains_key(key@) && self.view()[key@] == *v,
                None => !self.view().contains_key(key@),
            },
    {
        proof {
            use_type_invariant(self);
            lemma_entries_map(self.entries@);
        }
        match self.find(key) {
            Some(i) => Some(&self.entries[i].1),
            None => None,
        }
    }

    /// Stores `value` under `key`, returning the value it replaces.
    pub fn insert(&mut self, key: String, value: Json) -> (r: Option<Json>)
        ensures
            final(self).view() == old(self).view().insert(key@, value),
            match r {
                Some(v) => old(self).view().contains_key(key@) && old(self).view()[key@] == v,
                None => !old(self).view().contains_key(key@),
            },
    {
        proof {
            use_type_invariant(&*self);
            lemma_entries_map(self.entries@);
        }
        let ghost old_s = self.entries@;
        match self.find(key.as_str()) {
            Some(i) => {
                let mut es: Vec<(String, Json)> = Vec::new();
                std::mem::swap(&mut es, &mut self.entries);
                let (_k, old_v) = es.remove(i);
                es.insert(i, (key, value));
                proof {
                    let new_s = es@;
                    assert(new_s =~= old_s.update(i as int, new_s[i as int]));
                    assert(keys_distinct(new_s));
                    lemma_entries_map(new_s);
                    let m = entries_map(old_s).insert(key@, value);
                    assert forall|k: Seq<char>| #[trigger] entries_map(new_s).contains_key(k)
                        == m.contains_key(k) by {
                        if entries_map(new_s).contains_key(k) {
                            let j = choose|j: int| 0 <= j < new_s.len() && new_s[j].0@ == k;
                            if j != i { assert(old_s[j] == new_s[j]); }
                        }
                        if m.contains_key(k) && k != key@ {
                            let j = choose|j: int| 0 <= j < old_s.len() && old_s[j].0@ == k;
                            assert(old_s[j] == new_s[j]);
                        }
                        if k == key@ {
                            assert(new_s[i as int].0@ == k);
                        }
                    }
                    assert forall|k: Seq<char>| #[trigger] entries_map(new_s).contains_key(k)
                        implies entries_map(new_s)[k] == m[k] by {
                        let j = choose|j: int| 0 <= j < new_s.len() && new_s[j].0@ == k;
                        if j != i { assert(old_s[j] == new_s[j]); }
                    }
                    assert(entries_map(new_s) =~= m);
                }
                self.entries = es;
                Some(old_v)
            },
            None => {
                let mut es: Vec<(String, Json)> = Vec::new();
                std::mem::swap(&mut es, &mut self.entries);
                es.push((key, value));
                proof {
                    let new_s = es@;
                    assert(new_s.drop_last() =~= old_s);
                    assert(keys_distinct(new_s));
                }
                self.entries = es;
                None
            },
        }
    }

    /// Stores `value` under `key` unless the key is already present
    /// (the behaviour of `entry(key).or_insert(value)`).
    pub fn insert_if_absent(&mut self, key: String, value: Json)
        ensures
            final(self).view() == if old(self).view().contains_key(key@) {
                old(self).view()
            } else {
                old(self).view().insert(key@, value)
            },
    {
        if !self.contains_key(key.as_str()) {
            self.insert(key, value);
        }
    }

    /// Removes `key`, returning its value.
    pub fn remove(&mut self, key: &str) -> (r: Option<Json>)
        ensures
            final(self).view() == old(self).view().remove(key@),
            match r {
                Some(v) => old(self).view().contains_key(key@) && old(self).view()[key@] == v,
                None => !old(self).view().contains_key(key@),
            },
    {
        proof {
            use_type_invariant(&*self);
            lemma_entries_map(self.entries@);
        }
        let ghost old_s = self.entries@;
        match self.find(key) {
            Some(i) => {
                let mut es: Vec<(String, Json)> = Vec::new();
                std::mem::swap(&mut es, &mut self.entries);
                let (_k, v) = es.remove(i);
                proof {
                    let new_s = es@;
                    assert(keys_distinct(new_s));
                    lemma_entries_map(new_s);
                    assert forall|k: Seq<char>| #[trigger] entries_map(new_s).contains_key(k)
                        == entries_map(old_s).remove(key@).contains_key(k) by {
                        if entries_map(new_s).contains_key(k) {
                            let j = choose|j: int| 0 <= j < new_s.len() && new_s[j].0@ == k;
                            if j < i { assert(old_s[j] == new_s[j]); } else { assert(old_s[j + 1] == new_s[j]); }
                        }
                        if entries_map(old_s).remove(key@).contains_key(k) {
                            let j = choose|j: int| 0 <= j < old_s.len() && old_s[j].0@ == k;
                            if j < i { assert(old_s[j] == new_s[j]); } else { assert(old_s[j] == new_s[j - 1]); }
                        }
                    }
                    assert forall|k: Seq<char>| #[trigger] entries_map(new_s).contains_key(k)
                        implies entries_map(new_s)[k] == entries_map(old_s)[k] by {
                        let j = choose|j: int| 0 <= j < new_s.len() && new_s[j].0@ == k;
                        if j < i { assert(old_s[j] == new_s[j]); } else { assert(old_s[j + 1] == new_s[j]); }
                    }
                    assert(entries_map(new_s) =~= entries_map(old_s).remove(key@));
                }
                self.entries = es;
                Some(v)
            },
            None => {
                proof {
                    assert(entries_map(old_s) =~= entries_map(old_s).remove(key@));
                }
                None
            },
        }
    }
}

/// A map with distinct keys has as many keys as entries.
pub proof fn lemma_entries_map_len(s: Seq<(String, Json)>)
    requires
        keys_distinct(s),
    ensures
        entries_map(s).len() == s.len(),
    decreases s.len(),
{
    if s.len() > 0 {
        let t = s.drop_last();
        assert(keys_distinct(t));
        lemma_entries_map_len(t);
        lemma_entries_map(t);
        assert(!entries_map(t).contains_key(s.last().0@)) by {
            if entries_map(t).contains_key(s.last().0@) {
                let i = choose|i: int| 0 <= i < t.len() && t[i].0@ == s.last().0@;
                assert(s[i] == t[i]);
            }
        }
    }
}

/// The keys named by a list of field names.
pub open spec fn field_set(fields: Seq<&str>) -> Set<Seq<char>> {
    Set::new(|k: Seq<char>| exists|i: int| 0 <= i < fields.len() && fields[i]@ == k)
}

/// Whether `key` is one of `fields`.
pub fn field_listed(fields: &[&str], key: &str) -> (r: bool)
    ensures
        r == field_set(fields@).contains(key@),
{
    let n = fields.len();
    let mut i: usize = 0;
    while i < n
        invariant
            n == fields@.len(),
            i <= n,
            forall|j: int| 0 <= j < i ==> fields@[j]@ != key@,
        decreases n - i,
    {
        if str_eq(fields[i], key) {
            return true;
        }
        i = i + 1;
    }
    false
}

impl JsonObject {
    /// Keeps only the keys listed in `fields`.
    pub fn retain_fields(&mut self, fields: &[&str])
        ensures
            final(self).view() == old(self).view().restrict(field_set(fields@)),
    {
        proof {
            use_type_invariant(&*self);
            lemma_entries_map(self.entries@);
        }
        let ghost orig = self.entries@;
        let ghost fs = field_set(fields@);
        let mut es: Vec<(String, Json)> = Vec::new();
        std::mem::swap(&mut es, &mut self.entries);
        let mut kept: Vec<(String, Json)> = Vec::new();
        let ghost mut idx: int = 0;
        let ghost mut src: Seq<int> = Seq::empty();
        while es.len() > 0
            invariant
                keys_distinct(orig),
                fs == field_set(fields@),
                0 <= idx <= orig.len(),
                es@ == orig.subrange(idx, orig.len() as int),
                src.len() == kept@.len(),
                forall|j: int| 0 <= j < kept@.len() ==> 0 <= #[trigger] src[j] < idx
                    && orig[src[j]] == kept@[j] && fs.contains(orig[src[j]].0@),
                forall|a: int, b: int| 0 <= a < b < kept@.len() ==> src[a] < src[b],
                forall|i: int| 0 <= i < idx && fs.contains(#[trigger] orig[i].0@) ==>
                    exists|j: int| 0 <= j < kept@.len() && src[j] == i,
            decreases es@.len(),
        {
            let (k, v) = es.remove(0);
            proof {
                assert(orig[idx] == (k, v));
            }
            if field_listed(fields, k.as_str()) {
                let ghost before = kept@;
                let ghost src0 = src;
                kept.push((k, v));
                proof {
                    src = src.push(idx);
                    assert forall|i: int| 0 <= i < idx + 1 && fs.contains(#[trigger] orig[i].0@) implies
                        exists|j: int| 0 <= j < kept@.len() && src[j] == i by {
                        if i < idx {
                            let j = choose|j: int| 0 <= j < before.len() && src0[j] == i;
                            assert(src[j] == src0[j]);
                        } else {
                            assert(src[kept@.len() - 1] == i);
                        }
                    }
                }
            }
            proof {
                idx = idx + 1;
                assert(es@ =~= orig.subrange(idx, orig.len() as int));
            }
        }
        proof {
            assert forall|a: int, b: int| 0 <= a < kept@.len() && 0 <= b < kept@.len() && a != b
                implies kept@[a].0@ != kept@[b].0@ by {
                assert(src[a] != src[b]);
            }
            lemma_entries_map(kept@);
            let m = entries_map(orig).restrict(fs);
            assert forall|k: Seq<char>| #[trigger] entries_map(kept@).contains_key(k) == m.contains_key(k) by {
                if entries_map(kept@).contains_key(k) {
                    let j = choose|j: int| 0 <= j < kept@.len() && kept@[j].0@ == k;
                    assert(orig[src[j]] == kept@[j]);
                }
                if m.contains_key(k) {
                    let i = choose|i: int| 0 <= i < orig.len() && orig[i].0@ == k;
                    let j = choose|j: int| 0 <= j < kept@.len() && src[j] == i;
                    assert(orig[src[j]] == kept@[j]);
                }
            }
            assert forall|k: Seq<char>| #[trigger] entries_map(kept@).contains_key(k) implies
                entries_map(kept@)[k] == m[k] by {
                let j = choose|j: int| 0 <= j < kept@.len() && kept@[j].0@ == k;
                assert(orig[src[j]] == kept@[j]);
            }
            assert(entries_map(kept@) =~= m);
        }
        self.entries = kept;
    }

    /// The entries of the object, keys distinct, in storage order.
    pub fn into_entries(self) -> (r: Vec<(String, Json)>)
        ensures
            keys_distinct(r@),
            entries_map(r@) == self.view(),
    {
        proof {
            use_type_invariant(&self);
        }
        self.entries
    }
}

/// `b` is a structural copy of `a`: same shape, same strings, numbers and
/// booleans, and objects with the same keys in the same order.
pub closed spec fn json_same(a: Json, b: Json) -> bool
    decreases a,
{
    match a {
        Json::Array(x) => match b {
            Json::Array(y) => x@.len() == y@.len()
                && forall|i: int| 0 <= i < x@.len() ==> json_same(#[trigger] x@[i], y@[i]),
            _ => false,
        },
        Json::Object(x) => match b {
            Json::Object(y) => x.entries@.len() == y.entries@.len()
                && forall|i: int| 0 <= i < x.entries@.len() ==> (#[trigger] x.entries@[i]).0@ == y.entries@[i].0@
                    && json_same(x.entries@[i].1, y.entries@[i].1),
            _ => false,
        },
        Json::String(s) => b matches Json::String(t) && s@ == t@,
        _ => a == b,
    }
}

impl Json {
    /// A structural copy of the value.
    pub fn copy(&self) -> (r: Json)
        ensures
            json_same(*self, r),
        decreases *self,
    {
        match self {
            Json::Null => Json::Null,
            Json::Bool(b) => Json::Bool(*b),
            Json::Number(n) => Json::Number(*n),
            Json::String(s) => Json::String(s.clone()),
            Json::Array(x) => {
                let mut out: Vec<Json> = Vec::new();
                let n = x.len();
                let mut i: usize = 0;
                while i < n
                    invariant
                        *self == Json::Array(*x),
                        n == x@.len(),
                        i <= n,
                        out@.len() == i,
                        forall|j: int| 0 <= j < i ==> json_same(#[trigger] x@[j], out@[j]),
                    decreases n - i,
                {
                    proof {
                        assert(decreases_to!(*self => (*self)->Array_0));
                        assert(decreases_to!(*x => x[i as int]));
                        assert(x[i as int] == x@[i as int]);
                    }
                    let c = x[i].copy();
                    out.push(c);
                    i = i + 1;
                }
                Json::Array(out)
            },
            Json::Object(o) => {
                proof { use_type_invariant(o); }
                let mut out: Vec<(String, Json)> = Vec::new();
                let n = o.entries.len();
                let mut i: usize = 0;
                while i < n
                    invariant
                        *self == Json::Object(*o),
                        n == o.entries@.len(),
                        keys_distinct(o.entries@),
                        i <= n,
                        out@.len() == i,
                        forall|j: int| 0 <= j < i ==> (#[trigger] o.entries@[j]).0@ == out@[j].0@
                            && json_same(o.entries@[j].1, out@[j].1),
                    decreases n - i,
                {
                    proof {
                        assert(decreases_to!(*self => (*self)->Object_0));
                        assert(decreases_to!(*o => o.entries));
                        assert(decreases_to!(o.entries => o.entries[i as int]));
                        assert(decreases_to!(o.entries[i as int] => o.entries[i as int].1));
                        assert(o.entries[i as int] == o.entries@[i as int]);
                    }
                    let c = o.entries[i].1.copy();
                    let k = o.entries[i].0.clone();
                    out.push((k, c));
                    i = i + 1;
                }
                proof {
                    assert forall|a: int, b: int| 0 <= a < out@.len() && 0 <= b < out@.len() && a != b
                        implies out@[a].0@ != out@[b].0@ by {
                        assert(o.entries@[a].0@ == out@[a].0@);
                        assert(o.entries@[b].0@ == out@[b].0@);
                    }
                }
                Json::Object(JsonObject { entries: out })
            },
        }
    }

    /// The value under `key` when `self` is an object.
    pub open spec fn field(self, key: Seq<char>) -> Option<Json> {
        match self {
            Json::Object(o) => if o.view().contains_key(key) { Some(o.view()[key]) } else { None },
            _ => None,
        }
    }

    /// The string content, when `self` is a string.
    pub open spec fn str_view(self) -> Option<Seq<char>> {
        match self {
            Json::String(s) => Some(s@),
            _ => None,
        }
    }

    /// `Value::get` for string keys.
    pub fn get(&self, key: &str) -> (r: Option<&Json>)
        ensures
            match r {
                Some(v) => self.field(key@) == Some(*v),
                None => self.field(key@) is None,
            },
    {
        match self {
            Json::Object(o) => o.get(key),
            _ => None,
        }
    }

    /// `Value::as_str`.
    pub fn as_str(&self) -> (r: Option<&str>)
        ensures
            match r {
                Some(s) => self.str_view() == Some(s@),
                None => self.str_view() is None,
            },
    {
        match self {
            Json::String(s) => Some(s.as_str()),
            _ => None,
        }
    }

    /// `Value::as_array`.
    pub fn as_array(&self) -> (r: Option<&Vec<Json>>)
        ensures
            match r {
                Some(a) => *self == Json::Array(*a),
                None => !(self is Array),
            },
    {
        match self {
            Json::Array(a) => Some(a),
            _ => None,
        }
    }

    /// `Value::as_object`.
    pub fn as_object(&self) -> (r: Option<&JsonObject>)
        ensures
            match r {
                Some(o) => *self == Json::Object(*o),
                None => !(self is Object),
            },
    {
        match self {
            Json::Object(o) => Some(o),
            _ => None,
        }
    }

    /// An empty object value (`json!({})`).
    pub fn empty_object() -> (r: Json)
        ensures
            r matches Json::Object(o) && o.view() == Map::<Seq<char>, Json>::empty(),
    {
        Json::Object(JsonObject::new())
    }

    /// A string value.
    pub fn from_str(s: &str) -> (r: Json)
        ensures
            r matches Json::String(t) && t@ == s@,
    {
        Json::String(String::from_str(s))
    }
}

} // verus!
