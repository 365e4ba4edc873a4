//! The account database interface and its in-memory implementation: users
//! and groups by id, and group memberships as sets of principal ids.

use vstd::prelude::*;
use vstd::string::*;
use crate::json::Json;
use crate::keyed::{unique_keys, keyed_map, lemma_keyed_map, lemma_keyed_remove, lemma_keyed_push, find_key};
use crate::lexical::view_set;
use crate::text::{owned, starts_with, seq_starts_with, str_eq};

verus! {

/// A user or group record: its id and its document.
pub struct Account {
    pub id: String,
    pub doc: Json,
}

/// A database transaction.
pub trait Transaction {
    /// Makes the transaction's writes durable.
    fn commit(&mut self) -> Result<(), String>;
    /// Discards the transaction's writes.
    fn abort(&mut self) -> Result<(), String>;
}

/// The transaction of a backend without transactions: nothing to commit or abort.
pub struct DummyTx;

impl Transaction for DummyTx {
    fn commit(&mut self) -> (r: Result<(), String>)
        ensures
            r is Ok,
    {
        Ok(())
    }

    fn abort(&mut self) -> (r: Result<(), String>)
        ensures
            r is Ok,
    {
        Ok(())
    }
}

/// Account storage, optionally transactional.
pub trait DatabaseInterface {
    /// The backend's transactions.
    type Tx: Transaction;
    /// A new transaction, or `None` where the backend has none.
    fn begin_transaction(&self) -> Result<Option<Self::Tx>, String>;
    /// Stores a user under its id, replacing any user with that id.
    fn create_user(&mut self, user: Account, tx: Option<&mut Self::Tx>) -> Result<(), String>;
    /// Stores a group under its id, replacing any group with that id.
    fn create_group(&mut self, group: Account, tx: Option<&mut Self::Tx>) -> Result<(), String>;
    /// Makes `principal_id` a member of `group_id`.
    fn add_principal_to_group(&mut self, principal_id: &str, group_id: &str, tx: Option<&mut Self::Tx>) -> Result<(), String>;
    /// The ids of the user members (`u:` ids) of a group.
    fn get_users_in_group(&self, group_id: &str) -> Result<Vec<String>, String>;
    /// The ids of the group members (`g:` ids) of a group.
    fn get_groups_in_group(&self, group_id: &str) -> Result<Vec<String>, String>;
    /// Replaces the user with the same id.
    fn modify_user(&mut self, user: Account, tx: Option<&mut Self::Tx>) -> Result<(), String>;
}

/// Pairwise distinct strings.
pub open spec fn distinct_strings(v: Seq<String>) -> bool {
    forall|i: int, j: int| 0 <= i < v.len() && 0 <= j < v.len() && i != j ==> v[i]@ != v[j]@
}

/// The members of `m` whose ids start with `prefix`.
pub open spec fn members_with_prefix(m: Set<Seq<char>>, prefix: Seq<char>) -> Set<Seq<char>> {
    m.filter(|p: Seq<char>| seq_starts_with(p, prefix))
}

/// Each account is stored under its own id.
pub open spec fn keys_match(es: Seq<(String, Account)>) -> bool {
    forall|i: int| 0 <= i < es.len() ==> (#[trigger] es[i]).0@ == es[i].1.id@
}

/// Accounts held in memory.
pub struct InMemoryDb {
    users: Vec<(String, Account)>,
    groups: Vec<(String, Account)>,
    memberships: Vec<(String, Vec<String>)>,
}

impl InMemoryDb {
    #[verifier::type_invariant]
    spec fn inv(self) -> bool {
        &&& unique_keys(self.users@)
        &&& unique_keys(self.groups@)
        &&& keys_match(self.users@)
        &&& keys_match(self.groups@)
        &&& unique_keys(self.memberships@)
        &&& forall|i: int| 0 <= i < self.memberships@.len() ==> distinct_strings(#[trigger] self.memberships@[i].1@)
    }

    /// Users by id.
    pub closed spec fn users(&self) -> Map<Seq<char>, Account> {
        keyed_map(self.users@)
    }

    /// Groups by id.
    pub closed spec fn groups(&self) -> Map<Seq<char>, Account> {
        keyed_map(self.groups@)
    }

    /// Members of each group that has any.
    pub closed spec fn members(&self) -> Map<Seq<char>, Set<Seq<char>>> {
        keyed_map(self.memberships@).map_values(|v: Vec<String>| view_set(v@))
    }

    /// An empty database.
    pub fn new() -> (r: InMemoryDb)
        ensures
            r.users() == Map::<Seq<char>, Account>::empty(),
            r.groups() == Map::<Seq<char>, Account>::empty(),
            r.members() == Map::<Seq<char>, Set<Seq<char>>>::empty(),
    {
        let r = InMemoryDb { users: Vec::new(), groups: Vec::new(), memberships: Vec::new() };
        assert(r.members() =~= Map::<Seq<char>, Set<Seq<char>>>::empty());
        r
    }

    /// The user with id `user_id`.
    pub fn get_user_by_id(&self, user_id: &str) -> (r: Option<&Account>)
        ensures
            match r {
                Some(a) => self.users().contains_key(user_id@) && self.users()[user_id@] == *a,
                None => !self.users().contains_key(user_id@),
            },
    {
        proof {
            use_type_invariant(self);
            lemma_keyed_map(self.users@);
        }
        match find_key(&self.users, user_id) {
            Some(i) => Some(&self.users[i].1),
            None => None,
        }
    }

    /// The group with id `group_id`.
    pub fn get_group_by_id(&self, group_id: &str) -> (r: Option<&Account>)
        ensures
            match r {
                Some(a) => self.groups().contains_key(group_id@) && self.groups()[group_id@] == *a,
                None => !self.groups().contains_key(group_id@),
            },
    {
        proof {
            use_type_invariant(self);
            lemma_keyed_map(self.groups@);
        }
        match find_key(&self.groups, group_id) {
            Some(i) => Some(&self.groups[i].1),
            None => None,
        }
    }

    /// Every user, each once.
    pub fn get_users_list(&self) -> (r: Vec<&Account>)
        ensures
            r@.len() == self.users().len(),
            forall|i: int| 0 <= i < r@.len() ==> self.users().contains_key((#[trigger] r@[i]).id@)
                && self.users()[r@[i].id@] == *r@[i],
            forall|k: Seq<char>| #[trigger] self.users().contains_key(k) ==> exists|i: int| 0 <= i < r@.len() && r@[i].id@ == k,
    {
        proof {
            use_type_invariant(self);
            lemma_keyed_map(self.users@);
        }
        list_values(&self.users)
    }

    /// Every group, each once.
    pub fn get_groups_list(&self) -> (r: Vec<&Account>)
        ensures
            r@.len() == self.groups().len(),
            forall|i: int| 0 <= i < r@.len() ==> self.groups().contains_key((#[trigger] r@[i]).id@)
                && self.groups()[r@[i].id@] == *r@[i],
            forall|k: Seq<char>| #[trigger] self.groups().contains_key(k) ==> exists|i: int| 0 <= i < r@.len() && r@[i].id@ == k,
    {
        proof {
            use_type_invariant(self);
            lemma_keyed_map(self.groups@);
        }
        list_values(&self.groups)
    }
}

fn list_values(es: &Vec<(String, Account)>) -> (r: Vec<&Account>)
    requires
        unique_keys(es@),
        keys_match(es@),
    ensures
        r@.len() == keyed_map(es@).len(),
        forall|i: int| 0 <= i < r@.len() ==> keyed_map(es@).contains_key((#[trigger] r@[i]).id@)
            && keyed_map(es@)[r@[i].id@] == *r@[i],
        forall|k: Seq<char>| #[trigger] keyed_map(es@).contains_key(k) ==> exists|i: int| 0 <= i < r@.len() && r@[i].id@ == k,
{
    proof { lemma_keyed_map(es@); }
    let mut out: Vec<&Account> = Vec::new();
    let n = es.len();
    let mut i: usize = 0;
    while i < n
        invariant
            n == es@.len(),
            i <= n,
            unique_keys(es@),
            keys_match(es@),
            out@.len() == i,
            forall|j: int| 0 <= j < i ==> *out@[j] == es@[j].1,
        decreases n - i,
    {
        out.push(&es[i].1);
        i = i + 1;
    }
    proof {
        assert forall|j: int| 0 <= j < out@.len() implies keyed_map(es@).contains_key((#[trigger] out@[j]).id@)
            && keyed_map(es@)[out@[j].id@] == *out@[j] by {
            assert(keyed_map(es@)[es@[j].0@] == es@[j].1);
            assert(keyed_map(es@).contains_key(es@[j].0@));
            assert(es@[j].0@ == es@[j].1.id@);
        }
        assert forall|k: Seq<char>| #[trigger] keyed_map(es@).contains_key(k)
            implies exists|j: int| 0 <= j < out@.len() && out@[j].id@ == k by {
            let j = choose|j: int| 0 <= j < es@.len() && es@[j].0@ == k;
            assert(*out@[j] == es@[j].1);
            assert(es@[j].0@ == es@[j].1.id@);
        }
    }
    out
}

/// Stores `a` under its id, replacing any entry with that id.
fn put_account(es: &mut Vec<(String, Account)>, a: Account)
    requires
        unique_keys(old(es)@),
        keys_match(old(es)@),
    ensures
        unique_keys(final(es)@),
        keys_match(final(es)@),
        keyed_map(final(es)@) == keyed_map(old(es)@).insert(a.id@, a),
{
    proof { lemma_keyed_map(es@); }
    let ghost m0 = keyed_map(es@);
    match find_key(es, a.id.as_str()) {
        Some(i) => {
            proof { lemma_keyed_remove(es@, i as int); }
            let ghost s0 = es@;
            let _old = es.remove(i);
            proof {
                assert forall|j: int| 0 <= j < es@.len() implies (#[trigger] es@[j]).0@ == es@[j].1.id@ by {
                    if j < i { assert(es@[j] == s0[j]); } else { assert(es@[j] == s0[j + 1]); }
                }
            }
        },
        None => {
            proof { assert(keyed_map(es@) =~= m0.remove(a.id@)); }
        },
    }
    let key = a.id.clone();
    proof {
        lemma_keyed_map(es@);
        lemma_keyed_push(es@, key, a);
    }
    let ghost mid = es@;
    es.push((key, a));
    proof {
        assert(keyed_map(es@) =~= m0.insert(a.id@, a));
        assert forall|j: int| 0 <= j < es@.len() implies (#[trigger] es@[j]).0@ == es@[j].1.id@ by {
            if j < mid.len() { assert(es@[j] == mid[j]); }
        }
    }
}

/// Whether `p` is listed in `v`.
fn listed(v: &Vec<String>, p: &str) -> (r: bool)
    ensures
        r == view_set(v@).contains(p@),
{
    let n = v.len();
    let mut i: usize = 0;
    while i < n
        invariant
            n == v@.len(),
            i <= n,
            forall|j: int| 0 <= j < i ==> v@[j]@ != p@,
        decreases n - i,
    {
        if str_eq(v[i].as_str(), p) {
            assert(v@[i as int]@ == p@);
            return true;
        }
        i = i + 1;
    }
    false
}

/// `x` is one of the first `hi` entries of `v` and starts with `prefix`.
spec fn prefixed_from(x: String, v: Seq<String>, hi: int, prefix: Seq<char>) -> bool {
    exists|j: int| 0 <= j < hi && x@ == (#[trigger] v[j])@ && seq_starts_with(v[j]@, prefix)
}

/// The entries of `v` whose ids start with `prefix`.
fn with_prefix(v: &Vec<String>, prefix: &str) -> (r: Vec<String>)
    requires
        distinct_strings(v@),
    ensures
        distinct_strings(r@),
        view_set(r@) == members_with_prefix(view_set(v@), prefix@),
{
    let mut out: Vec<String> = Vec::new();
    let n = v.len();
    let mut i: usize = 0;
    while i < n
        invariant
            n == v@.len(),
            i <= n,
            distinct_strings(v@),
            distinct_strings(out@),
            forall|a: int| 0 <= a < out@.len() ==> #[trigger] prefixed_from(out@[a], v@, i as int, prefix@),
            forall|j: int| 0 <= j < i && seq_starts_with((#[trigger] v@[j])@, prefix@)
                ==> exists|a: int| 0 <= a < out@.len() && out@[a]@ == v@[j]@,
        decreases n - i,
    {
        if starts_with(v[i].as_str(), prefix) {
            let ghost before = out@;
            out.push(v[i].clone());
            proof {
                assert forall|a: int, b: int| 0 <= a < out@.len() && 0 <= b < out@.len() && a != b
                    implies out@[a]@ != out@[b]@ by {
                    if a < before.len() && b < before.len() {
                        assert(out@[a] == before[a] && out@[b] == before[b]);
                    } else if a < before.len() {
                        assert(out@[a] == before[a]);
                        assert(prefixed_from(before[a], v@, i as int, prefix@));
                        let j = choose|j: int| 0 <= j < i && before[a]@ == (#[trigger] v@[j])@ && seq_starts_with(v@[j]@, prefix@);
                    } else {
                        assert(out@[b] == before[b]);
                        assert(prefixed_from(before[b], v@, i as int, prefix@));
                        let j = choose|j: int| 0 <= j < i && before[b]@ == (#[trigger] v@[j])@ && seq_starts_with(v@[j]@, prefix@);
                    }
                }
                assert forall|a: int| 0 <= a < out@.len() implies #[trigger] prefixed_from(out@[a], v@, i + 1, prefix@) by {
                    if a < before.len() {
                        assert(out@[a] == before[a]);
                        assert(prefixed_from(before[a], v@, i as int, prefix@));
                        let j = choose|j: int| 0 <= j < i && before[a]@ == (#[trigger] v@[j])@ && seq_starts_with(v@[j]@, prefix@);
                        assert(out@[a]@ == v@[j]@);
                    } else {
                        assert(out@[a]@ == v@[i as int]@);
                    }
                }
                assert forall|j: int| 0 <= j < i + 1 && seq_starts_with((#[trigger] v@[j])@, prefix@)
                    implies exists|a: int| 0 <= a < out@.len() && out@[a]@ == v@[j]@ by {
                    if j < i {
                        let a = choose|a: int| 0 <= a < before.len() && before[a]@ == v@[j]@;
                        assert(out@[a] == before[a]);
                    } else {
                        assert(out@[out@.len() - 1]@ == v@[j]@);
                    }
                }
            }
        } else {
            proof {
                assert forall|a: int| 0 <= a < out@.len() implies #[trigger] prefixed_from(out@[a], v@, i + 1, prefix@) by {
                    assert(prefixed_from(out@[a], v@, i as int, prefix@));
                    let j = choose|j: int| 0 <= j < i && out@[a]@ == (#[trigger] v@[j])@ && seq_starts_with(v@[j]@, prefix@);
                }
            }
        }
        i = i + 1;
    }
    proof {
        assert(view_set(out@) =~= members_with_prefix(view_set(v@), prefix@)) by {
            assert forall|s: Seq<char>| view_set(out@).contains(s) implies members_with_prefix(view_set(v@), prefix@).contains(s) by {
                let a = choose|a: int| 0 <= a < out@.len() && (#[trigger] out@[a])@ == s;
                assert(prefixed_from(out@[a], v@, n as int, prefix@));
                let j = choose|j: int| 0 <= j < n && out@[a]@ == (#[trigger] v@[j])@ && seq_starts_with(v@[j]@, prefix@);
                assert(view_set(v@).contains(v@[j]@));
            }
            assert forall|s: Seq<char>| members_with_prefix(view_set(v@), prefix@).contains(s) implies view_set(out@).contains(s) by {
                let j = choose|j: int| 0 <= j < v@.len() && (#[trigger] v@[j])@ == s;
                let a = choose|a: int| 0 <= a < out@.len() && out@[a]@ == v@[j]@;
                assert(out@[a]@ == s);
            }
        }
    }
    out
}

impl DatabaseInterface for InMemoryDb {
    type Tx = DummyTx;

    fn begin_transaction(&self) -> (r: Result<Option<DummyTx>, String>)
        ensures
            r matches Ok(None),
    {
        Ok(None)
    }

    fn create_user(&mut self, user: Account, tx: Option<&mut DummyTx>) -> (r: Result<(), String>)
        ensures
            r is Ok,
            final(self).users() == old(self).users().insert(user.id@, user),
            final(self).groups() == old(self).groups(),
            final(self).members() == old(self).members(),
    {
        proof {
            use_type_invariant(&*self);
        }
        let mut es: Vec<(String, Account)> = Vec::new();
        std::mem::swap(&mut es, &mut self.users);
        put_account(&mut es, user);
        self.users = es;
        Ok(())
    }

    fn create_group(&mut self, group: Account, tx: Option<&mut DummyTx>) -> (r: Result<(), String>)
        ensures
            r is Ok,
            final(self).groups() == old(self).groups().insert(group.id@, group),
            final(self).users() == old(self).users(),
            final(self).members() == old(self).members(),
    {
        proof {
            use_type_invariant(&*self);
        }
        let mut es: Vec<(String, Account)> = Vec::new();
        std::mem::swap(&mut es, &mut self.groups);
        put_account(&mut es, group);
        self.groups = es;
        Ok(())
    }

    fn add_principal_to_group(&mut self, principal_id: &str, group_id: &str, tx: Option<&mut DummyTx>) -> (r: Result<(), String>)
        ensures
            r is Ok,
            final(self).members() == old(self).members().insert(group_id@,
                if old(self).members().contains_key(group_id@) {
                    old(self).members()[group_id@].insert(principal_id@)
                } else {
                    set![principal_id@]
                }),
            final(self).users() == old(self).users(),
            final(self).groups() == old(self).groups(),
    {
        proof {
            use_type_invariant(&*self);
            lemma_keyed_map(self.memberships@);
        }
        let ghost m0 = keyed_map(self.memberships@);
        let ghost v0 = self.members();
        let mut ms: Vec<(String, Vec<String>)> = Vec::new();
        std::mem::swap(&mut ms, &mut self.memberships);
        let ghost s0 = ms@;
        let (key, mut members) = match find_key(&ms, group_id) {
            Some(i) => {
                proof {
                    lemma_keyed_remove(ms@, i as int);
                    assert(distinct_strings(ms@[i as int].1@));
                }
                let pair = ms.remove(i);
                proof {
                    assert forall|j: int| 0 <= j < ms@.len() implies distinct_strings(#[trigger] ms@[j].1@) by {
                        if j < i { assert(ms@[j] == s0[j]); } else { assert(ms@[j] == s0[j + 1]); }
                    }
                }
                pair
            },
            None => {
                proof { assert(keyed_map(ms@) =~= m0.remove(group_id@)); }
                (owned(group_id), Vec::new())
            },
        };
        let ghost before = members@;
        if !listed(&members, principal_id) {
            members.push(owned(principal_id));
            proof {
                assert forall|a: int, b: int| 0 <= a < members@.len() && 0 <= b < members@.len() && a != b
                    implies members@[a]@ != members@[b]@ by {
                    if a < before.len() && b < before.len() {
                        assert(members@[a] == before[a] && members@[b] == before[b]);
                    } else if a < before.len() {
                        assert(members@[a] == before[a]);
                        assert(view_set(before).contains(before[a]@));
                    } else {
                        assert(members@[b] == before[b]);
                        assert(view_set(before).contains(before[b]@));
                    }
                }
                assert(view_set(members@) =~= view_set(before).insert(principal_id@)) by {
                    assert forall|s: Seq<char>| view_set(members@).contains(s) implies view_set(before).insert(principal_id@).contains(s) by {
                        let a = choose|a: int| 0 <= a < members@.len() && (#[trigger] members@[a])@ == s;
                        if a < before.len() { assert(members@[a] == before[a]); }
                    }
                    assert forall|s: Seq<char>| view_set(before).insert(principal_id@).contains(s) implies view_set(members@).contains(s) by {
                        if s == principal_id@ {
                            assert(members@[before.len() as int]@ == s);
                        } else {
                            let a = choose|a: int| 0 <= a < before.len() && (#[trigger] before[a])@ == s;
                            assert(members@[a] == before[a]);
                        }
                    }
                }
            }
        } else {
            proof {
                assert(view_set(members@) =~= view_set(before).insert(principal_id@));
            }
        }
        let ghost mv = members;
        proof {
            lemma_keyed_map(ms@);
            assert(!keyed_map(ms@).contains_key(key@));
            lemma_keyed_push(ms@, key, members);
        }
        ms.push((key, members));
        proof {
            assert forall|j: int| 0 <= j < ms@.len() implies distinct_strings(#[trigger] ms@[j].1@) by {
                if j < ms@.len() - 1 {
                    assert(ms@[j] == ms@.drop_last()[j]);
                }
            }
            let m1 = keyed_map(ms@);
            assert(m1 == m0.remove(group_id@).insert(group_id@, mv));
            let f = |v: Vec<String>| view_set(v@);
            let old_set = if v0.contains_key(group_id@) { v0[group_id@] } else { Set::<Seq<char>>::empty() };
            if m0.contains_key(group_id@) {
                assert(view_set(before) == v0[group_id@]);
            } else {
                assert(view_set(before) =~= Set::<Seq<char>>::empty());
            }
            assert(view_set(mv@) == old_set.insert(principal_id@));
            if !v0.contains_key(group_id@) {
                assert(Set::<Seq<char>>::empty().insert(principal_id@) =~= set![principal_id@]);
            }
            assert(m1.map_values(f) =~= v0.insert(group_id@, view_set(mv@)));
        }
        self.memberships = ms;
        Ok(())
    }

    fn get_users_in_group(&self, group_id: &str) -> (r: Result<Vec<String>, String>)
        ensures
            r matches Ok(v) && distinct_strings(v@) && view_set(v@) == if self.members().contains_key(group_id@) {
                members_with_prefix(self.members()[group_id@], "u:"@)
            } else {
                Set::<Seq<char>>::empty()
            },
    {
        proof {
            use_type_invariant(self);
            lemma_keyed_map(self.memberships@);
        }
        match find_key(&self.memberships, group_id) {
            Some(i) => {
                proof { assert(distinct_strings(self.memberships@[i as int].1@)); }
                Ok(with_prefix(&self.memberships[i].1, "u:"))
            },
            None => {
                let v: Vec<String> = Vec::new();
                assert(view_set(v@) =~= Set::<Seq<char>>::empty());
                Ok(v)
            },
        }
    }

    fn get_groups_in_group(&self, group_id: &str) -> (r: Result<Vec<String>, String>)
        ensures
            r matches Ok(v) && distinct_strings(v@) && view_set(v@) == if self.members().contains_key(group_id@) {
                members_with_prefix(self.members()[group_id@], "g:"@)
            } else {
                Set::<Seq<char>>::empty()
            },
    {
        proof {
            use_type_invariant(self);
            lemma_keyed_map(self.memberships@);
        }
        match find_key(&self.memberships, group_id) {
            Some(i) => {
                proof { assert(distinct_strings(self.memberships@[i as int].1@)); }
                Ok(with_prefix(&self.memberships[i].1, "g:"))
            },
            None => {
                let v: Vec<String> = Vec::new();
                assert(view_set(v@) =~= Set::<Seq<char>>::empty());
                Ok(v)
            },
        }
    }

    fn modify_user(&mut self, user: Account, tx: Option<&mut DummyTx>) -> (r: Result<(), String>)
        ensures
            r is Ok,
            final(self).users() == old(self).users().insert(user.id@, user),
            final(self).groups() == old(self).groups(),
            final(self).members() == old(self).members(),
    {
        proof {
            use_type_invariant(&*self);
        }
        let mut es: Vec<(String, Account)> = Vec::new();
        std::mem::swap(&mut es, &mut self.users);
        put_account(&mut es, user);
        self.users = es;
        Ok(())
    }
}

/// A stored account is what a later lookup of its id returns, until its id
/// is written again.
pub proof fn law_lookup_after_store(m: Map<Seq<char>, Account>, a: Account)
    ensures
        m.insert(a.id@, a).contains_key(a.id@),
        m.insert(a.id@, a)[a.id@] == a,
{
}

/// Adding a principal to a group twice is the same as adding it once.
pub proof fn law_membership_idempotent(members: Set<Seq<char>>, p: Seq<char>)
    ensures
        members.insert(p).insert(p) == members.insert(p),
{
    assert(members.insert(p).insert(p) =~= members.insert(p));
}

/// A principal added to a group is among the group's members of its kind.
pub proof fn law_added_member_listed(members: Set<Seq<char>>, p: Seq<char>, prefix: Seq<char>)
    requires
        seq_starts_with(p, prefix),
    ensures
        members_with_prefix(members.insert(p), prefix).contains(p),
{
}

} // verus!
