//! Empty groups are deleted: when a group loses its last member, it is
//! deleted too, which may empty its own parent groups in turn. The work
//! list of that cascade, in the order a depth-first recursion visits it.

use vstd::prelude::*;
use vstd::string::*;
use crate::text::owned;
use crate::kinds::Kind;

verus! {

/// Position of the first `::` at or after `from`, if any.
pub open spec fn colons_from(s: Seq<char>, from: int) -> Option<int>
    decreases s.len() - from,
{
    if from < 0 || from + 1 >= s.len() {
        None
    } else if s[from] == ':' && s[from + 1] == ':' {
        Some(from)
    } else {
        colons_from(s, from + 1)
    }
}

/// The group of a membership key `{principal}::{group}`: the text after the
/// first `::` (`splitn(2, "::")`, second part).
pub open spec fn membership_key_group(key: Seq<char>) -> Option<Seq<char>> {
    match colons_from(key, 0) {
        Some(i) => Some(key.subrange(i + 2, key.len() as int)),
        None => None,
    }
}

/// The group named by a membership key, if it has the `{principal}::{group}` form.
pub fn group_of_membership_key(key: &str) -> (r: Option<String>)
    ensures
        match membership_key_group(key@) {
            Some(g) => (r matches Some(s) && s@ == g),
            None => r is None,
        },
{
    let n = key.unicode_len();
    let mut i: usize = 0;
    while i < n && i + 1 < n
        invariant
            n == key@.len(),
            i <= n,
            colons_from(key@, 0) == colons_from(key@, i as int),
        decreases n - i,
    {
        if key.get_char(i) == ':' && key.get_char(i + 1) == ':' {
            return Some(owned(key.substring_char(i + 2, n)));
        }
        i = i + 1;
    }
    None
}

/// A group without members is deleted.
pub fn group_now_empty(member_count: u64) -> (r: bool)
    ensures
        r == (member_count == 0),
{
    member_count == 0
}

/// The groups still to be deleted, the next one last.
pub struct CascadeStack {
    pending: Vec<String>,
}

impl CascadeStack {
    /// The pending groups, the next one last.
    pub closed spec fn view(&self) -> Seq<Seq<char>> {
        self.pending@.map_values(|s: String| s@)
    }

    /// A cascade starting from the deleted groups `groups`, handled in order.
    pub fn from_groups(groups: Vec<String>) -> (r: CascadeStack)
        ensures
            r.view() == groups@.map_values(|s: String| s@).reverse(),
    {
        let mut s = CascadeStack { pending: Vec::new() };
        s.push_empty_parents(groups);
        assert(s.view() =~= groups@.map_values(|x: String| x@).reverse());
        s
    }

    /// The next group to delete, if any.
    pub fn next_group(&mut self) -> (r: Option<String>)
        ensures
            old(self).view().len() == 0 ==> r is None && final(self).view() == old(self).view(),
            old(self).view().len() > 0 ==> (r matches Some(g) && g@ == old(self).view().last()
                && final(self).view() == old(self).view().drop_last()),
    {
        let r = self.pending.pop();
        proof {
            assert(self.view() =~= old(self).view().drop_last() || old(self).view().len() == 0);
        }
        r
    }

    /// Queues the parents that the last deletion emptied, to be handled, in
    /// order, before anything queued earlier (depth first).
    pub fn push_empty_parents(&mut self, parents: Vec<String>)
        ensures
            final(self).view() == old(self).view() + parents@.map_values(|s: String| s@).reverse(),
    {
        let ghost ps = parents@.map_values(|s: String| s@);
        let mut rest = parents;
        while rest.len() > 0
            invariant
                ps.len() >= rest@.len(),
                rest@.map_values(|s: String| s@) == ps.subrange(0, rest@.len() as int),
                self.view() == old(self).view() + ps.subrange(rest@.len() as int, ps.len() as int).reverse(),
            decreases rest@.len(),
        {
            let ghost n = rest@.len() as int;
            let ghost whole = rest@;
            let p = rest.pop().unwrap();
            let ghost before = self.view();
            self.pending.push(p);
            proof {
                assert(rest@.map_values(|s: String| s@) =~= ps.subrange(0, n - 1));
                assert(whole.map_values(|s: String| s@)[n - 1] == p@);
                assert(ps.subrange(0, n)[n - 1] == ps[n - 1]);
                assert(self.view() =~= before.push(p@));
                assert(ps.subrange(n - 1, ps.len() as int).reverse()
                    =~= ps.subrange(n, ps.len() as int).reverse().push(ps[n - 1]));
            }
        }
        proof {
            assert(ps.subrange(0, ps.len() as int) =~= ps);
        }
    }
}

/// What follows the creation of a document.
#[derive(Debug, Clone, Copy, PartialEq, Eq, Structural)]
pub enum AfterCreate {
    Nothing,
    /// A new group gets its creator as first member.
    AddCreatorAsMember,
}

/// What follows the deletion of a document.
#[derive(Debug, PartialEq, Eq)]
pub enum AfterDelete {
    Nothing,
    /// A deleted user leaves all its groups; groups left empty are deleted.
    LeaveAllGroups,
    /// A deleted group loses its members and leaves its parents; parents
    /// left empty are deleted, and so on up.
    CascadeGroup,
    /// A deleted membership may leave its group empty: the group then goes.
    DeleteGroupIfEmpty(String),
}

/// What follows an update.
#[derive(Debug, Clone, Copy, PartialEq, Eq, Structural)]
pub enum AfterUpdate {
    Nothing,
    /// A group updated to have no members is deleted.
    DeleteGroupIfEmpty,
}

/// The step after creating a document of `kind`.
pub fn after_create_action(kind: Kind) -> (r: AfterCreate)
    ensures
        r == (if kind == Kind::Groups { AfterCreate::AddCreatorAsMember } else { AfterCreate::Nothing }),
{
    match kind {
        Kind::Groups => AfterCreate::AddCreatorAsMember,
        _ => AfterCreate::Nothing,
    }
}

/// The step after deleting the document `key` of `kind`.
pub fn after_delete_action(kind: Kind, key: &str) -> (r: AfterDelete)
    ensures
        kind == Kind::Users ==> r == AfterDelete::LeaveAllGroups,
        kind == Kind::Groups ==> r == AfterDelete::CascadeGroup,
        kind == Kind::Memberships ==> match membership_key_group(key@) {
            Some(g) => (r matches AfterDelete::DeleteGroupIfEmpty(x) && x@ == g),
            None => r == AfterDelete::Nothing,
        },
        kind != Kind::Users && kind != Kind::Groups && kind != Kind::Memberships ==> r == AfterDelete::Nothing,
{
    match kind {
        Kind::Users => AfterDelete::LeaveAllGroups,
        Kind::Groups => AfterDelete::CascadeGroup,
        Kind::Memberships => match group_of_membership_key(key) {
            Some(g) => AfterDelete::DeleteGroupIfEmpty(g),
            None => AfterDelete::Nothing,
        },
        _ => AfterDelete::Nothing,
    }
}

/// The step after updating a document of `kind`.
pub fn after_update_action(kind: Kind) -> (r: AfterUpdate)
    ensures
        r == (if kind == Kind::Groups { AfterUpdate::DeleteGroupIfEmpty } else { AfterUpdate::Nothing }),
{
    match kind {
        Kind::Groups => AfterUpdate::DeleteGroupIfEmpty,
        _ => AfterUpdate::Nothing,
    }
}

/// Depth first: after the parents `parents` of a deleted group are queued
/// on `pending`, the next `parents.len()` groups taken are those parents in
/// the order given, and only then what was pending before.
pub proof fn law_cascade_depth_first(pending: Seq<Seq<char>>, parents: Seq<Seq<char>>, i: int)
    requires
        0 <= i < pending.len() + parents.len(),
    ensures
        ({
            let q = pending + parents.reverse();
            let taken = q[q.len() - 1 - i];
            if i < parents.len() { taken == parents[i] } else { taken == pending[pending.len() - 1 - (i - parents.len())] }
        }),
{
    let q = pending + parents.reverse();
    if i < parents.len() {
        assert(q[q.len() - 1 - i] == parents.reverse()[parents.len() - 1 - i]);
    } else {
        assert(q[q.len() - 1 - i] == pending[pending.len() - 1 - (i - parents.len())]);
    }
}

} // verus!
