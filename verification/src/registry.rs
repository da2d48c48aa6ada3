//! The session registry: the single owner of every group session,
//! mapping group identifiers to sessions and their cached history.
//! Only the coordinator inserts or removes entries; sessions mutate
//! their own state but never change their registry key.

use vstd::prelude::*;

use crate::codec::str_eq;
use crate::errors::EngineError;
use crate::session::{GroupSession, Message};

verus! {

/// One registry entry: a group's identifier, its display name and the
/// session that owns its cryptographic state and transcript.
pub struct Group {
    pub id: String,
    pub name: String,
    pub session: GroupSession,
}

impl Group {
    /// The member roster of the group's session.
    pub fn members(&self) -> (r: &Vec<String>)
        ensures
            r@ == self.session.roster@,
    {
        &self.session.roster
    }

    /// The cached message history of the group's session.
    pub fn messages(&self) -> (r: &Vec<Message>)
        ensures
            r@ == self.session.transcript@,
    {
        &self.session.transcript
    }

    /// Whether the group's session is still active.
    pub fn is_active(&self) -> (r: bool)
        ensures
            r == self.session.active,
    {
        self.session.active
    }
}

/// The identifiers registered in a list of groups.
pub open spec fn group_ids(gs: Seq<Group>) -> Seq<Seq<char>> {
    gs.map_values(|g: Group| g.id@)
}

/// The index of the first group registered under `id` (the length of
/// the list when there is none).
pub open spec fn first_group_index(gs: Seq<Group>, id: Seq<char>) -> int
    decreases gs.len(),
{
    if gs.len() == 0 {
        0
    } else if gs[0].id@ == id {
        0
    } else {
        1 + first_group_index(gs.drop_first(), id)
    }
}

/// A registered identifier's first index lies inside the list, holds
/// that identifier, and nothing before it does.
pub proof fn lemma_first_group_index(gs: Seq<Group>, id: Seq<char>)
    requires
        group_ids(gs).contains(id),
    ensures
        0 <= first_group_index(gs, id) < gs.len(),
        gs[first_group_index(gs, id)].id@ == id,
        forall|j: int| 0 <= j < first_group_index(gs, id) ==> gs[j].id@ != id,
    decreases gs.len(),
{
    assert(gs.len() > 0) by {
        if gs.len() == 0 {
            assert(group_ids(gs).len() == 0);
        }
    }
    if gs[0].id@ == id {
    } else {
        assert(group_ids(gs.drop_first()).contains(id)) by {
            let i = choose|i: int| 0 <= i < group_ids(gs).len() && group_ids(gs)[i] == id;
            assert(gs[i].id@ == id);
            assert(i != 0);
            assert(group_ids(gs.drop_first())[i - 1] == gs.drop_first()[i - 1].id@);
        }
        lemma_first_group_index(gs.drop_first(), id);
        let k = first_group_index(gs.drop_first(), id);
        assert(gs[k + 1] == gs.drop_first()[k]);
        assert forall|j: int| 0 <= j < first_group_index(gs, id) implies gs[j].id@ != id by {
            if j >= 1 {
                assert(gs[j] == gs.drop_first()[j - 1]);
                assert(gs.drop_first()[j - 1].id@ != id);
            }
        }
    }
}

/// The in-memory mapping from group identifier to session.
pub struct Registry {
    pub groups: Vec<Group>,
}

impl Registry {
    /// An empty registry.
    pub fn new() -> (r: Registry)
        ensures
            r.groups@.len() == 0,
    {
        Registry { groups: Vec::new() }
    }

    /// The index of the entry registered under `group_id`, if any:
    /// always the first match.
    pub fn find_index(&self, group_id: &str) -> (r: Option<usize>)
        ensures
            r matches Some(i) ==> i < self.groups@.len() && self.groups@[i as int].id@
                == group_id@ && i == first_group_index(self.groups@, group_id@),
            r is None ==> !group_ids(self.groups@).contains(group_id@),
    {
        let mut i: usize = 0;
        while i < self.groups.len()
            invariant
                i <= self.groups@.len(),
                forall|j: int| 0 <= j < i ==> group_ids(self.groups@)[j] != group_id@,
            decreases self.groups@.len() - i,
        {
            if str_eq(self.groups[i].id.as_str(), group_id) {
                proof {
                    assert(group_ids(self.groups@)[i as int] == group_id@);
                    lemma_first_group_index(self.groups@, group_id@);
                    let f = first_group_index(self.groups@, group_id@);
                    assert(group_ids(self.groups@)[f] == group_id@);
                    assert(f == i);
                }
                return Some(i);
            }
            assert(group_ids(self.groups@)[i as int] == self.groups@[i as int].id@);
            i = i + 1;
        }
        None
    }

    /// The entry registered under `group_id`, if any.
    pub fn get(&self, group_id: &str) -> (r: Option<&Group>)
        ensures
            r matches Some(g) ==> g.id@ == group_id@ && exists|i: int|
                0 <= i < self.groups@.len() && self.groups@[i] == *g,
            r is Some ==> group_ids(self.groups@).contains(group_id@),
            r is None ==> !group_ids(self.groups@).contains(group_id@),
    {
        match self.find_index(group_id) {
            Some(i) => {
                let g = &self.groups[i];
                assert(group_ids(self.groups@)[i as int] == group_id@);
                Some(g)
            },
            None => None,
        }
    }

    /// Register a group.  An identifier can be registered only once:
    /// a second registration fails and changes nothing.
    pub fn put(&mut self, g: Group) -> (r: Result<(), EngineError>)
        ensures
            group_ids(old(self).groups@).contains(g.id@) ==> r == Err::<(), EngineError>(
                EngineError::DuplicateGroup,
            ) && *final(self) == *old(self),
            !group_ids(old(self).groups@).contains(g.id@) ==> r == Ok::<(), EngineError>(())
                && final(self).groups@ == old(self).groups@.push(g),
    {
        match self.find_index(g.id.as_str()) {
            Some(i) => {
                assert(group_ids(self.groups@)[i as int] == g.id@);
                Err(EngineError::DuplicateGroup)
            },
            None => {
                self.groups.push(g);
                Ok(())
            },
        }
    }

    /// Remove the entry registered under `group_id`; says whether an
    /// entry was there.
    pub fn remove(&mut self, group_id: &str) -> (r: bool)
        ensures
            !r ==> !group_ids(old(self).groups@).contains(group_id@) && *final(self) == *old(self),
            r ==> exists|i: int|
                0 <= i < old(self).groups@.len() && old(self).groups@[i].id@ == group_id@
                    && final(self).groups@ == old(self).groups@.remove(i),
    {
        match self.find_index(group_id) {
            Some(i) => {
                let ghost idx = i as int;
                self.groups.remove(i);
                assert(self.groups@ == old(self).groups@.remove(idx));
                true
            },
            None => false,
        }
    }
}

} // verus!
