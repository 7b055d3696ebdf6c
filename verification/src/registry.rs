//! The session registry: which user holds which container.
//!
//! The registry is a finite map from a user id to the handle of that user's
//! live session. It is the single owner of every handle it holds, and at most
//! one handle is kept per user.

use crate::keyed;
use crate::keyed::{as_map, distinct_keys, key_at, Keyed};
use crate::text::str_eq;
use vstd::prelude::*;

verus! {

/// What is known of one live session.
#[derive(Clone, Debug, PartialEq, Eq)]
pub struct SessionHandle {
    /// Identifier that the controller assigned to the container.
    pub container_id: String,
    /// Address of the editor that runs in the container.
    pub editor_url: String,
    /// The user on whose behalf the session was started.
    pub owner: String,
    /// Host time at which the session was registered.
    pub created_at: u64,
}

/// A session handle as plain mathematical values.
pub struct SessionModel {
    pub container_id: Seq<char>,
    pub editor_url: Seq<char>,
    pub owner: Seq<char>,
    pub created_at: u64,
}

impl View for SessionHandle {
    type V = SessionModel;

    open spec fn view(&self) -> SessionModel {
        SessionModel {
            container_id: self.container_id@,
            editor_url: self.editor_url@,
            owner: self.owner@,
            created_at: self.created_at,
        }
    }
}

/// The model of a registry: handles by user id.
pub type RegistryModel = Map<Seq<char>, SessionModel>;

/// `m` without the sessions that run in `container_id`.
pub open spec fn without_container(m: RegistryModel, container_id: Seq<char>) -> RegistryModel {
    Map::new(
        |owner: Seq<char>| m.contains_key(owner) && m[owner].container_id != container_id,
        |owner: Seq<char>| m[owner],
    )
}

/// Whether some session in `m` runs in `container_id`.
pub open spec fn holds_container(m: RegistryModel, container_id: Seq<char>) -> bool {
    exists|owner: Seq<char>| #[trigger] m.contains_key(owner) && m[owner].container_id == container_id
}

/// Every handle is filed under its own owner.
pub open spec fn keyed_by_owner(m: RegistryModel) -> bool {
    forall|owner: Seq<char>| #[trigger] m.contains_key(owner) ==> m[owner].owner == owner
}

spec fn keyed_entries(s: Seq<SessionHandle>) -> Seq<Keyed<SessionModel>> {
    Seq::new(s.len(), |i: int| (s[i].owner@, s[i]@))
}

spec fn distinct_owners(s: Seq<SessionHandle>) -> bool {
    distinct_keys(keyed_entries(s))
}

spec fn entries_map(s: Seq<SessionHandle>) -> RegistryModel {
    as_map(keyed_entries(s))
}

proof fn lemma_lookup(s: Seq<SessionHandle>, i: int)
    requires
        distinct_owners(s),
        0 <= i < s.len(),
    ensures
        entries_map(s).contains_key(s[i].owner@),
        entries_map(s)[s[i].owner@] == s[i]@,
{
    keyed::lemma_lookup(keyed_entries(s), i);
}

proof fn lemma_push(s: Seq<SessionHandle>, h: SessionHandle)
    requires
        distinct_owners(s),
        !entries_map(s).contains_key(h.owner@),
    ensures
        distinct_owners(s.push(h)),
        entries_map(s.push(h)) == entries_map(s).insert(h.owner@, h@),
{
    keyed::lemma_push(keyed_entries(s), (h.owner@, h@));
    assert(keyed_entries(s.push(h)) =~= keyed_entries(s).push((h.owner@, h@)));
}

proof fn lemma_remove(s: Seq<SessionHandle>, i: int)
    requires
        distinct_owners(s),
        0 <= i < s.len(),
    ensures
        distinct_owners(s.remove(i)),
        entries_map(s.remove(i)) == entries_map(s).remove(s[i].owner@),
{
    keyed::lemma_remove(keyed_entries(s), i);
    assert(keyed_entries(s.remove(i)) =~= keyed_entries(s).remove(i));
}

proof fn lemma_len(s: Seq<SessionHandle>)
    requires
        distinct_owners(s),
    ensures
        entries_map(s).dom().finite(),
        entries_map(s).len() == s.len(),
{
    keyed::lemma_len(keyed_entries(s));
}

proof fn lemma_keyed(s: Seq<SessionHandle>)
    requires
        distinct_owners(s),
    ensures
        keyed_by_owner(entries_map(s)),
{
    let m = entries_map(s);
    assert forall|owner: Seq<char>| #[trigger] m.contains_key(owner) implies m[owner].owner
        == owner by {
        let i = keyed::lemma_index_of(keyed_entries(s), owner);
    }
}

fn find_owner(entries: &Vec<SessionHandle>, user_id: &str) -> (found: Option<usize>)
    ensures
        match found {
            Some(i) => key_at(keyed_entries(entries@), user_id@, i as int),
            None => !entries_map(entries@).contains_key(user_id@),
        },
{
    let mut i: usize = 0;
    while i < entries.len()
        invariant
            i <= entries.len(),
            forall|k: int| 0 <= k < i ==> !key_at(keyed_entries(entries@), user_id@, k),
        decreases entries.len() - i,
    {
        if str_eq(entries[i].owner.as_str(), user_id) {
            return Some(i);
        }
        i += 1;
    }
    None
}

/// The live sessions, at most one per user.
pub struct Registry {
    entries: Vec<SessionHandle>,
}

impl View for Registry {
    type V = RegistryModel;

    closed spec fn view(&self) -> RegistryModel {
        entries_map(self.entries@)
    }
}

impl Registry {
    /// No two entries belong to the same user.
    #[verifier::type_invariant]
    pub closed spec fn wf(&self) -> bool {
        distinct_owners(self.entries@)
    }

    /// A well-formed registry is a finite map in which every handle is filed
    /// under its own owner.
    pub proof fn lemma_model(self)
        requires
            self.wf(),
        ensures
            self@.dom().finite(),
            keyed_by_owner(self@),
    {
        lemma_len(self.entries@);
        lemma_keyed(self.entries@);
    }

    /// An empty registry.
    pub fn new() -> (registry: Registry)
        ensures
            registry.wf(),
            registry@ == Map::<Seq<char>, SessionModel>::empty(),
    {
        let registry = Registry { entries: Vec::new() };
        assert(registry@ =~= Map::<Seq<char>, SessionModel>::empty());
        registry
    }

    /// Number of live sessions.
    pub fn len(&self) -> (n: usize)
        ensures
            n == self@.len(),
    {
        proof {
            use_type_invariant(self);
            lemma_len(self.entries@);
        }
        self.entries.len()
    }

    /// Whether no session is live.
    pub fn is_empty(&self) -> (empty: bool)
        ensures
            empty == (self@.len() == 0),
            empty == (self@ == Map::<Seq<char>, SessionModel>::empty()),
    {
        proof {
            use_type_invariant(self);
            lemma_len(self.entries@);
            if self.entries@.len() == 0 {
                assert(self@ =~= Map::<Seq<char>, SessionModel>::empty());
            } else {
                lemma_lookup(self.entries@, 0);
            }
        }
        self.entries.len() == 0
    }

    /// Whether `user_id` has a live session.
    pub fn contains(&self, user_id: &str) -> (present: bool)
        ensures
            present == self@.contains_key(user_id@),
    {
        match find_owner(&self.entries, user_id) {
            Some(_) => true,
            None => false,
        }
    }

    /// The live session of `user_id`, if there is one.
    pub fn get(&self, user_id: &str) -> (found: Option<&SessionHandle>)
        ensures
            match found {
                Some(handle) => self@.contains_key(user_id@) && self@[user_id@] == handle@,
                None => !self@.contains_key(user_id@),
            },
    {
        match find_owner(&self.entries, user_id) {
            Some(i) => {
                proof {
                    use_type_invariant(self);
                    lemma_lookup(self.entries@, i as int);
                }
                Some(&self.entries[i])
            },
            None => None,
        }
    }

    /// Whether some live session runs in `container_id`.
    pub fn has_container(&self, container_id: &str) -> (present: bool)
        ensures
            present == holds_container(self@, container_id@),
    {
        proof {
            use_type_invariant(self);
        }
        let mut i: usize = 0;
        while i < self.entries.len()
            invariant
                i <= self.entries.len(),
                distinct_owners(self.entries@),
                forall|k: int| 0 <= k < i ==> self.entries@[k].container_id@ != container_id@,
            decreases self.entries.len() - i,
        {
            if str_eq(self.entries[i].container_id.as_str(), container_id) {
                proof {
                    lemma_lookup(self.entries@, i as int);
                }
                return true;
            }
            i += 1;
        }
        proof {
            let m = self@;
            assert forall|owner: Seq<char>| #[trigger] m.contains_key(owner) implies m[owner].container_id
                != container_id@ by {
                let k = choose|k: int| key_at(keyed_entries(self.entries@), owner, k);
                lemma_lookup(self.entries@, k);
            }
        }
        false
    }

    /// Files `handle` under its owner and hands back the handle that it
    /// replaces, if the owner had one.
    pub fn insert(&mut self, handle: SessionHandle) -> (previous: Option<SessionHandle>)
        ensures
            final(self).wf(),
            final(self)@ == old(self)@.insert(handle.owner@, handle@),
            match previous {
                Some(p) => old(self)@.contains_key(handle.owner@) && p@ == old(self)@[handle.owner@],
                None => !old(self)@.contains_key(handle.owner@),
            },
    {
        proof {
            use_type_invariant(&*self);
        }
        let mut entries: Vec<SessionHandle> = Vec::new();
        core::mem::swap(&mut self.entries, &mut entries);
        let previous = match find_owner(&entries, handle.owner.as_str()) {
            Some(i) => {
                proof {
                    lemma_lookup(entries@, i as int);
                    lemma_remove(entries@, i as int);
                }
                Some(entries.remove(i))
            },
            None => None,
        };
        proof {
            lemma_push(entries@, handle);
            assert(old(self)@.remove(handle.owner@).insert(handle.owner@, handle@) =~= old(self)@.insert(
                handle.owner@,
                handle@,
            ));
        }
        entries.push(handle);
        self.entries = entries;
        previous
    }

    /// Takes out the session of `user_id` and hands it back, if there is one.
    pub fn remove(&mut self, user_id: &str) -> (removed: Option<SessionHandle>)
        ensures
            final(self).wf(),
            final(self)@ == old(self)@.remove(user_id@),
            match removed {
                Some(handle) => old(self)@.contains_key(user_id@) && handle@ == old(self)@[user_id@],
                None => !old(self)@.contains_key(user_id@),
            },
    {
        proof {
            use_type_invariant(&*self);
        }
        let mut entries: Vec<SessionHandle> = Vec::new();
        core::mem::swap(&mut self.entries, &mut entries);
        let removed = match find_owner(&entries, user_id) {
            Some(i) => {
                proof {
                    lemma_lookup(entries@, i as int);
                    lemma_remove(entries@, i as int);
                }
                Some(entries.remove(i))
            },
            None => {
                assert(old(self)@.remove(user_id@) =~= old(self)@);
                None
            },
        };
        self.entries = entries;
        removed
    }

    /// Takes out every session that runs in `container_id` and says how many
    /// there were. Sessions in other containers stay as they are.
    pub fn remove_container(&mut self, container_id: &str) -> (removed: usize)
        ensures
            final(self).wf(),
            final(self)@ == without_container(old(self)@, container_id@),
            removed == old(self)@.len() - final(self)@.len(),
            (removed == 0) == !holds_container(old(self)@, container_id@),
    {
        proof {
            use_type_invariant(&*self);
            lemma_len(self.entries@);
        }
        let ghost before = self@;
        let mut entries: Vec<SessionHandle> = Vec::new();
        core::mem::swap(&mut self.entries, &mut entries);
        let total: usize = entries.len();
        let mut removed: usize = 0;
        let mut i: usize = 0;
        while i < entries.len()
            invariant
                i <= entries.len(),
                distinct_owners(entries@),
                before == old(self)@,
                before.dom().finite(),
                removed + entries.len() == total,
                total == before.len(),
                (removed == 0) ==> entries_map(entries@) == before,
                (removed > 0) ==> holds_container(before, container_id@),
                forall|k: int| 0 <= k < i ==> entries@[k].container_id@ != container_id@,
                forall|owner: Seq<char>| #[trigger]
                    entries_map(entries@).contains_key(owner) ==> before.contains_key(owner)
                        && before[owner] == entries_map(entries@)[owner],
                forall|owner: Seq<char>|
                    before.contains_key(owner) && before[owner].container_id != container_id@
                        ==> #[trigger] entries_map(entries@).contains_key(owner),
            decreases entries.len() - i,
        {
            if str_eq(entries[i].container_id.as_str(), container_id) {
                proof {
                    lemma_lookup(entries@, i as int);
                    lemma_remove(entries@, i as int);
                    let s = entries@;
                    let t = s.remove(i as int);
                    assert forall|k: int| 0 <= k < i implies t[k].container_id@ != container_id@ by {
                        assert(t[k] == s[k]);
                    }
                    assert(before.contains_key(s[i as int].owner@));
                }
                entries.remove(i);
                removed += 1;
            } else {
                i += 1;
            }
        }
        proof {
            let now = entries_map(entries@);
            assert forall|owner: Seq<char>| #[trigger] now.contains_key(owner) implies now[owner].container_id
                != container_id@ by {
                let k = choose|k: int| key_at(keyed_entries(entries@), owner, k);
                lemma_lookup(entries@, k);
            }
            assert(now =~= without_container(before, container_id@));
            lemma_len(entries@);
            if removed == 0 {
                assert(!holds_container(before, container_id@));
            }
        }
        self.entries = entries;
        removed
    }
}

} // verus!
