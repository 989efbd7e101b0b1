use vstd::prelude::*;
use crate::assoc::{assoc, distinct_keys, first_at, lemma_assoc_absent, lemma_assoc_first, lemma_assoc_push, lemma_assoc_update, lemma_distinct_push, lemma_distinct_update};
use crate::message::str_eq;

verus! {

/// A known peer: its id, its long-term public key, and when it was added.
pub struct KeyringEntry {
    pub agent_id: String,
    pub public_key: [u8; 32],
    pub added_at: u64,
}

/// The peers this agent knows, at most one entry per agent id.
pub struct Keyring {
    pub entries: Vec<KeyringEntry>,
}

impl Keyring {
    /// Every agent id appears once.
    pub open spec fn wf(&self) -> bool {
        distinct_keys(self.pairs())
    }

    /// The keyring as pairs of agent id and (key, time added).
    pub open spec fn pairs(&self) -> Seq<(Seq<char>, (Seq<u8>, u64))> {
        self.entries@.map_values(|e: KeyringEntry| (e.agent_id@, (e.public_key@, e.added_at)))
    }

    /// What the keyring holds for `agent`.
    pub open spec fn entry_of(&self, agent: Seq<char>) -> Option<(Seq<u8>, u64)> {
        assoc(self.pairs(), agent)
    }

    pub fn new() -> (r: Keyring)
        ensures
            r.wf(),
            r.entries@.len() == 0,
            forall|a: Seq<char>| #[trigger] r.entry_of(a) is None,
    {
        let r = Keyring { entries: Vec::new() };
        assert(r.pairs() =~= Seq::<(Seq<char>, (Seq<u8>, u64))>::empty());
        r
    }

    fn position(&self, agent: &str) -> (r: Option<usize>)
        ensures
            r matches Some(i) ==> first_at(self.pairs(), agent@, i as int),
            r is None ==> forall|j: int| 0 <= j < self.pairs().len() ==> #[trigger] self.pairs()[j].0 != agent@,
    {
        let mut i: usize = 0;
        while i < self.entries.len()
            invariant
                i <= self.entries@.len(),
                forall|j: int| 0 <= j < i ==> #[trigger] self.pairs()[j].0 != agent@,
            decreases self.entries@.len() - i,
        {
            if str_eq(self.entries[i].agent_id.as_str(), agent) {
                return Some(i);
            }
            i = i + 1;
        }
        None
    }

    /// Records `public_key` for `agent_id`, added at `added_at`; an earlier
    /// entry for the same agent is replaced.
    pub fn add(&mut self, agent_id: String, public_key: [u8; 32], added_at: u64)
        requires
            old(self).wf(),
        ensures
            final(self).wf(),
            final(self).entries@.len() == old(self).entries@.len() + if old(self).entry_of(agent_id@) is None {
                1int
            } else {
                0int
            },
            forall|a: Seq<char>| #[trigger] final(self).entry_of(a) == if a == agent_id@ {
                Some((public_key@, added_at))
            } else {
                old(self).entry_of(a)
            },
    {
        let ghost p = self.pairs();
        let ghost v = (public_key@, added_at);
        match self.position(agent_id.as_str()) {
            Some(i) => {
                proof {
                    lemma_assoc_first(p, agent_id@, i as int);
                }
                self.entries.set(i, KeyringEntry { agent_id, public_key, added_at });
                proof {
                    lemma_distinct_update(p, i as int, v);
                    assert(self.pairs() =~= p.update(i as int, (self.entries@[i as int].agent_id@, v)));
                    assert forall|a: Seq<char>| #[trigger] self.entry_of(a) == if a == self.entries@[i as int].agent_id@ {
                        Some(v)
                    } else {
                        old(self).entry_of(a)
                    } by {
                        lemma_assoc_update(p, self.entries@[i as int].agent_id@, i as int, v, a);
                    }
                }
            },
            None => {
                proof {
                    lemma_assoc_absent(p, agent_id@);
                    lemma_distinct_push(p, agent_id@, v);
                }
                let ghost id = agent_id@;
                self.entries.push(KeyringEntry { agent_id, public_key, added_at });
                proof {
                    assert(self.pairs() =~= p.push((id, v)));
                    assert forall|a: Seq<char>| #[trigger] self.entry_of(a) == if a == id {
                        Some(v)
                    } else {
                        old(self).entry_of(a)
                    } by {
                        lemma_assoc_push(p, id, v, a);
                    }
                }
            },
        }
    }

    /// The public key recorded for `agent_id`.
    pub fn get(&self, agent_id: &str) -> (r: Option<&[u8; 32]>)
        ensures
            r matches Some(k) ==> self.entry_of(agent_id@) matches Some(e) && e.0 == k@,
            r is None ==> self.entry_of(agent_id@) is None,
    {
        match self.position(agent_id) {
            Some(i) => {
                proof {
                    lemma_assoc_first(self.pairs(), agent_id@, i as int);
                }
                Some(&self.entries[i].public_key)
            },
            None => {
                proof {
                    lemma_assoc_absent(self.pairs(), agent_id@);
                }
                None
            },
        }
    }

    /// Every entry, in the keyring's order.
    pub fn list(&self) -> (r: Vec<&KeyringEntry>)
        ensures
            r@.len() == self.entries@.len(),
            forall|i: int| 0 <= i < r@.len() ==> *#[trigger] r@[i] == self.entries@[i],
    {
        let mut r: Vec<&KeyringEntry> = Vec::new();
        let mut i: usize = 0;
        while i < self.entries.len()
            invariant
                i <= self.entries@.len(),
                r@.len() == i,
                forall|j: int| 0 <= j < i ==> *#[trigger] r@[j] == self.entries@[j],
            decreases self.entries@.len() - i,
        {
            r.push(&self.entries[i]);
            i = i + 1;
        }
        r
    }
}

} // verus!
