//! The executable claim registry. It owns the proofs table — an entry
//! vector with pairwise-distinct keys, viewed as a mathematical map — and
//! the append-only event log. Each operation is specified against the
//! corresponding transition of `crate::model` and performs either its full
//! effect or, on rejection, no write and no emission at all.

use vstd::prelude::*;

use crate::model::{create_step, revoke_step, send_step, ActorId, Error, EventV, Height, StateV};

verus! {

/// A notification pushed by the registry after a successful mutation.
#[derive(Clone, Debug, PartialEq, Eq)]
pub enum Event {
    ClaimCreated(ActorId, Vec<u8>),
    ClaimRevoked(ActorId, Vec<u8>),
}

impl View for Event {
    type V = EventV;

    open spec fn view(&self) -> EventV {
        match self {
            Event::ClaimCreated(actor, key) => EventV::ClaimCreated(*actor, key@),
            Event::ClaimRevoked(actor, key) => EventV::ClaimRevoked(*actor, key@),
        }
    }
}

/// One live claim: a key, its single owner, and the height at which the
/// claim was created or last refreshed by a transfer.
pub struct Entry {
    pub key: Vec<u8>,
    pub owner: ActorId,
    pub registered_at: Height,
}

/// No two entries hold the same key.
pub open spec fn distinct_keys(s: Seq<Entry>) -> bool {
    forall|i: int, j: int|
        0 <= i < s.len() && 0 <= j < s.len() && i != j ==> s[i].key@ != s[j].key@
}

/// Some entry holds the key `k`.
pub open spec fn has_key(s: Seq<Entry>, k: Seq<u8>) -> bool {
    exists|i: int| 0 <= i < s.len() && s[i].key@ == k
}

/// The position of the entry holding `k` (meaningful when `has_key` holds
/// and the keys are distinct).
pub open spec fn index_of_key(s: Seq<Entry>, k: Seq<u8>) -> int {
    choose|i: int| 0 <= i < s.len() && s[i].key@ == k
}

/// The entry vector read as a map from key to (owner, height).
pub open spec fn map_of(s: Seq<Entry>) -> Map<Seq<u8>, (ActorId, Height)> {
    Map::new(
        |k: Seq<u8>| has_key(s, k),
        |k: Seq<u8>| (s[index_of_key(s, k)].owner, s[index_of_key(s, k)].registered_at),
    )
}

/// The event log read as a sequence of specification-level events.
pub open spec fn log_of(s: Seq<Event>) -> Seq<EventV> {
    s.map_values(|e: Event| e@)
}

/// With distinct keys, an entry holding `k` at position `i` is the one
/// entry the map view reads for `k`.
pub proof fn lemma_key_at(s: Seq<Entry>, k: Seq<u8>, i: int)
    requires
        distinct_keys(s),
        0 <= i < s.len(),
        s[i].key@ == k,
    ensures
        has_key(s, k),
        index_of_key(s, k) == i,
        map_of(s).contains_key(k),
        map_of(s)[k] == (s[i].owner, s[i].registered_at),
{
    assert(has_key(s, k));
    let j = index_of_key(s, k);
    assert(0 <= j < s.len() && s[j].key@ == k);
}

/// Appending an entry with a fresh key inserts it into the map view and
/// keeps the keys distinct.
pub proof fn lemma_map_of_push(s: Seq<Entry>, e: Entry)
    requires
        distinct_keys(s),
        !has_key(s, e.key@),
    ensures
        distinct_keys(s.push(e)),
        map_of(s.push(e)) =~= map_of(s).insert(e.key@, (e.owner, e.registered_at)),
{
    let s2 = s.push(e);
    assert forall|i: int, j: int|
        0 <= i < s2.len() && 0 <= j < s2.len() && i != j implies s2[i].key@ != s2[j].key@ by {
        if i < s.len() && j < s.len() {
            assert(s2[i] == s[i] && s2[j] == s[j]);
        } else if j == s.len() {
            assert(s2[i] == s[i] && !(s[i].key@ == e.key@));
        } else {
            assert(s2[j] == s[j] && !(s[j].key@ == e.key@));
        }
    }
    assert forall|k: Seq<u8>| #[trigger] has_key(s, k) implies has_key(s2, k) by {
        let i = choose|i: int| 0 <= i < s.len() && s[i].key@ == k;
        assert(s2[i].key@ == k);
    }
    assert forall|k: Seq<u8>| #[trigger] has_key(s2, k) && k != e.key@ implies has_key(s, k) by {
        let i = choose|i: int| 0 <= i < s2.len() && s2[i].key@ == k;
        assert(i < s.len() && s[i].key@ == k);
    }
    assert(s2[s.len() as int].key@ == e.key@);
    assert forall|k: Seq<u8>| #[trigger] map_of(s2).contains_key(k) implies map_of(s2)[k]
        == map_of(s).insert(e.key@, (e.owner, e.registered_at))[k] by {
        if k == e.key@ {
            lemma_key_at(s2, k, s.len() as int);
        } else {
            let i = index_of_key(s, k);
            assert(0 <= i < s.len() && s[i].key@ == k);
            assert(s2[i].key@ == k);
            lemma_key_at(s2, k, i);
        }
    }
}

/// Removing the entry at position `i` deletes its key from the map view
/// and keeps the keys distinct; no entry for that key remains.
pub proof fn lemma_map_of_remove(s: Seq<Entry>, i: int)
    requires
        distinct_keys(s),
        0 <= i < s.len(),
    ensures
        distinct_keys(s.remove(i)),
        !has_key(s.remove(i), s[i].key@),
        map_of(s.remove(i)) =~= map_of(s).remove(s[i].key@),
{
    let s2 = s.remove(i);
    let k0 = s[i].key@;
    assert forall|a: int, b: int|
        0 <= a < s2.len() && 0 <= b < s2.len() && a != b implies s2[a].key@ != s2[b].key@ by {
        let a0: int = if a < i { a } else { a + 1 };
        let b0: int = if b < i { b } else { b + 1 };
        assert(s2[a] == s[a0] && s2[b] == s[b0]);
    }
    assert forall|a: int| 0 <= a < s2.len() implies s2[a].key@ != k0 by {
        let a0: int = if a < i { a } else { a + 1 };
        assert(s2[a] == s[a0] && a0 != i);
    }
    assert forall|k: Seq<u8>| #[trigger] has_key(s2, k) implies has_key(s, k) && k != k0 by {
        let a = choose|a: int| 0 <= a < s2.len() && s2[a].key@ == k;
        let a0: int = if a < i { a } else { a + 1 };
        assert(s[a0].key@ == k);
    }
    assert forall|k: Seq<u8>| #[trigger] has_key(s, k) && k != k0 implies has_key(s2, k) by {
        let a0 = choose|a0: int| 0 <= a0 < s.len() && s[a0].key@ == k;
        let a: int = if a0 < i { a0 } else { a0 - 1 };
        assert(s2[a] == s[a0]);
    }
    assert forall|k: Seq<u8>| #[trigger] map_of(s2).contains_key(k) implies map_of(s2)[k]
        == map_of(s).remove(k0)[k] by {
        let a = choose|a: int| 0 <= a < s2.len() && s2[a].key@ == k;
        let a0: int = if a < i { a } else { a + 1 };
        assert(s2[a] == s[a0]);
        lemma_key_at(s2, k, a);
        lemma_key_at(s, k, a0);
    }
}

/// Appending an event extends the log view by its specification-level
/// image.
pub proof fn lemma_log_of_push(s: Seq<Event>, e: Event)
    ensures
        log_of(s.push(e)) =~= log_of(s).push(e@),
{
}

/// The claim registry: the proofs table together with the ordered log of
/// every event it has emitted.
pub struct Registry {
    pub entries: Vec<Entry>,
    pub events: Vec<Event>,
}

impl View for Registry {
    type V = StateV;

    open spec fn view(&self) -> StateV {
        StateV { proofs: map_of(self.entries@), events: log_of(self.events@) }
    }
}

impl Registry {
    /// The proofs table never holds two entries for one key.
    pub open spec fn wf(self) -> bool {
        distinct_keys(self.entries@)
    }

    /// An empty registry: no claims, no events.
    pub fn new() -> (r: Registry)
        ensures
            r.wf(),
            r@.proofs =~= Map::<Seq<u8>, (ActorId, Height)>::empty(),
            r@.events =~= Seq::<EventV>::empty(),
    {
        Registry { entries: Vec::new(), events: Vec::new() }
    }

    /// The position of the live entry for `key`, if there is one.
    fn find(&self, key: &Vec<u8>) -> (r: Option<usize>)
        ensures
            match r {
                Some(i) => i < self.entries@.len() && self.entries@[i as int].key@ == key@,
                None => !has_key(self.entries@, key@),
            },
    {
        let n = self.entries.len();
        let mut i: usize = 0;
        while i < n
            invariant
                n == self.entries@.len(),
                i <= n,
                forall|j: int| 0 <= j < i ==> self.entries@[j].key@ != key@,
            decreases n - i,
        {
            if self.entries[i].key == *key {
                return Some(i);
            }
            i += 1;
        }
        None
    }

    /// The current owner and registration height of `key`, if the key has
    /// a live entry.
    pub fn get_proof(&self, key: &Vec<u8>) -> (r: Option<(ActorId, Height)>)
        requires
            self.wf(),
        ensures
            match r {
                Some(p) => self@.proofs.contains_key(key@) && p == self@.proofs[key@],
                None => !self@.proofs.contains_key(key@),
            },
    {
        match self.find(key) {
            Some(i) => {
                proof {
                    lemma_key_at(self.entries@, key@, i as int);
                }
                let e = &self.entries[i];
                Some((e.owner, e.registered_at))
            },
            None => None,
        }
    }

    /// Register `caller`'s claim over `key` at `height`. Rejected with
    /// `ProofAlreadyExists` when the key has a live entry, whoever owns
    /// it; on rejection nothing is written and nothing emitted.
    pub fn create_claim(&mut self, caller: ActorId, key: Vec<u8>, height: Height) -> (r: Result<
        (),
        Error,
    >)
        requires
            old(self).wf(),
        ensures
            final(self).wf(),
            final(self)@ == create_step(old(self)@, caller, key@, height).0,
            r == create_step(old(self)@, caller, key@, height).1,
    {
        match self.find(&key) {
            Some(_) => Err(Error::ProofAlreadyExists),
            None => {
                let ghost s0 = self.entries@;
                let ghost l0 = self.events@;
                let ev = Event::ClaimCreated(caller, key.clone());
                let e = Entry { key, owner: caller, registered_at: height };
                proof {
                    lemma_map_of_push(s0, e);
                    lemma_log_of_push(l0, ev);
                }
                self.entries.push(e);
                self.events.push(ev);
                proof {
                    assert(final(self)@ =~= create_step(old(self)@, caller, e.key@, height).0);
                }
                Ok(())
            },
        }
    }

    /// Delete `caller`'s claim over `key`. Rejected with `ClaimNotExist`
    /// when the key has no live entry (checked first), and with
    /// `NotClaimOwner` when the entry belongs to someone else; on
    /// rejection nothing is written and nothing emitted.
    pub fn revoke_claim(&mut self, caller: ActorId, key: Vec<u8>) -> (r: Result<(), Error>)
        requires
            old(self).wf(),
        ensures
            final(self).wf(),
            final(self)@ == revoke_step(old(self)@, caller, key@).0,
            r == revoke_step(old(self)@, caller, key@).1,
    {
        match self.find(&key) {
            None => Err(Error::ClaimNotExist),
            Some(i) => {
                proof {
                    lemma_key_at(self.entries@, key@, i as int);
                }
                if self.entries[i].owner != caller {
                    Err(Error::NotClaimOwner)
                } else {
                    let ghost s0 = self.entries@;
                    let ghost l0 = self.events@;
                    let ghost k = key@;
                    proof {
                        lemma_map_of_remove(s0, i as int);
                    }
                    self.entries.remove(i);
                    let ev = Event::ClaimRevoked(caller, key);
                    proof {
                        lemma_log_of_push(l0, ev);
                    }
                    self.events.push(ev);
                    proof {
                        assert(final(self)@ =~= revoke_step(old(self)@, caller, k).0);
                    }
                    Ok(())
                }
            },
        }
    }

    /// Transfer `caller`'s claim over `key` to `recipient`, refreshing the
    /// registration height. The entry is replaced atomically: no state in
    /// which the key is absent is ever observable. The recipient may equal
    /// the caller. Rejections are those of a revoke, in the same order,
    /// and leave the registry untouched.
    pub fn send_claim(
        &mut self,
        caller: ActorId,
        recipient: ActorId,
        key: Vec<u8>,
        height: Height,
    ) -> (r: Result<(), Error>)
        requires
            old(self).wf(),
        ensures
            final(self).wf(),
            final(self)@ == send_step(old(self)@, caller, recipient, key@, height).0,
            r == send_step(old(self)@, caller, recipient, key@, height).1,
    {
        match self.find(&key) {
            None => Err(Error::ClaimNotExist),
            Some(i) => {
                proof {
                    lemma_key_at(self.entries@, key@, i as int);
                }
                if self.entries[i].owner != caller {
                    Err(Error::NotClaimOwner)
                } else {
                    let ghost s0 = self.entries@;
                    let ghost l0 = self.events@;
                    proof {
                        lemma_map_of_remove(s0, i as int);
                    }
                    self.entries.remove(i);
                    let ev1 = Event::ClaimRevoked(caller, key.clone());
                    let ev2 = Event::ClaimCreated(recipient, key.clone());
                    let e = Entry { key, owner: recipient, registered_at: height };
                    proof {
                        lemma_map_of_push(self.entries@, e);
                        lemma_log_of_push(l0, ev1);
                        lemma_log_of_push(l0.push(ev1), ev2);
                    }
                    self.entries.push(e);
                    self.events.push(ev1);
                    self.events.push(ev2);
                    proof {
                        assert(final(self)@.proofs =~= send_step(
                            old(self)@,
                            caller,
                            recipient,
                            e.key@,
                            height,
                        ).0.proofs);
                        assert(final(self)@ =~= send_step(
                            old(self)@,
                            caller,
                            recipient,
                            e.key@,
                            height,
                        ).0);
                    }
                    Ok(())
                }
            },
        }
    }
}

} // verus!
