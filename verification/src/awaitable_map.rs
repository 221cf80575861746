//! A map whose values can be awaited.
//!
//! Address resolution runs ahead of the data that needs it: a forwarded
//! connection may reach the perforator before the registration that names
//! its target has been answered, and a seed lookup may arrive before the
//! server it asks for has bound. Both sides therefore share one primitive:
//! a map where a reader either finds a value or leaves a cleared slot
//! behind and waits for the next insert to fill it.
//!
//! This module holds the state of that primitive and the exact effect of
//! each step on it. The waiting itself — parking a reader until an insert
//! arrives — is scheduling, and is carried out by the runtime around the
//! library: whenever [`AwaitableMap::get_step`] answers
//! [`SlotState::Waiting`], the caller parks until the next insert and then
//! steps again.

use vstd::prelude::*;

verus! {

/// A value that can hand out an observationally equal duplicate of itself.
///
/// Readers of the map receive copies, never the stored value itself.
pub trait Dup: View + Sized {
    /// Produce a duplicate with the same view.
    fn dup(&self) -> (r: Self)
        ensures
            r@ == self@,
    ;
}

/// A map key: duplicable, and comparable by its view.
pub trait SlotKey: Dup {
    /// Decide whether two keys name the same slot.
    fn key_eq(&self, other: &Self) -> (r: bool)
        ensures
            r == (self@ == other@),
    ;
}

struct MapEntry<K: View, V: View> {
    key: K,
    slot: Option<V>,
}

/// The view of one slot: what a reader of the map would see there.
pub open spec fn spec_slot_view<V: View>(slot: Option<V>) -> Option<<V as View>::V> {
    match slot {
        Some(v) => Some(v@),
        None => None,
    }
}

/// A map from keys to awaitable slots.
///
/// Its view is a [`Map`] from key views to slot contents: a key bound to
/// `None` has a slot that readers are waiting on; a key bound to `Some(v)`
/// has a ready value.
pub struct AwaitableMap<K: View, V: View> {
    entries: Vec<MapEntry<K, V>>,
    contents: Ghost<Map<<K as View>::V, Option<<V as View>::V>>>,
}

/// What one step of a read found.
pub enum SlotState<V> {
    /// The slot held a value, and here is a copy of it.
    Ready(V),
    /// The slot is empty (or was just cleared): the caller must wait for
    /// the next insert on this key and then step again.
    Waiting,
}

impl<K: View, V: View> View for AwaitableMap<K, V> {
    type V = Map<<K as View>::V, Option<<V as View>::V>>;

    closed spec fn view(&self) -> Map<<K as View>::V, Option<<V as View>::V>> {
        self.contents@
    }
}

impl<K: SlotKey, V: Dup> AwaitableMap<K, V> {
    /// The entries describe exactly the view: every entry is bound in the
    /// map, no two entries share a key, and every bound key has an entry.
    pub closed spec fn wf(&self) -> bool {
        &&& forall|i: int|
            0 <= i < self.entries@.len() ==> self.contents@.contains_key(
                (#[trigger] self.entries@[i]).key@,
            ) && self.contents@[self.entries@[i].key@] == spec_slot_view(self.entries@[i].slot)
        &&& forall|i: int, j: int|
            0 <= i < self.entries@.len() && 0 <= j < self.entries@.len() && i != j
                ==> (#[trigger] self.entries@[i]).key@ != (#[trigger] self.entries@[j]).key@
        &&& forall|k: <K as View>::V|
            self.contents@.contains_key(k) ==> exists|i: int|
                0 <= i < self.entries@.len() && (#[trigger] self.entries@[i]).key@ == k
    }

    /// An empty map.
    pub fn new() -> (m: Self)
        ensures
            m.wf(),
            m@ == Map::<<K as View>::V, Option<<V as View>::V>>::empty(),
    {
        AwaitableMap {
            entries: Vec::new(),
            contents: Ghost(Map::empty()),
        }
    }

    /// Find the index of the entry for `key`, if any.
    fn find(&self, key: &K) -> (r: Option<usize>)
        requires
            self.wf(),
        ensures
            match r {
                Some(i) => 0 <= i < self.entries@.len() && self.entries@[i as int].key@ == key@
                    && self@.contains_key(key@),
                None => !self@.contains_key(key@),
            },
    {
        let mut i: usize = 0;
        while i < self.entries.len()
            invariant
                self.wf(),
                0 <= i <= self.entries@.len(),
                forall|j: int| 0 <= j < i ==> (#[trigger] self.entries@[j]).key@ != key@,
            decreases self.entries@.len() - i,
        {
            if self.entries[i].key.key_eq(key) {
                return Some(i);
            }
            i += 1;
        }
        proof {
            if self@.contains_key(key@) {
                let w = choose|w: int|
                    0 <= w < self.entries@.len() && (#[trigger] self.entries@[w]).key@ == key@;
                assert(false);
            }
        }
        None
    }

    /// Look at the current slot for `key` without changing anything.
    ///
    /// Returns a copy of the value when the slot holds one; `None` both
    /// when the slot is empty and when the key has no slot at all.
    pub fn peek(&self, key: &K) -> (r: Option<V>)
        requires
            self.wf(),
        ensures
            match r {
                Some(v) => self@.contains_key(key@) && self@[key@] == Some(v@),
                None => !self@.contains_key(key@) || self@[key@] is None,
            },
    {
        match self.find(key) {
            Some(i) => match &self.entries[i].slot {
                Some(v) => Some(v.dup()),
                None => None,
            },
            None => None,
        }
    }

    /// Set the value for `key` and wake its waiters; returns the value the
    /// slot held before, if it held one.
    ///
    /// The runtime around the library must wake every reader parked on
    /// this key when this returns.
    pub fn insert(&mut self, key: K, value: V) -> (prev: Option<V>)
        requires
            old(self).wf(),
        ensures
            final(self).wf(),
            final(self)@ == old(self)@.insert(key@, Some(value@)),
            match prev {
                Some(p) => old(self)@.contains_key(key@) && old(self)@[key@] == Some(p@),
                None => !old(self)@.contains_key(key@) || old(self)@[key@] is None,
            },
    {
        let found = self.find(&key);
        match found {
            Some(i) => {
                let ghost old_self = *self;
                let prev = match &self.entries[i].slot {
                    Some(v) => Some(v.dup()),
                    None => None,
                };
                self.entries[i].slot = Some(value);
                proof {
                    self.contents@ = self.contents@.insert(key@, Some(value@));
                    self.lemma_wf_after_update(old_self, i as int, key@);
                }
                prev
            },
            None => {
                self.entries.push(MapEntry { key, slot: Some(value) });
                proof {
                    let ghost old_self = *old(self);
                    self.contents@ = self.contents@.insert(key@, Some(value@));
                    self.lemma_wf_after_push(old_self, key@);
                }
                None
            },
        }
    }

    /// Updating the slot at one entry, and the view at its key, keeps the
    /// map well formed.
    proof fn lemma_wf_after_update(&self, prior: Self, i: int, k: <K as View>::V)
        requires
            prior.wf(),
            0 <= i < prior.entries@.len(),
            prior.entries@[i].key@ == k,
            self.entries@.len() == prior.entries@.len(),
            self.entries@[i].key@ == k,
            self.contents@ == prior.contents@.insert(k, spec_slot_view(self.entries@[i].slot)),
            forall|j: int|
                0 <= j < prior.entries@.len() && j != i ==> self.entries@[j]
                    == prior.entries@[j],
        ensures
            self.wf(),
    {
        assert forall|m: int| 0 <= m < self.entries@.len() implies self.contents@.contains_key(
            (#[trigger] self.entries@[m]).key@,
        ) && self.contents@[self.entries@[m].key@] == spec_slot_view(self.entries@[m].slot) by {
            if m != i {
                assert(prior.entries@[m].key@ != k);
            }
        }
        assert forall|k2: <K as View>::V| self.contents@.contains_key(k2) implies exists|w: int|
            0 <= w < self.entries@.len() && (#[trigger] self.entries@[w]).key@ == k2 by {
            if k2 == k {
                assert(self.entries@[i].key@ == k2);
            } else {
                let w = choose|w: int|
                    0 <= w < prior.entries@.len() && (#[trigger] prior.entries@[w]).key@ == k2;
                assert(self.entries@[w].key@ == k2);
            }
        }
    }

    /// Appending an entry for a key the map did not hold, and binding that
    /// key in the view, keeps the map well formed.
    proof fn lemma_wf_after_push(&self, prior: Self, k: <K as View>::V)
        requires
            prior.wf(),
            !prior.contents@.contains_key(k),
            self.entries@.len() == prior.entries@.len() + 1,
            self.entries@[prior.entries@.len() as int].key@ == k,
            self.contents@ == prior.contents@.insert(
                k,
                spec_slot_view(self.entries@[prior.entries@.len() as int].slot),
            ),
            forall|j: int|
                0 <= j < prior.entries@.len() ==> self.entries@[j] == prior.entries@[j],
        ensures
            self.wf(),
    {
        let n = prior.entries@.len() as int;
        assert forall|m: int| 0 <= m < self.entries@.len() implies self.contents@.contains_key(
            (#[trigger] self.entries@[m]).key@,
        ) && self.contents@[self.entries@[m].key@] == spec_slot_view(self.entries@[m].slot) by {
            if m != n {
                assert(prior.contents@.contains_key(prior.entries@[m].key@));
                assert(prior.entries@[m].key@ != k);
            }
        }
        assert forall|a: int, b: int|
            0 <= a < self.entries@.len() && 0 <= b < self.entries@.len() && a != b implies (
        #[trigger] self.entries@[a]).key@ != (#[trigger] self.entries@[b]).key@ by {
            if a == n {
                assert(prior.contents@.contains_key(prior.entries@[b].key@));
            } else if b == n {
                assert(prior.contents@.contains_key(prior.entries@[a].key@));
            }
        }
        assert forall|k2: <K as View>::V| self.contents@.contains_key(k2) implies exists|w: int|
            0 <= w < self.entries@.len() && (#[trigger] self.entries@[w]).key@ == k2 by {
            if k2 == k {
                assert(self.entries@[n].key@ == k2);
            } else {
                let w = choose|w: int|
                    0 <= w < prior.entries@.len() && (#[trigger] prior.entries@[w]).key@ == k2;
                assert(self.entries@[w].key@ == k2);
            }
        }
    }

    /// One atomic step of a read.
    ///
    /// `reset` is the caller's verdict on the value currently in the slot
    /// (the reset predicate of the read); it only matters when the slot
    /// holds a value. A held value is returned as [`SlotState::Ready`]
    /// unless `reset` asks for it to be dropped, in which case the slot is
    /// cleared and the caller waits for the next insert — as it does when
    /// the slot is empty or the key was never seen, which creates the
    /// empty slot.
    pub fn get_step(&mut self, key: &K, reset: bool) -> (out: SlotState<V>)
        requires
            old(self).wf(),
        ensures
            final(self).wf(),
            final(self)@.contains_key(key@),
            ({
                let held = if old(self)@.contains_key(key@) {
                    old(self)@[key@]
                } else {
                    None
                };
                match held {
                    Some(v0) => {
                        if reset {
                            out is Waiting && final(self)@ == old(self)@.insert(key@, None)
                        } else {
                            match out {
                                SlotState::Ready(v) => v@ == v0 && final(self)@ == old(self)@,
                                SlotState::Waiting => false,
                            }
                        }
                    },
                    None => out is Waiting && final(self)@ == old(self)@.insert(key@, None),
                }
            }),
    {
        let found = self.find(key);
        match found {
            Some(i) => {
                let ghost old_self = *self;
                let has_value = self.entries[i].slot.is_some();
                if has_value {
                    if reset {
                        self.entries[i].slot = None;
                        proof {
                            self.contents@ = self.contents@.insert(key@, None);
                            self.lemma_wf_after_update(old_self, i as int, key@);
                        }
                        SlotState::Waiting
                    } else {
                        match &self.entries[i].slot {
                            Some(v) => SlotState::Ready(v.dup()),
                            None => {
                                proof {
                                    assert(false);
                                }
                                SlotState::Waiting
                            },
                        }
                    }
                } else {
                    proof {
                        assert(old(self)@ =~= old(self)@.insert(key@, None));
                    }
                    SlotState::Waiting
                }
            },
            None => {
                self.entries.push(MapEntry { key: key.dup(), slot: None });
                proof {
                    let ghost old_self = *old(self);
                    self.contents@ = self.contents@.insert(key@, None);
                    self.lemma_wf_after_push(old_self, key@);
                }
                SlotState::Waiting
            },
        }
    }
}

/// A read that resets a stale value never sees it again: the cleared slot
/// holds nothing, and once the next insert arrives, every later read on
/// that key sees the new value and only the new value.
pub proof fn lemma_reset_waits_for_next_insert<KV, VV>(
    m: Map<KV, Option<VV>>,
    k: KV,
    stale: VV,
    fresh: VV,
)
    requires
        m.contains_key(k),
        m[k] == Some(stale),
    ensures
        m.insert(k, None)[k] is None,
        m.insert(k, None).insert(k, Some(fresh))[k] == Some(fresh),
{
}

/// One insert wakes every waiter alike: whatever two readers held before,
/// after `insert(k, v)` both read the same `v` from the map.
pub proof fn lemma_insert_wakes_all_waiters<KV, VV>(m: Map<KV, Option<VV>>, k: KV, v: VV)
    ensures
        m.insert(k, Some(v)).contains_key(k),
        m.insert(k, Some(v))[k] == Some(v),
{
}

} // verus!
