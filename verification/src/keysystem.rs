//! Tracking of the held logical keys. The front end translates raw key
//! events into this fixed set and feeds presses and releases here; the
//! simulation reads the result as a set.

use vstd::prelude::*;

verus! {

/// The logical keys the simulation reacts to.
#[derive(Clone, Copy, PartialEq, Eq, Structural, Debug)]
pub enum Key {
    Up,
    Down,
    Left,
    Right,
    Spawn,
}

/// The set of currently held keys, kept as a duplicate-free list.
pub struct KeySystem {
    pub pressed_key: Vec<Key>,
}

impl KeySystem {
    /// The mathematical view: which keys are held.
    pub open spec fn held(self) -> Set<Key> {
        self.pressed_key@.to_set()
    }

    /// The list never holds a key twice.
    pub open spec fn wf(self) -> bool {
        forall|i: int, j: int|
            0 <= i < j < self.pressed_key@.len() ==> self.pressed_key@[i] != self.pressed_key@[j]
    }

    /// No key held.
    pub fn new() -> (ks: KeySystem)
        ensures
            ks.held() == Set::<Key>::empty(),
            ks.wf(),
    {
        let ks = KeySystem { pressed_key: Vec::new() };
        proof {
            assert(ks.held() =~= Set::<Key>::empty());
        }
        ks
    }

    /// Record `key` as held; holding it twice changes nothing.
    pub fn on_key_pressed(&mut self, key: Key)
        requires
            old(self).wf(),
        ensures
            final(self).held() == old(self).held().insert(key),
            final(self).wf(),
    {
        if !self.contains(key) {
            self.pressed_key.push(key);
            proof {
                let s0 = old(self).pressed_key@;
                assert forall|k: Key| self.held().contains(k) implies old(self).held().insert(
                    key,
                ).contains(k) by {
                    let w = choose|w: int|
                        0 <= w < self.pressed_key@.len() && self.pressed_key@[w] == k;
                    if w < s0.len() {
                        assert(s0[w] == k);
                    }
                }
                assert forall|k: Key| old(self).held().insert(key).contains(k) implies
                    self.held().contains(k) by {
                    if k == key {
                        assert(self.pressed_key@[s0.len() as int] == k);
                    } else {
                        let w = choose|w: int| 0 <= w < s0.len() && s0[w] == k;
                        assert(self.pressed_key@[w] == k);
                    }
                }
                assert(self.held() =~= old(self).held().insert(key));
            }
        } else {
            proof {
                assert(self.held() =~= old(self).held().insert(key));
            }
        }
    }

    /// Record `key` as released; releasing an idle key changes nothing.
    pub fn on_key_released(&mut self, key: Key)
        requires
            old(self).wf(),
        ensures
            final(self).held() == old(self).held().remove(key),
            final(self).wf(),
    {
        let n = self.pressed_key.len();
        let mut i: usize = 0;
        while i < n
            invariant
                n == self.pressed_key.len(),
                i <= n,
                forall|k: int| 0 <= k < i ==> self.pressed_key@[k] != key,
                old(self).wf(),
                *self == *old(self),
            decreases n - i,
        {
            if self.pressed_key[i] == key {
                let ghost before = self.pressed_key@;
                self.pressed_key.remove(i);
                proof {
                    assert(self.pressed_key@ =~= before.subrange(0, i as int) + before.subrange(
                        i + 1,
                        before.len() as int,
                    ));
                    lemma_to_set_remove(before, i as int);
                    assert(self.held() =~= old(self).held().remove(key));
                }
                return ;
            }
            i += 1;
        }
        proof {
            assert(!old(self).held().contains(key)) by {
                if old(self).held().contains(key) {
                    let w = choose|w: int|
                        0 <= w < old(self).pressed_key@.len() && old(self).pressed_key@[w] == key;
                    assert(old(self).pressed_key@[w] != key);
                }
            }
            assert(self.held() =~= old(self).held().remove(key));
        }
    }

    /// Whether `key` is currently held.
    pub fn is_pressed(&self, key: Key) -> (r: bool)
        ensures
            r == self.held().contains(key),
    {
        self.contains(key)
    }

    /// Linear scan of the held list.
    fn contains(&self, key: Key) -> (r: bool)
        ensures
            r == self.held().contains(key),
    {
        let n = self.pressed_key.len();
        let mut i: usize = 0;
        while i < n
            invariant
                n == self.pressed_key.len(),
                i <= n,
                forall|k: int| 0 <= k < i ==> self.pressed_key@[k] != key,
            decreases n - i,
        {
            if self.pressed_key[i] == key {
                return true;
            }
            i += 1;
        }
        proof {
            if self.held().contains(key) {
                let w = choose|w: int|
                    0 <= w < self.pressed_key@.len() && self.pressed_key@[w] == key;
                assert(self.pressed_key@[w] != key);
            }
        }
        false
    }
}

/// Removing index `i` from a duplicate-free sequence removes exactly its
/// element from the set of members.
proof fn lemma_to_set_remove(s: Seq<Key>, i: int)
    requires
        0 <= i < s.len(),
        forall|p: int, q: int| 0 <= p < q < s.len() ==> s[p] != s[q],
    ensures
        (s.subrange(0, i) + s.subrange(i + 1, s.len() as int)).to_set() == s.to_set().remove(s[i]),
{
    let t = s.subrange(0, i) + s.subrange(i + 1, s.len() as int);
    assert forall|k: Key| t.to_set().contains(k) implies s.to_set().remove(s[i]).contains(
        k,
    ) by {
        let w = choose|w: int| 0 <= w < t.len() && t[w] == k;
        if w < i {
            assert(s[w] == k);
        } else {
            assert(s[w + 1] == k);
        }
    }
    assert forall|k: Key| s.to_set().remove(s[i]).contains(k) implies t.to_set().contains(
        k,
    ) by {
        let w = choose|w: int| 0 <= w < s.len() && s[w] == k;
        if w < i {
            assert(t[w] == k);
        } else {
            assert(w > i);
            assert(t[w - 1] == k);
        }
    }
    assert(t.to_set() =~= s.to_set().remove(s[i]));
}

} // verus!
