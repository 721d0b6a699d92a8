//! Keyboard state. The windowing layer delivers key-down and key-up
//! events; this module tracks the set of keys currently held. A key is
//! its platform keycode, a plain integer. Mouse position bookkeeping is
//! floating-point arithmetic and stays in the outer layer.

use vstd::prelude::*;

verus! {

/// The set of keys currently held down, as reported by the events
/// applied so far.
pub struct InputState {
    keys_down: Vec<i32>,
}

impl InputState {
    /// The keys currently down.
    pub closed spec fn keys(self) -> Set<i32> {
        self.keys_down@.to_set()
    }

    /// Each held key is recorded once. Constructors establish this and
    /// every method keeps it.
    pub closed spec fn wf(self) -> bool {
        forall|i: int, j: int|
            #![trigger self.keys_down@[i], self.keys_down@[j]]
            0 <= i < j < self.keys_down@.len() ==> self.keys_down@[i] != self.keys_down@[j]
    }

    /// No key is down at start.
    pub fn new() -> (r: InputState)
        ensures
            r.keys() == Set::<i32>::empty(),
            r.wf(),
    {
        let r = InputState { keys_down: Vec::new() };
        proof {
            assert(r.keys() =~= Set::<i32>::empty());
        }
        r
    }

    /// Whether `key` is currently held down.
    pub fn is_down(&self, key: i32) -> (r: bool)
        ensures
            r == self.keys().contains(key),
    {
        let n = self.keys_down.len();
        let mut i: usize = 0;
        while i < n
            invariant
                i <= n,
                n == self.keys_down@.len(),
                forall|j: int| 0 <= j < i ==> self.keys_down@[j] != key,
            decreases n - i,
        {
            if self.keys_down[i] == key {
                proof {
                    assert(self.keys_down@.contains(key));
                }
                return true;
            }
            i = i + 1;
        }
        proof {
            assert(!self.keys_down@.contains(key));
        }
        false
    }

    /// Records a key-down event: `key` is added to the held set.
    pub fn key_down(&mut self, key: i32)
        requires
            old(self).wf(),
        ensures
            final(self).keys() == old(self).keys().insert(key),
            final(self).wf(),
    {
        if !self.is_down(key) {
            self.keys_down.push(key);
            proof {
                assert forall|x: i32| self.keys_down@.contains(x) implies old(
                    self,
                ).keys_down@.contains(x) || x == key by {
                    let j = choose|j: int|
                        0 <= j < self.keys_down@.len() && self.keys_down@[j] == x;
                    if j < old(self).keys_down@.len() {
                        assert(old(self).keys_down@[j] == x);
                    }
                }
                assert forall|x: i32|
                    old(self).keys_down@.contains(x) || x == key implies self.keys_down@.contains(
                    x,
                ) by {
                    if old(self).keys_down@.contains(x) {
                        let j = choose|j: int|
                            0 <= j < old(self).keys_down@.len() && old(self).keys_down@[j] == x;
                        assert(self.keys_down@[j] == x);
                    } else {
                        assert(self.keys_down@.last() == key);
                    }
                }
                assert(self.keys() =~= old(self).keys().insert(key));
            }
        } else {
            proof {
                assert(self.keys_down@.contains(key));
                assert(self.keys() =~= old(self).keys().insert(key));
            }
        }
    }

    /// Records a key-up event: `key` leaves the held set.
    pub fn key_up(&mut self, key: i32)
        requires
            old(self).wf(),
        ensures
            final(self).keys() == old(self).keys().remove(key),
            final(self).wf(),
    {
        let n = self.keys_down.len();
        let mut i: usize = 0;
        while i < n
            invariant
                i <= n,
                n == self.keys_down@.len(),
                *self == *old(self),
                old(self).wf(),
                forall|j: int| 0 <= j < i ==> self.keys_down@[j] != key,
            decreases n - i,
        {
            if self.keys_down[i] == key {
                self.keys_down.remove(i);
                proof {
                    old(self).keys_down@.remove_ensures(i as int);
                    assert(old(self).keys_down@[i as int] == key);
                    assert(self.keys_down@ == old(self).keys_down@.remove(i as int));
                    assert forall|x: i32| self.keys_down@.contains(x) implies old(
                        self,
                    ).keys_down@.contains(x) && x != key by {
                        let j = choose|j: int|
                            0 <= j < self.keys_down@.len() && self.keys_down@[j] == x;
                        if j < i {
                            assert(old(self).keys_down@[j] == x);
                            assert(x != key);
                        } else {
                            assert(old(self).keys_down@[j + 1] == x);
                            assert(old(self).keys_down@[i as int] != old(self).keys_down@[j + 1]);
                        }
                    }
                    assert forall|x: i32|
                        old(self).keys_down@.contains(x) && x
                            != key implies self.keys_down@.contains(x) by {
                        let j = choose|j: int|
                            0 <= j < old(self).keys_down@.len() && old(self).keys_down@[j] == x;
                        if j < i {
                            assert(self.keys_down@[j] == x);
                        } else {
                            assert(j != i);
                            assert(self.keys_down@[j - 1] == x);
                        }
                    }
                    assert(self.keys() =~= old(self).keys().remove(key));
                    assert forall|a: int, b: int|
                        0 <= a < b < self.keys_down@.len() implies self.keys_down@[a]
                        != self.keys_down@[b] by {
                        let a2: int = if a < i { a } else { a + 1 };
                        let b2: int = if b < i { b } else { b + 1 };
                        assert(self.keys_down@[a] == old(self).keys_down@[a2]);
                        assert(self.keys_down@[b] == old(self).keys_down@[b2]);
                    }
                }
                return ;
            }
            i = i + 1;
        }
        proof {
            assert(!self.keys_down@.contains(key));
            assert(self.keys() =~= old(self).keys().remove(key));
        }
    }

    /// The held keys, each exactly once, for callers that walk them.
    pub fn pressed_keys(&self) -> (r: &Vec<i32>)
        requires
            self.wf(),
        ensures
            r@.to_set() == self.keys(),
            forall|i: int, j: int| 0 <= i < j < r@.len() ==> r@[i] != r@[j],
    {
        &self.keys_down
    }
}

} // verus!
