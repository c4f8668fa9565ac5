use vstd::prelude::*;

verus! {

/// Time elapsed from `last` to `now`, in milliseconds; zero if the clock
/// reads earlier than `last`.
pub open spec fn elapsed(last: u64, now: u64) -> int {
    if now >= last {
        now - last
    } else {
        0
    }
}

/// The cooldown window: a check passes only while the elapsed time lies in
/// `(param, 2 * param]`.
pub open spec fn in_window(last: u64, now: u64, param: u64) -> bool {
    param < elapsed(last, now) <= 2 * param
}

/// Outcome of a cooldown check on `id`, and the registry after it.
///
/// An id with no entry fails, and is stamped with `now` when `init_on_miss`
/// is set. Otherwise the check passes inside the window and refreshes the
/// entry; past the window the entry is removed; before it nothing changes.
pub open spec fn cooldown(
    m: Map<Seq<char>, u64>,
    id: Seq<char>,
    param: u64,
    init_on_miss: bool,
    now: u64,
) -> (bool, Map<Seq<char>, u64>) {
    if !m.contains_key(id) {
        (
            false,
            if init_on_miss {
                m.insert(id, now)
            } else {
                m
            },
        )
    } else if in_window(m[id], now, param) {
        (true, m.insert(id, now))
    } else if elapsed(m[id], now) > 2 * param {
        (false, m.remove(id))
    } else {
        (false, m)
    }
}

/// Last-fired timestamps of time-gate nodes, keyed by node id.
pub struct TimerRegistry {
    entries: Vec<(String, u64)>,
}

impl TimerRegistry {
    /// No id is recorded twice.
    pub closed spec fn wf(&self) -> bool {
        forall|i: int, j: int|
            0 <= i < j < self.entries@.len() ==> self.entries@[i].0@ != self.entries@[j].0@
    }

    closed spec fn holds_at(&self, k: Seq<char>, i: int) -> bool {
        0 <= i < self.entries@.len() && self.entries@[i].0@ == k
    }

    pub closed spec fn view(&self) -> Map<Seq<char>, u64> {
        Map::new(
            |k: Seq<char>| exists|i: int| self.holds_at(k, i),
            |k: Seq<char>| self.entries@[choose|i: int| self.holds_at(k, i)].1,
        )
    }

    proof fn lemma_entry(&self, i: int)
        requires
            self.wf(),
            0 <= i < self.entries@.len(),
        ensures
            self@.contains_key(self.entries@[i].0@),
            self@[self.entries@[i].0@] == self.entries@[i].1,
    {
        let k = self.entries@[i].0@;
        assert(self.holds_at(k, i));
        let j = choose|j: int| self.holds_at(k, j);
        assert(j == i);
    }

    pub fn new() -> (r: TimerRegistry)
        ensures
            r.wf(),
            r@ == Map::<Seq<char>, u64>::empty(),
    {
        let r = TimerRegistry { entries: Vec::new() };
        assert(r@ =~= Map::<Seq<char>, u64>::empty());
        r
    }

    fn find(&self, id: &String) -> (r: Option<usize>)
        requires
            self.wf(),
        ensures
            r is Some ==> self.holds_at(id@, r->0 as int),
            r is None ==> !self@.contains_key(id@),
    {
        let mut i: usize = 0;
        while i < self.entries.len()
            invariant
                i <= self.entries@.len(),
                forall|j: int| 0 <= j < i ==> self.entries@[j].0@ != id@,
            decreases self.entries.len() - i,
        {
            if self.entries[i].0 == *id {
                return Some(i);
            }
            i = i + 1;
        }
        None
    }

    /// The timestamp recorded for `id`, if any.
    pub fn get(&self, id: &String) -> (r: Option<u64>)
        requires
            self.wf(),
        ensures
            r == (if self@.contains_key(id@) {
                Some(self@[id@])
            } else {
                None
            }),
    {
        match self.find(id) {
            Some(i) => {
                proof {
                    self.lemma_entry(i as int);
                }
                Some(self.entries[i].1)
            },
            None => None,
        }
    }

    /// Records `now` as the last time `id` fired.
    pub fn mark(&mut self, id: &String, now: u64)
        requires
            old(self).wf(),
        ensures
            final(self).wf(),
            final(self)@ == old(self)@.insert(id@, now),
    {
        let ghost before = *self;
        match self.find(id) {
            Some(i) => {
                self.entries.set(i, (id.clone(), now));
                proof {
                    assert forall|k: Seq<char>| #[trigger]
                        self@.contains_key(k) == old(self)@.insert(id@, now).contains_key(k) by {
                        if k != id@ && old(self)@.contains_key(k) {
                            let j = choose|j: int| before.holds_at(k, j);
                            assert(self.holds_at(k, j));
                        }
                        if self@.contains_key(k) && k != id@ {
                            let j = choose|j: int| self.holds_at(k, j);
                            assert(before.holds_at(k, j));
                        }
                        if k == id@ {
                            assert(self.holds_at(k, i as int));
                        }
                    }
                    assert forall|k: Seq<char>| #[trigger] self@.contains_key(k) implies self@[k]
                        == old(self)@.insert(id@, now)[k] by {
                        let j = choose|j: int| self.holds_at(k, j);
                        self.lemma_entry(j);
                        if k != id@ {
                            assert(before.holds_at(k, j));
                            before.lemma_entry(j);
                        }
                    }
                    assert(self@ =~= old(self)@.insert(id@, now));
                }
            },
            None => {
                self.entries.push((id.clone(), now));
                proof {
                    let n = before.entries@.len() as int;
                    assert forall|j: int| 0 <= j < n implies before.entries@[j].0@ != id@ by {
                        if before.entries@[j].0@ == id@ {
                            assert(before.holds_at(id@, j));
                        }
                    }
                    assert(self.wf());
                    assert forall|k: Seq<char>| #[trigger]
                        self@.contains_key(k) == old(self)@.insert(id@, now).contains_key(k) by {
                        if k != id@ && old(self)@.contains_key(k) {
                            let j = choose|j: int| before.holds_at(k, j);
                            assert(self.holds_at(k, j));
                        }
                        if self@.contains_key(k) && k != id@ {
                            let j = choose|j: int| self.holds_at(k, j);
                            assert(before.holds_at(k, j));
                        }
                        if k == id@ {
                            assert(self.holds_at(k, n));
                        }
                    }
                    assert forall|k: Seq<char>| #[trigger] self@.contains_key(k) implies self@[k]
                        == old(self)@.insert(id@, now)[k] by {
                        let j = choose|j: int| self.holds_at(k, j);
                        self.lemma_entry(j);
                        if k != id@ {
                            assert(before.holds_at(k, j));
                            before.lemma_entry(j);
                        }
                    }
                    assert(self@ =~= old(self)@.insert(id@, now));
                }
            },
        }
    }

    /// Forgets `id`.
    pub fn remove(&mut self, id: &String)
        requires
            old(self).wf(),
        ensures
            final(self).wf(),
            final(self)@ == old(self)@.remove(id@),
    {
        let ghost before = *self;
        match self.find(id) {
            Some(i) => {
                self.entries.remove(i);
                proof {
                    let sh = |j: int|
                        if j < i {
                            j
                        } else {
                            j - 1
                        };
                    assert forall|k: Seq<char>| #[trigger]
                        self@.contains_key(k) == old(self)@.remove(id@).contains_key(k) by {
                        if k != id@ && old(self)@.contains_key(k) {
                            let j = choose|j: int| before.holds_at(k, j);
                            assert(j != i);
                            assert(self.holds_at(k, sh(j)));
                        }
                        if self@.contains_key(k) {
                            let j = choose|j: int| self.holds_at(k, j);
                            if j < i {
                                assert(before.holds_at(k, j));
                            } else {
                                assert(before.holds_at(k, j + 1));
                            }
                        }
                    }
                    assert forall|k: Seq<char>| #[trigger] self@.contains_key(k) implies self@[k]
                        == old(self)@.remove(id@)[k] by {
                        let j = choose|j: int| self.holds_at(k, j);
                        self.lemma_entry(j);
                        if j < i {
                            assert(before.holds_at(k, j));
                            before.lemma_entry(j);
                        } else {
                            assert(before.holds_at(k, j + 1));
                            before.lemma_entry(j + 1);
                        }
                    }
                    assert(self@ =~= old(self)@.remove(id@));
                }
            },
            None => {
                assert(self@ =~= old(self)@.remove(id@));
            },
        }
    }

    /// Forgets every id.
    pub fn clear(&mut self)
        requires
            old(self).wf(),
        ensures
            final(self).wf(),
            final(self)@ == Map::<Seq<char>, u64>::empty(),
    {
        self.entries = Vec::new();
        assert(self@ =~= Map::<Seq<char>, u64>::empty());
    }

    /// Runs a cooldown check on `id` at time `now` (see [`cooldown`]).
    pub fn check_cooldown(&mut self, id: &String, param: u32, init_on_miss: bool, now: u64) -> (yes:
        bool)
        requires
            old(self).wf(),
        ensures
            final(self).wf(),
            (yes, final(self)@) == cooldown(old(self)@, id@, param as u64, init_on_miss, now),
    {
        match self.get(id) {
            None => {
                if init_on_miss {
                    self.mark(id, now);
                }
                false
            },
            Some(last) => {
                let e: u64 = if now >= last {
                    now - last
                } else {
                    0
                };
                let p = param as u64;
                if p < e && e <= 2 * p {
                    self.mark(id, now);
                    true
                } else if e > 2 * p {
                    self.remove(id);
                    false
                } else {
                    false
                }
            },
        }
    }
}

} // verus!
