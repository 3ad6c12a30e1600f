use vstd::prelude::*;
use crate::text::eq_str;

verus! {

/// `n + 1`, held at the largest `usize`.
pub open spec fn sat_inc(n: nat) -> nat {
    if n < usize::MAX {
        n + 1
    } else {
        n
    }
}

/// `a + b`, held at the largest `usize`.
pub open spec fn sat_add(a: nat, b: nat) -> nat {
    if a + b <= usize::MAX {
        a + b
    } else {
        usize::MAX as nat
    }
}

/// A key made of a group name and a name within the group.
pub type PairKey = (Seq<char>, Seq<char>);

/// The count a map holds for a key, 0 where it holds none.
pub open spec fn count_in(m: Map<PairKey, nat>, k: PairKey) -> nat {
    if m.contains_key(k) {
        m[k]
    } else {
        0
    }
}

/// `m` after one more occurrence of `k`.
pub open spec fn bumped(m: Map<PairKey, nat>, k: PairKey) -> Map<PairKey, nat> {
    m.insert(k, sat_inc(count_in(m, k)))
}

/// One entry of a [`PairCounter`].
pub struct PairCount {
    pub group: String,
    pub key: String,
    pub count: usize,
}

/// Counts of (group, name) pairs, kept in the order in which each pair was
/// first counted. Each pair has at most one entry.
pub struct PairCounter {
    entries: Vec<PairCount>,
}

impl PairCounter {
    /// The entries in order of first occurrence.
    pub closed spec fn entries(&self) -> Seq<(PairKey, nat)> {
        self.entries@.map_values(|e: PairCount| ((e.group@, e.key@), e.count as nat))
    }

    pub closed spec fn wf(&self) -> bool {
        forall|i: int, j: int|
            0 <= i < j < self.entries@.len() ==> #[trigger] self.entries()[i].0
                != #[trigger] self.entries()[j].0
    }

    pub closed spec fn view(&self) -> Map<PairKey, nat> {
        Map::new(
            |k: PairKey| exists|i: int| 0 <= i < self.entries().len() && self.entries()[i].0 == k,
            |k: PairKey|
                self.entries()[choose|i: int|
                    0 <= i < self.entries().len() && self.entries()[i].0 == k].1,
        )
    }

    proof fn lemma_view_at(&self, i: int)
        requires
            self.wf(),
            0 <= i < self.entries().len(),
        ensures
            self.view().contains_key(self.entries()[i].0),
            self.view()[self.entries()[i].0] == self.entries()[i].1,
    {
        let k = self.entries()[i].0;
        assert(exists|j: int| 0 <= j < self.entries().len() && self.entries()[j].0 == k);
        let c = choose|j: int| 0 <= j < self.entries().len() && self.entries()[j].0 == k;
        if c != i {
            if c < i {
                assert(self.entries()[c].0 != self.entries()[i].0);
            } else {
                assert(self.entries()[i].0 != self.entries()[c].0);
            }
        }
    }

    pub fn new() -> (r: Self)
        ensures
            r.wf(),
            r.view() == Map::<PairKey, nat>::empty(),
            r.entries().len() == 0,
    {
        let r = PairCounter { entries: Vec::new() };
        assert(r.view() =~= Map::<PairKey, nat>::empty());
        r
    }

    /// Number of distinct pairs counted.
    pub fn len(&self) -> (r: usize)
        ensures
            r == self.entries().len(),
    {
        self.entries.len()
    }

    /// The entry at a position of the first-occurrence order.
    pub fn entry(&self, i: usize) -> (r: (&String, &String, usize))
        requires
            self.wf(),
            i < self.entries().len(),
        ensures
            (r.0@, r.1@) == self.entries()[i as int].0,
            r.2 == self.entries()[i as int].1,
            self.view().contains_key(self.entries()[i as int].0),
            self.view()[self.entries()[i as int].0] == r.2,
    {
        proof {
            self.lemma_view_at(i as int);
        }
        let e = &self.entries[i];
        (&e.group, &e.key, e.count)
    }

    fn find(&self, group: &str, key: &str) -> (r: Option<usize>)
        requires
            self.wf(),
        ensures
            match r {
                Some(i) => i < self.entries().len() && self.entries()[i as int].0 == (group@, key@),
                None => !self.view().contains_key((group@, key@)),
            },
    {
        let mut i: usize = 0;
        while i < self.entries.len()
            invariant
                self.wf(),
                0 <= i <= self.entries().len(),
                forall|j: int| 0 <= j < i ==> self.entries()[j].0 != (group@, key@),
            decreases self.entries().len() - i,
        {
            let e = &self.entries[i];
            if eq_str(e.group.as_str(), group) && eq_str(e.key.as_str(), key) {
                assert(self.entries()[i as int].0 =~= (group@, key@));
                return Some(i);
            }
            assert(self.entries()[i as int].0 != (group@, key@));
            i = i + 1;
        }
        None
    }

    /// The count of a pair, 0 if it was never counted.
    pub fn get(&self, group: &str, key: &str) -> (r: usize)
        requires
            self.wf(),
        ensures
            r == count_in(self.view(), (group@, key@)),
    {
        match self.find(group, key) {
            Some(i) => {
                proof {
                    self.lemma_view_at(i as int);
                }
                self.entries[i].count
            },
            None => 0,
        }
    }

    /// Counts one more occurrence of a pair.
    pub fn increment(&mut self, group: &str, key: &str)
        requires
            old(self).wf(),
        ensures
            final(self).wf(),
            final(self).view() == bumped(old(self).view(), (group@, key@)),
            old(self).view().contains_key((group@, key@)) ==> {
                &&& final(self).entries().len() == old(self).entries().len()
                &&& forall|j: int|
                    0 <= j < old(self).entries().len() ==> #[trigger] final(self).entries()[j].0
                        == old(self).entries()[j].0
            },
            !old(self).view().contains_key((group@, key@)) ==> final(self).entries() == old(self).entries().push(
                ((group@, key@), 1nat),
            ),
    {
        let k: Ghost<PairKey> = Ghost((group@, key@));
        let ghost before = self.view();
        match self.find(group, key) {
            Some(i) => {
                proof {
                    self.lemma_view_at(i as int);
                }
                let c = self.entries[i].count;
                let n = if c < usize::MAX { c + 1 } else { c };
                let ghost old_entries = self.entries();
                let mut e = self.entries.remove(i);
                e.count = n;
                self.entries.insert(i, e);
                assert(self.entries() =~= old_entries.update(i as int, (k@, n as nat)));
                assert(self.wf());
                assert forall|j: int| 0 <= j < self.entries().len() implies #[trigger] self.entries()[j].0
                    == old_entries[j].0 by {}
                assert(self.view() =~= bumped(before, k@)) by {
                    assert forall|kk: PairKey| #[trigger] self.view().contains_key(kk) == bumped(before, k@).contains_key(kk) by {
                        if kk == k@ {
                            assert(0 <= i < self.entries().len() && self.entries()[i as int].0 == kk);
                            assert(self.view().contains_key(kk));
                        } else if before.contains_key(kk) {
                            let j = choose|j: int| 0 <= j < old_entries.len() && old_entries[j].0 == kk;
                            assert(0 <= j < self.entries().len() && self.entries()[j].0 == kk);
                            assert(self.view().contains_key(kk));
                        } else if self.view().contains_key(kk) {
                            let j = choose|j: int| 0 <= j < self.entries().len() && self.entries()[j].0 == kk;
                            assert(old_entries[j].0 == kk);
                            assert(before.contains_key(kk));
                        }
                    }
                    assert forall|kk: PairKey| #[trigger] self.view().contains_key(kk) implies self.view()[kk] == bumped(before, k@)[kk] by {
                        let j = choose|j: int| 0 <= j < self.entries().len() && self.entries()[j].0 == kk;
                        self.lemma_view_at(j);
                        if j != i {
                            assert(old_entries[j] == self.entries()[j]);
                            assert(0 <= j < old_entries.len() && old_entries[j].0 == kk);
                            assert(before.contains_key(kk));
                            let jj = choose|jj: int| 0 <= jj < old_entries.len() && old_entries[jj].0 == kk;
                            if jj != j {
                                if jj < j {
                                    assert(old_entries[jj].0 != old_entries[j].0);
                                } else {
                                    assert(old_entries[j].0 != old_entries[jj].0);
                                }
                            }
                        }
                    }
                }
            },
            None => {
                let ghost old_entries = self.entries();
                self.entries.push(
                    PairCount { group: crate::text::to_owned_string(group), key: crate::text::to_owned_string(key), count: 1 },
                );
                assert(self.entries() =~= old_entries.push((k@, 1nat)));
                assert forall|i: int, j: int| 0 <= i < j < self.entries@.len() implies #[trigger] self.entries()[i].0
                    != #[trigger] self.entries()[j].0 by {
                    if j == old_entries.len() {
                        assert(!before.contains_key(k@));
                        if old_entries[i].0 == k@ {
                            assert(0 <= i < old_entries.len() && old_entries[i].0 == k@);
                        }
                    } else {
                        assert(old_entries[i].0 != old_entries[j].0);
                    }
                }
                assert(self.view() =~= bumped(before, k@)) by {
                    assert forall|kk: PairKey| #[trigger] self.view().contains_key(kk) == bumped(before, k@).contains_key(kk) by {
                        if kk == k@ {
                            let w = old_entries.len() as int;
                            assert(0 <= w < self.entries().len() && self.entries()[w].0 == kk);
                            assert(self.view().contains_key(kk));
                        } else if before.contains_key(kk) {
                            let j = choose|j: int| 0 <= j < old_entries.len() && old_entries[j].0 == kk;
                            assert(0 <= j < self.entries().len() && self.entries()[j].0 == kk);
                            assert(self.view().contains_key(kk));
                        } else if self.view().contains_key(kk) {
                            let j = choose|j: int| 0 <= j < self.entries().len() && self.entries()[j].0 == kk;
                            assert(j < old_entries.len());
                            assert(old_entries[j].0 == kk);
                            assert(before.contains_key(kk));
                        }
                    }
                    assert forall|kk: PairKey| #[trigger] self.view().contains_key(kk) implies self.view()[kk] == bumped(before, k@)[kk] by {
                        let j = choose|j: int| 0 <= j < self.entries().len() && self.entries()[j].0 == kk;
                        self.lemma_view_at(j);
                        if j != old_entries.len() {
                            assert(old_entries[j] == self.entries()[j]);
                            assert(0 <= j < old_entries.len() && old_entries[j].0 == kk);
                            let jj = choose|jj: int| 0 <= jj < old_entries.len() && old_entries[jj].0 == kk;
                            if jj != j {
                                if jj < j {
                                    assert(old_entries[jj].0 != old_entries[j].0);
                                } else {
                                    assert(old_entries[j].0 != old_entries[jj].0);
                                }
                            }
                        }
                    }
                }
            },
        }
    }
}

} // verus!
