//! Counters keyed by a label: a small map from label to count that keeps one
//! entry per distinct label, in first-seen order.
use vstd::prelude::*;
use crate::text::text_eq;

verus! {

/// `x + 1`, wrapping to 0 after the largest `u64` (as `AtomicU64::fetch_add`
/// does).
pub open spec fn bump(x: u64) -> u64 {
    if x == u64::MAX { 0 } else { (x + 1) as u64 }
}

pub fn bump_count(x: u64) -> (r: u64)
    ensures
        r == bump(x),
{
    if x == u64::MAX { 0 } else { x + 1 }
}

/// Counts keyed by text labels.
pub struct TextCounts {
    entries: Vec<(String, u64)>,
}

/// Counts keyed by numeric labels (HTTP statuses).
pub struct StatusCounts {
    entries: Vec<(u16, u64)>,
}

impl TextCounts {
    /// The entries as (label, count) pairs in first-seen order.
    pub closed spec fn pairs(&self) -> Seq<(Seq<char>, u64)> {
        self.entries@.map_values(|e: (String, u64)| (e.0@, e.1))
    }

    /// No label has two entries.
    pub open spec fn wf(&self) -> bool {
        forall|i: int, j: int| 0 <= i < j < self.pairs().len() ==> #[trigger] self.pairs()[i].0 != #[trigger] self.pairs()[j].0
    }

    /// The count of a label, if it was ever counted.
    pub open spec fn count(&self, label: Seq<char>) -> Option<u64> {
        if exists|i: int| 0 <= i < self.pairs().len() && #[trigger] self.pairs()[i].0 == label {
            Some(self.pairs()[choose|i: int| 0 <= i < self.pairs().len() && #[trigger] self.pairs()[i].0 == label].1)
        } else {
            None
        }
    }

    pub fn new() -> (r: Self)
        ensures
            r.wf(),
            r.pairs().len() == 0,
            forall|l: Seq<char>| r.count(l) is None,
    {
        TextCounts { entries: Vec::new() }
    }

    /// Number of distinct labels.
    pub fn len(&self) -> (r: usize)
        ensures
            r == self.pairs().len(),
    {
        self.entries.len()
    }

    fn position(&self, label: &str) -> (r: Option<usize>)
        requires
            self.wf(),
        ensures
            match r {
                Some(i) => i < self.pairs().len() && self.pairs()[i as int].0 == label@,
                None => forall|i: int| 0 <= i < self.pairs().len() ==> #[trigger] self.pairs()[i].0 != label@,
            },
    {
        let mut i: usize = 0;
        while i < self.entries.len()
            invariant
                i <= self.entries@.len(),
                forall|k: int| 0 <= k < i ==> #[trigger] self.pairs()[k].0 != label@,
            decreases self.entries@.len() - i,
        {
            if text_eq(self.entries[i].0.as_str(), label) {
                return Some(i);
            }
            i = i + 1;
        }
        None
    }

    /// The count of a label.
    pub fn get(&self, label: &str) -> (r: Option<u64>)
        requires
            self.wf(),
        ensures
            r == self.count(label@),
    {
        match self.position(label) {
            Some(i) => {
                proof { self.lemma_count_at(i as int); }
                Some(self.entries[i].1)
            },
            None => None,
        }
    }

    /// Whether a label was counted.
    pub fn contains(&self, label: &str) -> (r: bool)
        requires
            self.wf(),
        ensures
            r == (self.count(label@) is Some),
    {
        self.position(label).is_some()
    }

    proof fn lemma_count_at(&self, i: int)
        requires
            self.wf(),
            0 <= i < self.pairs().len(),
        ensures
            self.count(self.pairs()[i].0) == Some(self.pairs()[i].1),
    {
        let l = self.pairs()[i].0;
        assert(self.pairs()[i].0 == l);
        let j = choose|j: int| 0 <= j < self.pairs().len() && #[trigger] self.pairs()[j].0 == l;
        if j != i {
            if j < i {
                assert(self.pairs()[j].0 != self.pairs()[i].0);
            } else {
                assert(self.pairs()[i].0 != self.pairs()[j].0);
            }
        }
    }

    /// Adds one to the count of `label`, creating it at 1.
    pub fn increment(&mut self, label: &str)
        requires
            old(self).wf(),
        ensures
            final(self).wf(),
            final(self).count(label@) == Some(bump(match old(self).count(label@) { Some(c) => c, None => 0 })),
            forall|l: Seq<char>| l != label@ ==> final(self).count(l) == old(self).count(l),
            final(self).pairs().len() == old(self).pairs().len() + (if old(self).count(label@) is None { 1int } else { 0int }),
    {
        match self.position(label) {
            Some(i) => {
                proof { self.lemma_count_at(i as int); }
                let ghost before = self.pairs();
                let c = bump_count(self.entries[i].1);
                let key = self.entries[i].0.clone();
                self.entries.set(i, (key, c));
                proof {
                    assert(self.pairs() =~= before.update(i as int, (before[i as int].0, c)));
                    self.lemma_count_at(i as int);
                    assert forall|l: Seq<char>| l != label@ implies self.count(l) == old(self).count(l) by {
                        if exists|k: int| 0 <= k < before.len() && #[trigger] before[k].0 == l {
                            let k = choose|k: int| 0 <= k < before.len() && #[trigger] before[k].0 == l;
                            old(self).lemma_count_at(k);
                            assert(self.pairs()[k].0 == l);
                            self.lemma_count_at(k);
                        } else {
                            assert forall|k: int| 0 <= k < self.pairs().len() implies #[trigger] self.pairs()[k].0 != l by {
                                assert(self.pairs()[k].0 == before[k].0);
                            }
                        }
                    }
                }
            },
            None => {
                let ghost before = self.pairs();
                self.entries.push((crate::text::owned(label), 1));
                proof {
                    assert(self.pairs() =~= before.push((label@, 1u64)));
                    let n = before.len() as int;
                    self.lemma_count_at(n);
                    assert forall|l: Seq<char>| l != label@ implies self.count(l) == old(self).count(l) by {
                        if exists|k: int| 0 <= k < before.len() && #[trigger] before[k].0 == l {
                            let k = choose|k: int| 0 <= k < before.len() && #[trigger] before[k].0 == l;
                            old(self).lemma_count_at(k);
                            assert(self.pairs()[k] == before[k]);
                            self.lemma_count_at(k);
                        } else {
                            assert forall|k: int| 0 <= k < self.pairs().len() implies #[trigger] self.pairs()[k].0 != l by {
                                if k < n {
                                    assert(self.pairs()[k] == before[k]);
                                }
                            }
                        }
                    }
                }
            },
        }
    }

    /// The (label, count) pairs, in first-seen order.
    pub fn to_vec(&self) -> (r: Vec<(String, u64)>)
        ensures
            r@.map_values(|e: (String, u64)| (e.0@, e.1)) == self.pairs(),
    {
        let mut out: Vec<(String, u64)> = Vec::new();
        let mut i: usize = 0;
        while i < self.entries.len()
            invariant
                i <= self.entries@.len(),
                out@.map_values(|e: (String, u64)| (e.0@, e.1)) == self.pairs().take(i as int),
            decreases self.entries@.len() - i,
        {
            let key = self.entries[i].0.clone();
            let ghost prev = out@;
            out.push((key, self.entries[i].1));
            proof {
                assert(out@ == prev.push((key, self.entries@[i as int].1)));
                assert(self.pairs()[i as int] == (self.entries@[i as int].0@, self.entries@[i as int].1));
                assert(out@.map_values(|e: (String, u64)| (e.0@, e.1)) =~= prev.map_values(|e: (String, u64)| (e.0@, e.1)).push((key@, self.entries@[i as int].1)));
                assert(self.pairs().take(i + 1) =~= self.pairs().take(i as int).push(self.pairs()[i as int]));
            }
            i = i + 1;
        }
        assert(self.pairs().take(i as int) =~= self.pairs());
        out
    }
}

impl StatusCounts {
    /// The entries as (status, count) pairs in first-seen order.
    pub closed spec fn pairs(&self) -> Seq<(u16, u64)> {
        self.entries@
    }

    /// No status has two entries.
    pub open spec fn wf(&self) -> bool {
        forall|i: int, j: int| 0 <= i < j < self.pairs().len() ==> #[trigger] self.pairs()[i].0 != #[trigger] self.pairs()[j].0
    }

    /// The count of a status, if it was ever counted.
    pub open spec fn count(&self, label: u16) -> Option<u64> {
        if exists|i: int| 0 <= i < self.pairs().len() && #[trigger] self.pairs()[i].0 == label {
            Some(self.pairs()[choose|i: int| 0 <= i < self.pairs().len() && #[trigger] self.pairs()[i].0 == label].1)
        } else {
            None
        }
    }

    pub fn new() -> (r: Self)
        ensures
            r.wf(),
            r.pairs().len() == 0,
            forall|l: u16| r.count(l) is None,
    {
        StatusCounts { entries: Vec::new() }
    }

    /// Number of distinct statuses.
    pub fn len(&self) -> (r: usize)
        ensures
            r == self.pairs().len(),
    {
        self.entries.len()
    }

    fn position(&self, label: u16) -> (r: Option<usize>)
        requires
            self.wf(),
        ensures
            match r {
                Some(i) => i < self.pairs().len() && self.pairs()[i as int].0 == label,
                None => forall|i: int| 0 <= i < self.pairs().len() ==> #[trigger] self.pairs()[i].0 != label,
            },
    {
        let mut i: usize = 0;
        while i < self.entries.len()
            invariant
                i <= self.entries@.len(),
                forall|k: int| 0 <= k < i ==> #[trigger] self.pairs()[k].0 != label,
            decreases self.entries@.len() - i,
        {
            if self.entries[i].0 == label {
                return Some(i);
            }
            i = i + 1;
        }
        None
    }

    proof fn lemma_count_at(&self, i: int)
        requires
            self.wf(),
            0 <= i < self.pairs().len(),
        ensures
            self.count(self.pairs()[i].0) == Some(self.pairs()[i].1),
    {
        let l = self.pairs()[i].0;
        assert(self.pairs()[i].0 == l);
        let j = choose|j: int| 0 <= j < self.pairs().len() && #[trigger] self.pairs()[j].0 == l;
        if j != i {
            if j < i {
                assert(self.pairs()[j].0 != self.pairs()[i].0);
            } else {
                assert(self.pairs()[i].0 != self.pairs()[j].0);
            }
        }
    }

    /// The count of a status.
    pub fn get(&self, label: u16) -> (r: Option<u64>)
        requires
            self.wf(),
        ensures
            r == self.count(label),
    {
        match self.position(label) {
            Some(i) => {
                proof { self.lemma_count_at(i as int); }
                Some(self.entries[i].1)
            },
            None => None,
        }
    }

    /// Adds one to the count of `label`, creating it at 1.
    pub fn increment(&mut self, label: u16)
        requires
            old(self).wf(),
        ensures
            final(self).wf(),
            final(self).count(label) == Some(bump(match old(self).count(label) { Some(c) => c, None => 0 })),
            forall|l: u16| l != label ==> final(self).count(l) == old(self).count(l),
            final(self).pairs().len() == old(self).pairs().len() + (if old(self).count(label) is None { 1int } else { 0int }),
    {
        match self.position(label) {
            Some(i) => {
                proof { self.lemma_count_at(i as int); }
                let ghost before = self.pairs();
                let c = bump_count(self.entries[i].1);
                self.entries.set(i, (label, c));
                proof {
                    assert(self.pairs() =~= before.update(i as int, (label, c)));
                    self.lemma_count_at(i as int);
                    assert forall|l: u16| l != label implies self.count(l) == old(self).count(l) by {
                        if exists|k: int| 0 <= k < before.len() && #[trigger] before[k].0 == l {
                            let k = choose|k: int| 0 <= k < before.len() && #[trigger] before[k].0 == l;
                            old(self).lemma_count_at(k);
                            assert(self.pairs()[k].0 == l);
                            self.lemma_count_at(k);
                        } else {
                            assert forall|k: int| 0 <= k < self.pairs().len() implies #[trigger] self.pairs()[k].0 != l by {
                                assert(self.pairs()[k].0 == before[k].0 || k == i);
                            }
                        }
                    }
                }
            },
            None => {
                let ghost before = self.pairs();
                self.entries.push((label, 1));
                proof {
                    assert(self.pairs() =~= before.push((label, 1u64)));
                    let n = before.len() as int;
                    self.lemma_count_at(n);
                    assert forall|l: u16| l != label implies self.count(l) == old(self).count(l) by {
                        if exists|k: int| 0 <= k < before.len() && #[trigger] before[k].0 == l {
                            let k = choose|k: int| 0 <= k < before.len() && #[trigger] before[k].0 == l;
                            old(self).lemma_count_at(k);
                            assert(self.pairs()[k] == before[k]);
                            self.lemma_count_at(k);
                        } else {
                            assert forall|k: int| 0 <= k < self.pairs().len() implies #[trigger] self.pairs()[k].0 != l by {
                                if k < n {
                                    assert(self.pairs()[k] == before[k]);
                                }
                            }
                        }
                    }
                }
            },
        }
    }

    /// The (status, count) pairs, in first-seen order.
    pub fn to_vec(&self) -> (r: Vec<(u16, u64)>)
        ensures
            r@ == self.pairs(),
    {
        let mut out: Vec<(u16, u64)> = Vec::new();
        let mut i: usize = 0;
        while i < self.entries.len()
            invariant
                i <= self.entries@.len(),
                out@ == self.pairs().take(i as int),
            decreases self.entries@.len() - i,
        {
            out.push((self.entries[i].0, self.entries[i].1));
            assert(out@ =~= self.pairs().take(i + 1));
            i = i + 1;
        }
        assert(self.pairs().take(i as int) =~= self.pairs());
        out
    }
}

} // verus!
