//! Bounded, per-container history of samples.

use vstd::prelude::*;
use std::collections::VecDeque;
use crate::domain::{Sample, SampleView};
use crate::text::str_eq;
use crate::store_laws::valid;

verus! {

/// Why a store could not be read or written.
#[derive(Debug, PartialEq, Eq)]
pub enum StoreError {
    /// The lock guarding a shared store was poisoned by a panicking writer.
    Lock(String),
}

/// The mathematical value of an [`InMemoryStore`]: the per-container limit,
/// the containers in the order they were first seen, and each one's history,
/// oldest sample first.
pub struct StoreView {
    pub max_samples: nat,
    pub order: Seq<Seq<char>>,
    pub histories: Map<Seq<char>, Seq<SampleView>>,
}

/// The history kept for `id`: empty for a container never seen.
pub open spec fn history_of(v: StoreView, id: Seq<char>) -> Seq<SampleView> {
    if v.histories.contains_key(id) {
        v.histories[id]
    } else {
        Seq::empty()
    }
}

/// How many samples a history holds at most: the limit, or one sample when
/// the limit is zero, since the newest sample is always kept.
pub open spec fn capacity(max_samples: nat) -> nat {
    if max_samples == 0 {
        1
    } else {
        max_samples
    }
}

/// Appends `s` to a history, first dropping the oldest sample when the
/// history has reached the limit.
pub open spec fn push_bounded(h: Seq<SampleView>, s: SampleView, max_samples: nat) -> Seq<SampleView> {
    let kept = if h.len() >= max_samples && h.len() > 0 {
        h.drop_first()
    } else {
        h
    };
    kept.push(s)
}

/// The store after recording one sample.
pub open spec fn record_one(v: StoreView, s: SampleView) -> StoreView {
    let id = s.container_id;
    StoreView {
        max_samples: v.max_samples,
        order: if v.histories.contains_key(id) {
            v.order
        } else {
            v.order.push(id)
        },
        histories: v.histories.insert(id, push_bounded(history_of(v, id), s, v.max_samples)),
    }
}

/// The store after recording `samples` in order.
pub open spec fn record_all(v: StoreView, samples: Seq<SampleView>) -> StoreView
    decreases samples.len(),
{
    if samples.len() == 0 {
        v
    } else {
        record_one(record_all(v, samples.drop_last()), samples.last())
    }
}

/// The newest `limit` samples of a history, newest first.
pub open spec fn newest_first(h: Seq<SampleView>, limit: nat) -> Seq<SampleView> {
    let n = if limit < h.len() {
        limit
    } else {
        h.len()
    };
    Seq::new(n, |i: int| h[h.len() - 1 - i])
}

/// The values of a sequence of samples.
pub open spec fn sample_views(s: Seq<Sample>) -> Seq<SampleView> {
    s.map_values(|x: Sample| x@)
}

/// Keeps the most recent samples of each container, up to a fixed number per
/// container.
pub struct InMemoryStore {
    max_samples: usize,
    /// Container ids, in the order their first sample arrived.
    ids: Vec<String>,
    /// `histories[i]` belongs to `ids[i]`, oldest sample first.
    histories: Vec<VecDeque<Sample>>,
}

impl View for InMemoryStore {
    type V = StoreView;

    closed spec fn view(&self) -> StoreView {
        let keys = self.ids@.map_values(|s: String| s@);
        StoreView {
            max_samples: self.max_samples as nat,
            order: keys,
            histories: Map::new(
                |k: Seq<char>| keys.contains(k),
                |k: Seq<char>| sample_views(self.histories@[keys.index_of(k)]@),
            ),
        }
    }
}

impl InMemoryStore {
    /// The store's internal invariant: one history per id, no id twice.
    pub closed spec fn wf(&self) -> bool {
        &&& self.ids@.len() == self.histories@.len()
        &&& self.ids@.map_values(|s: String| s@).no_duplicates()
    }

    proof fn lemma_lookup(&self, i: int)
        requires
            self.wf(),
            0 <= i < self.ids@.len(),
        ensures
            self@.histories.contains_key(self.ids@[i]@),
            self@.histories[self.ids@[i]@] == sample_views(self.histories@[i]@),
    {
        let keys = self.ids@.map_values(|s: String| s@);
        assert(keys[i] == self.ids@[i]@);
        assert(keys.contains(keys[i]));
        let j = keys.index_of(keys[i]);
        assert(keys[j] == keys[i]);
    }

    pub fn new(max_samples: usize) -> (r: InMemoryStore)
        ensures
            r.wf(),
            r@.max_samples == max_samples,
            r@.order == Seq::<Seq<char>>::empty(),
            r@.histories == Map::<Seq<char>, Seq<SampleView>>::empty(),
            valid(r@),
    {
        let r = InMemoryStore { max_samples, ids: Vec::new(), histories: Vec::new() };
        proof {
            assert(r@.histories =~= Map::<Seq<char>, Seq<SampleView>>::empty());
            assert(r@.order =~= Seq::<Seq<char>>::empty());
        }
        r
    }

    /// Where `id`'s history is kept, if it has one.
    fn position(&self, id: &str) -> (r: Option<usize>)
        requires
            self.wf(),
        ensures
            match r {
                Some(i) => i < self.ids@.len() && self.ids@[i as int]@ == id@,
                None => !self@.histories.contains_key(id@),
            },
    {
        let n = self.ids.len();
        let mut j: usize = 0;
        while j < n
            invariant
                n == self.ids@.len(),
                j <= n,
                forall|k: int| 0 <= k < j ==> self.ids@[k]@ != id@,
            decreases n - j,
        {
            if str_eq(self.ids[j].as_str(), id) {
                return Some(j);
            }
            j = j + 1;
        }
        proof {
            let keys = self.ids@.map_values(|s: String| s@);
            if keys.contains(id@) {
                let k = choose|k: int| 0 <= k < keys.len() && keys[k] == id@;
                assert(self.ids@[k]@ == id@);
            }
        }
        None
    }

    /// Every id's history, as the view presents it.
    proof fn lemma_all_lookups(&self)
        requires
            self.wf(),
        ensures
            forall|i: int| 0 <= i < self.ids@.len() ==> {
                &&& #[trigger] self@.histories.contains_key(self.ids@[i]@)
                &&& self@.histories[self.ids@[i]@] == sample_views(self.histories@[i]@)
            },
            forall|k: Seq<char>| #[trigger] self@.histories.contains_key(k) ==>
                exists|i: int| 0 <= i < self.ids@.len() && self.ids@[i]@ == k,
    {
        assert forall|i: int| 0 <= i < self.ids@.len() implies {
            &&& #[trigger] self@.histories.contains_key(self.ids@[i]@)
            &&& self@.histories[self.ids@[i]@] == sample_views(self.histories@[i]@)
        } by {
            self.lemma_lookup(i);
        }
        let keys = self.ids@.map_values(|s: String| s@);
        assert forall|k: Seq<char>| #[trigger] self@.histories.contains_key(k) implies
            exists|i: int| 0 <= i < self.ids@.len() && self.ids@[i]@ == k by {
            let i = choose|i: int| 0 <= i < keys.len() && keys[i] == k;
            assert(self.ids@[i]@ == k);
        }
    }

    /// Records one sample at the end of its container's history.
    fn record_sample(&mut self, s: &Sample)
        requires
            old(self).wf(),
        ensures
            final(self).wf(),
            final(self)@ == record_one(old(self)@, s@),
    {
        let ghost pre: InMemoryStore = *self;
        let ghost id = s.container_id@;
        proof {
            pre.lemma_all_lookups();
        }
        let max = self.max_samples;
        match self.position(s.container_id.as_str()) {
            Some(i) => {
                proof {
                    pre.lemma_lookup(i as int);
                }
                let q = &mut self.histories[i];
                if q.len() >= max {
                    q.pop_front();
                }
                q.push_back(s.clone());
                proof {
                    let keys = self.ids@.map_values(|x: String| x@);
                    assert(keys =~= pre.ids@.map_values(|x: String| x@));
                    assert(sample_views(self.histories@[i as int]@) =~= push_bounded(
                        history_of(pre@, id),
                        s@,
                        max as nat,
                    ));
                    self.lemma_all_lookups();
                    let expected = record_one(pre@, s@);
                    assert forall|k: Seq<char>| #[trigger] self@.histories.contains_key(k) implies
                        self@.histories[k] == expected.histories[k] by {
                        let j = choose|j: int| 0 <= j < self.ids@.len() && self.ids@[j]@ == k;
                        if j != i {
                            assert(self.histories@[j] == pre.histories@[j]);
                            assert(keys[j] != keys[i as int]);
                        }
                    }
                    assert(self@.histories =~= expected.histories);
                }
            },
            None => {
                let mut q: VecDeque<Sample> = VecDeque::new();
                q.push_back(s.clone());
                self.ids.push(s.container_id.clone());
                self.histories.push(q);
                proof {
                    let keys = self.ids@.map_values(|x: String| x@);
                    let pre_keys = pre.ids@.map_values(|x: String| x@);
                    assert(keys =~= pre_keys.push(id));
                    assert(!pre_keys.contains(id));
                    assert forall|a: int, b: int| 0 <= a < b < keys.len() implies keys[a] != keys[b] by {
                        if b == keys.len() - 1 {
                            assert(pre_keys.contains(keys[a]));
                        }
                    }
                    assert(keys.no_duplicates());
                    let n = pre.ids@.len() as int;
                    assert(sample_views(self.histories@[n]@) =~= push_bounded(
                        history_of(pre@, id),
                        s@,
                        max as nat,
                    ));
                    self.lemma_all_lookups();
                    let expected = record_one(pre@, s@);
                    assert forall|k: Seq<char>| #[trigger] self@.histories.contains_key(k) implies
                        self@.histories[k] == expected.histories[k] by {
                        let j = choose|j: int| 0 <= j < self.ids@.len() && self.ids@[j]@ == k;
                        if j != n {
                            assert(self.histories@[j] == pre.histories@[j]);
                            assert(pre.ids@[j]@ == k);
                        }
                    }
                    assert forall|k: Seq<char>| #[trigger] expected.histories.contains_key(k) implies
                        self@.histories.contains_key(k) by {
                        if k != id {
                            let j = choose|j: int| 0 <= j < pre.ids@.len() && pre.ids@[j]@ == k;
                            assert(self.ids@[j]@ == k);
                        } else {
                            assert(self.ids@[n]@ == id);
                        }
                    }
                    assert(self@.histories =~= expected.histories);
                    assert(self@.order =~= expected.order);
                }
            },
        }
    }

    /// Appends each sample to its container's history, in order, dropping the
    /// oldest sample of a history that has reached the limit.
    pub fn record(&mut self, samples: &[Sample])
        requires
            old(self).wf(),
        ensures
            final(self).wf(),
            final(self)@ == record_all(old(self)@, sample_views(samples@)),
    {
        let ghost start = self@;
        let n = samples.len();
        let mut i: usize = 0;
        while i < n
            invariant
                n == samples@.len(),
                i <= n,
                self.wf(),
                self@ == record_all(start, sample_views(samples@.subrange(0, i as int))),
            decreases n - i,
        {
            self.record_sample(&samples[i]);
            proof {
                let before = sample_views(samples@.subrange(0, i as int));
                let after = sample_views(samples@.subrange(0, i + 1));
                assert(after.drop_last() =~= before);
                assert(after.last() == samples@[i as int]@);
            }
            i = i + 1;
        }
        proof {
            assert(samples@.subrange(0, n as int) =~= samples@);
        }
    }

    /// The newest `limit` samples of container `id`, newest first; empty for
    /// a container never seen.
    pub fn recent(&self, id: &str, limit: usize) -> (r: Vec<Sample>)
        requires
            self.wf(),
        ensures
            sample_views(r@) == newest_first(history_of(self@, id@), limit as nat),
            ({
                let h = history_of(self@, id@);
                &&& r@.len() == (if (limit as nat) < h.len() { limit as nat } else { h.len() })
                &&& forall|i: int| 0 <= i < r@.len() ==> (#[trigger] r@[i])@ == h[h.len() - 1 - i]
            }),
    {
        let mut out: Vec<Sample> = Vec::new();
        match self.position(id) {
            None => {
                proof {
                    assert(sample_views(out@) =~= newest_first(history_of(self@, id@), limit as nat));
                }
                out
            },
            Some(p) => {
                proof {
                    self.lemma_lookup(p as int);
                }
                let q = &self.histories[p];
                let len = q.len();
                let n = if limit < len {
                    limit
                } else {
                    len
                };
                let ghost h = sample_views(q@);
                let mut k: usize = 0;
                while k < n
                    invariant
                        n <= len,
                        len == q@.len(),
                        h == sample_views(q@),
                        k <= n,
                        out@.len() == k,
                        forall|j: int| 0 <= j < k ==> #[trigger] out@[j]@ == h[len - 1 - j],
                    decreases n - k,
                {
                    out.push(q[len - 1 - k].clone());
                    k = k + 1;
                }
                proof {
                    assert(sample_views(out@) =~= newest_first(h, limit as nat));
                    assert(h == history_of(self@, id@));
                }
                out
            },
        }
    }

    /// Every container that has a history, in the order they were first seen.
    pub fn registered_containers(&self) -> (r: Vec<String>)
        requires
            self.wf(),
        ensures
            r@.map_values(|s: String| s@) == self@.order,
    {
        let mut out: Vec<String> = Vec::new();
        let n = self.ids.len();
        let mut k: usize = 0;
        while k < n
            invariant
                n == self.ids@.len(),
                k <= n,
                out@.len() == k,
                forall|j: int| 0 <= j < k ==> #[trigger] out@[j] == self.ids@[j],
            decreases n - k,
        {
            out.push(self.ids[k].clone());
            k = k + 1;
        }
        proof {
            assert(out@.map_values(|s: String| s@) =~= self@.order);
        }
        out
    }
}

} // verus!
