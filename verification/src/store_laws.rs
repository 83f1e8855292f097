//! What recording and reading a store promise across calls.

use vstd::prelude::*;
use crate::domain::SampleView;
use crate::store::{
    capacity, history_of, newest_first, push_bounded, record_all, record_one, StoreView,
};

verus! {

/// The consistency every store value keeps: each container listed once, a
/// history exactly for the listed containers, no history longer than the
/// capacity and none empty, and every sample filed under its own container.
pub open spec fn valid(v: StoreView) -> bool {
    &&& v.order.no_duplicates()
    &&& forall|k: Seq<char>| #[trigger] v.histories.contains_key(k) <==> v.order.contains(k)
    &&& forall|k: Seq<char>| #[trigger] v.histories.contains_key(k) ==> {
        &&& 1 <= v.histories[k].len() <= capacity(v.max_samples)
        &&& forall|j: int| 0 <= j < v.histories[k].len() ==> (#[trigger] v.histories[k][j]).container_id == k
    }
}

/// The samples of `samples` that belong to container `id`, in order.
pub open spec fn samples_for(samples: Seq<SampleView>, id: Seq<char>) -> Seq<SampleView>
    decreases samples.len(),
{
    if samples.len() == 0 {
        Seq::empty()
    } else {
        let rest = samples_for(samples.drop_last(), id);
        if samples.last().container_id == id {
            rest.push(samples.last())
        } else {
            rest
        }
    }
}

/// The last `c` elements of `s`, or all of `s` when it is shorter.
pub open spec fn keep_last(s: Seq<SampleView>, c: nat) -> Seq<SampleView> {
    if s.len() <= c {
        s
    } else {
        s.subrange(s.len() - c, s.len() as int)
    }
}

proof fn lemma_push_bounded_keeps_last(x: Seq<SampleView>, s: SampleView, m: nat)
    ensures
        push_bounded(keep_last(x, capacity(m)), s, m) == keep_last(x.push(s), capacity(m)),
{
    let c = capacity(m);
    if x.len() >= c {
        let h = keep_last(x, c);
        assert(h.drop_first().push(s) =~= x.push(s).subrange(x.push(s).len() - c, x.push(s).len() as int));
    }
}

/// Recording one sample appends it to its container's history, dropping the
/// oldest samples only as far as needed to stay within the capacity; every
/// other history is unchanged.
pub proof fn lemma_record_one_history(v: StoreView, s: SampleView, other: Seq<char>)
    requires
        history_of(v, s.container_id).len() <= capacity(v.max_samples),
    ensures
        ({
            let old_h = history_of(v, s.container_id);
            let new_h = history_of(record_one(v, s), s.container_id);
            &&& new_h.len() == (if old_h.len() < capacity(v.max_samples) {
                old_h.len() + 1
            } else {
                capacity(v.max_samples)
            })
            &&& new_h == old_h.push(s).subrange(old_h.len() + 1 - new_h.len(), (old_h.len() + 1) as int)
            &&& new_h.last() == s
        }),
        other != s.container_id ==> history_of(record_one(v, s), other) == history_of(v, other),
        record_one(v, s).max_samples == v.max_samples,
{
    let old_h = history_of(v, s.container_id);
    let new_h = history_of(record_one(v, s), s.container_id);
    let c = capacity(v.max_samples);
    if old_h.len() < c {
        assert(new_h =~= old_h.push(s).subrange(0, (old_h.len() + 1) as int));
    } else {
        assert(new_h =~= old_h.push(s).subrange(1, (old_h.len() + 1) as int));
    }
}

proof fn lemma_record_one_valid(v: StoreView, s: SampleView)
    requires
        valid(v),
    ensures
        valid(record_one(v, s)),
{
    let id = s.container_id;
    let r = record_one(v, s);
    let h = history_of(v, id);
    let nh = push_bounded(h, s, v.max_samples);
    assert forall|j: int| 0 <= j < nh.len() implies (#[trigger] nh[j]).container_id == id by {
        if j < nh.len() - 1 {
            if h.len() >= v.max_samples && h.len() > 0 {
                assert(nh[j] == h[j + 1]);
            } else {
                assert(nh[j] == h[j]);
            }
        }
    }
    if !v.histories.contains_key(id) {
        assert forall|a: int, b: int| 0 <= a < b < r.order.len() implies r.order[a] != r.order[b] by {
            if b == r.order.len() - 1 {
                assert(v.order.contains(r.order[a]));
            }
        }
        assert forall|k: Seq<char>| #[trigger] r.histories.contains_key(k) <==> r.order.contains(k) by {
            if k == id {
                assert(r.order[r.order.len() - 1] == id);
            } else if v.order.contains(k) {
                let i = choose|i: int| 0 <= i < v.order.len() && v.order[i] == k;
                assert(r.order[i] == k);
            } else if r.order.contains(k) {
                let i = choose|i: int| 0 <= i < r.order.len() && r.order[i] == k;
                assert(v.order[i] == k);
            }
        }
    }
}

/// Recording keeps a store consistent.
pub proof fn lemma_record_keeps_valid(v: StoreView, samples: Seq<SampleView>)
    requires
        valid(v),
    ensures
        valid(record_all(v, samples)),
    decreases samples.len(),
{
    if samples.len() > 0 {
        lemma_record_keeps_valid(v, samples.drop_last());
        lemma_record_one_valid(record_all(v, samples.drop_last()), samples.last());
    }
}

/// Recording never changes the per-container limit.
pub proof fn lemma_record_keeps_limit(v: StoreView, samples: Seq<SampleView>)
    ensures
        record_all(v, samples).max_samples == v.max_samples,
    decreases samples.len(),
{
    if samples.len() > 0 {
        lemma_record_keeps_limit(v, samples.drop_last());
    }
}

/// After recording, a container's history is the newest samples of what it
/// held before followed by what was recorded for it, as many as the capacity
/// allows. Samples of other containers leave it alone.
pub proof fn lemma_record_history(v: StoreView, samples: Seq<SampleView>, id: Seq<char>)
    requires
        history_of(v, id).len() <= capacity(v.max_samples),
    ensures
        history_of(record_all(v, samples), id) == keep_last(
            history_of(v, id) + samples_for(samples, id),
            capacity(v.max_samples),
        ),
    decreases samples.len(),
{
    let c = capacity(v.max_samples);
    if samples.len() == 0 {
        assert(history_of(v, id) + samples_for(samples, id) =~= history_of(v, id));
    } else {
        let pre = samples.drop_last();
        let s = samples.last();
        lemma_record_history(v, pre, id);
        lemma_record_keeps_limit(v, pre);
        let r = record_all(v, pre);
        let x = history_of(v, id) + samples_for(pre, id);
        if s.container_id == id {
            lemma_push_bounded_keeps_last(x, s, v.max_samples);
            assert(x.push(s) =~= history_of(v, id) + samples_for(samples, id));
        } else {
            assert(history_of(record_one(r, s), id) == history_of(r, id));
        }
    }
}

proof fn lemma_newest_of_kept(x: Seq<SampleView>, c: nat, limit: nat)
    ensures
        newest_first(keep_last(x, c), limit) == newest_first(x, if limit < c { limit } else { c }),
{
    let k = keep_last(x, c);
    let l = if limit < c { limit } else { c };
    assert(newest_first(k, limit) =~= newest_first(x, l));
}

/// What a read gives back of the writes before it: the newest `limit`
/// samples of a container are the newest of its earlier history followed by
/// the samples recorded for it, at most as many as the capacity, newest first.
pub proof fn lemma_recent_after_record(
    v: StoreView,
    samples: Seq<SampleView>,
    id: Seq<char>,
    limit: nat,
)
    requires
        valid(v),
    ensures
        newest_first(history_of(record_all(v, samples), id), limit) == newest_first(
            history_of(v, id) + samples_for(samples, id),
            if limit < capacity(v.max_samples) {
                limit
            } else {
                capacity(v.max_samples)
            },
        ),
{
    lemma_record_history(v, samples, id);
    lemma_newest_of_kept(history_of(v, id) + samples_for(samples, id), capacity(v.max_samples), limit);
}

/// A read never returns more than `limit` samples, nor more than the capacity.
pub proof fn lemma_recent_bounded(v: StoreView, id: Seq<char>, limit: nat)
    requires
        valid(v),
    ensures
        newest_first(history_of(v, id), limit).len() <= limit,
        newest_first(history_of(v, id), limit).len() <= capacity(v.max_samples),
        forall|j: int| 0 <= j < newest_first(history_of(v, id), limit).len() ==>
            (#[trigger] newest_first(history_of(v, id), limit)[j]).container_id == id,
{
}

/// Recording lists each container once, keeps the containers listed before
/// in their place, and adds exactly those that received a sample.
pub proof fn lemma_record_order(v: StoreView, samples: Seq<SampleView>)
    requires
        valid(v),
    ensures
        record_all(v, samples).order.no_duplicates(),
        v.order.len() <= record_all(v, samples).order.len(),
        record_all(v, samples).order.subrange(0, v.order.len() as int) == v.order,
        forall|k: Seq<char>| #[trigger] record_all(v, samples).order.contains(k) <==> (v.order.contains(k)
            || exists|i: int| 0 <= i < samples.len() && samples[i].container_id == k),
    decreases samples.len(),
{
    lemma_record_keeps_valid(v, samples);
    if samples.len() > 0 {
        let pre = samples.drop_last();
        let s = samples.last();
        lemma_record_order(v, pre);
        lemma_record_keeps_valid(v, pre);
        let r = record_all(v, pre);
        let r2 = record_all(v, samples);
        assert(r2.order.subrange(0, v.order.len() as int) =~= v.order);
        assert forall|k: Seq<char>| #[trigger] r2.order.contains(k) <==> (v.order.contains(k)
            || exists|i: int| 0 <= i < samples.len() && samples[i].container_id == k) by {
            if r2.order.contains(k) && !r.order.contains(k) {
                assert(k == s.container_id);
                assert(samples[samples.len() - 1].container_id == k);
            }
            if exists|i: int| 0 <= i < samples.len() && samples[i].container_id == k {
                let i = choose|i: int| 0 <= i < samples.len() && samples[i].container_id == k;
                if i < samples.len() - 1 {
                    assert(pre[i].container_id == k);
                    assert(exists|i: int| 0 <= i < pre.len() && pre[i].container_id == k);
                    assert(r.order.contains(k));
                    let j = choose|j: int| 0 <= j < r.order.len() && r.order[j] == k;
                    assert(r2.order[j] == k);
                } else {
                    assert(r2.histories.contains_key(k));
                }
            }
            if v.order.contains(k) {
                let j = choose|j: int| 0 <= j < v.order.len() && v.order[j] == k;
                assert(r.order.subrange(0, v.order.len() as int)[j] == k);
                assert(r2.order[j] == k);
            }
            if r.order.contains(k) {
                let j = choose|j: int| 0 <= j < r.order.len() && r.order[j] == k;
                assert(r2.order[j] == k);
            }
        }
    }
}

} // verus!
