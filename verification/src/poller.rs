//! One round of polling: every listed container becomes a sample taken at the
//! same instant.

use vstd::prelude::*;
use crate::domain::{Container, Sample, SampleView, Timestamp};
use crate::runtime::RuntimeError;
use crate::store::{history_of, newest_first, record_all, StoreView};
use crate::store_laws::{lemma_recent_after_record, samples_for, valid};

verus! {

/// Why a round of polling failed.
#[derive(Debug, PartialEq, Eq)]
pub enum PollError {
    Runtime(RuntimeError),
    Store(crate::store::StoreError),
}

/// The sample a round taken at `now` records for a container.
pub open spec fn sample_of(now: Timestamp, c: Container) -> SampleView {
    SampleView { at: now, container_id: c.id@, state: c.state@ }
}

/// The samples of one round: one per listed container, in listing order, all
/// at `now`.
pub fn samples_at(now: Timestamp, containers: &Vec<Container>) -> (r: Vec<Sample>)
    ensures
        r@.len() == containers@.len(),
        forall|i: int| 0 <= i < r@.len() ==> #[trigger] r@[i]@ == sample_of(now, containers@[i]),
        forall|i: int| 0 <= i < r@.len() ==> {
            &&& (#[trigger] r@[i]).at == now
            &&& r@[i].container_id == containers@[i].id
            &&& r@[i].state == containers@[i].state
        },
{
    let n = containers.len();
    let mut out: Vec<Sample> = Vec::new();
    let mut k: usize = 0;
    while k < n
        invariant
            n == containers@.len(),
            k <= n,
            out@.len() == k,
            forall|i: int| 0 <= i < k ==> #[trigger] out@[i]@ == sample_of(now, containers@[i]),
            forall|i: int| 0 <= i < k ==> {
                &&& (#[trigger] out@[i]).at == now
                &&& out@[i].container_id == containers@[i].id
                &&& out@[i].state == containers@[i].state
            },
        decreases n - k,
    {
        out.push(Sample::new(now, &containers[k]));
        k = k + 1;
    }
    out
}

/// The sample a round records for a container carries the instant of the
/// round, the container's id and exactly the state the container reported.
pub proof fn lemma_sample_of_fields(now: Timestamp, c: Container)
    ensures
        sample_of(now, c).at == now,
        sample_of(now, c).container_id == c.id@,
        sample_of(now, c).state == c.state@,
{
}

proof fn lemma_samples_for_last(ss: Seq<SampleView>, id: Seq<char>, i: int)
    requires
        0 <= i < ss.len(),
        ss[i].container_id == id,
        forall|j: int| i < j < ss.len() ==> (#[trigger] ss[j]).container_id != id,
    ensures
        samples_for(ss, id).len() > 0,
        samples_for(ss, id).last() == ss[i],
    decreases ss.len(),
{
    if i < ss.len() - 1 {
        let pre = ss.drop_last();
        assert forall|j: int| i < j < pre.len() implies (#[trigger] pre[j]).container_id != id by {
            assert(pre[j] == ss[j]);
        }
        lemma_samples_for_last(pre, id, i);
        assert(ss.last() == ss[ss.len() - 1]);
    }
}

/// After a round is recorded, the newest sample of every listed container is
/// the one just taken, with the state the runtime reported, provided no two
/// listed containers share an id.
pub proof fn lemma_round_is_newest(v: StoreView, now: Timestamp, containers: Seq<Container>, i: int)
    requires
        valid(v),
        0 <= i < containers.len(),
        forall|a: int, b: int| 0 <= a < b < containers.len() ==> containers[a].id@ != containers[b].id@,
    ensures
        ({
            let round = Seq::new(containers.len(), |j: int| sample_of(now, containers[j]));
            newest_first(history_of(record_all(v, round), containers[i].id@), 1) == seq![sample_of(now, containers[i])]
        }),
{
    let round = Seq::new(containers.len(), |j: int| sample_of(now, containers[j]));
    let id = containers[i].id@;
    assert forall|j: int| i < j < round.len() implies (#[trigger] round[j]).container_id != id by {
        assert(containers[i].id@ != containers[j].id@);
    }
    lemma_samples_for_last(round, id, i);
    lemma_recent_after_record(v, round, id, 1);
    let x = history_of(v, id) + samples_for(round, id);
    assert(x.last() == round[i]);
    assert(newest_first(x, 1) =~= seq![sample_of(now, containers[i])]);
}

} // verus!
