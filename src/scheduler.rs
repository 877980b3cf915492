//! The batch: tracks wait in submission order for one of a fixed number of
//! slots, run, and leave a result in their own entry.
use vstd::prelude::*;
use crate::track::DownloadTaskResult;

verus! {

/// Where a track of a batch stands.
#[derive(Debug, Clone, Copy, PartialEq, Eq, Structural)]
pub enum SlotState {
    Queued,
    Running,
    Finished,
}

/// How many of `s` are running.
pub open spec fn running_count(s: Seq<SlotState>) -> nat
    decreases s.len(),
{
    if s.len() == 0 {
        0
    } else {
        running_count(s.drop_last()) + if s.last() == SlotState::Running { 1nat } else { 0nat }
    }
}

proof fn lemma_running_update(s: Seq<SlotState>, i: int, v: SlotState)
    requires
        0 <= i < s.len(),
    ensures
        running_count(s.update(i, v)) + (if s[i] == SlotState::Running { 1nat } else { 0nat })
            == running_count(s) + (if v == SlotState::Running { 1nat } else { 0nat }),
    decreases s.len(),
{
    if i == s.len() - 1 {
        assert(s.update(i, v).drop_last() =~= s.drop_last());
    } else {
        lemma_running_update(s.drop_last(), i, v);
        assert(s.update(i, v).drop_last() =~= s.drop_last().update(i, v));
    }
}

/// The admission gate and the results of one batch.
pub struct BatchScheduler {
    /// The most tracks that may run at once.
    pub limit: usize,
    /// The first track not yet started; tracks are started in order.
    pub next: usize,
    /// How many tracks run now.
    pub running: usize,
    pub states: Vec<SlotState>,
    pub results: Vec<Option<DownloadTaskResult>>,
}

impl BatchScheduler {
    /// Consistency of the batch: no more than `limit` tracks run, tracks
    /// below index `next` have left the queue, and a track holds a result
    /// if and only if its state is `Finished`.
    pub open spec fn wf(&self) -> bool {
        &&& self.limit > 0
        &&& self.states@.len() == self.results@.len()
        &&& self.next <= self.states@.len()
        &&& self.running as nat == running_count(self.states@)
        &&& self.running <= self.limit
        &&& forall|i: int|
            0 <= i < self.states@.len() ==> (#[trigger] self.states@[i] == SlotState::Queued <==> i
                >= self.next)
        &&& forall|i: int|
            0 <= i < self.states@.len() ==> ((#[trigger] self.results@[i]) is Some
                <==> self.states@[i] == SlotState::Finished)
    }

    /// A batch of `total` queued tracks with `limit` slots.
    pub fn new(total: usize, limit: usize) -> (r: Self)
        requires
            limit > 0,
        ensures
            r.wf(),
            r.limit == limit,
            r.next == 0,
            r.states@.len() == total,
            forall|i: int| 0 <= i < total ==> #[trigger] r.states@[i] == SlotState::Queued,
    {
        let mut states: Vec<SlotState> = Vec::new();
        let mut results: Vec<Option<DownloadTaskResult>> = Vec::new();
        let mut i: usize = 0;
        while i < total
            invariant
                i <= total,
                states@.len() == i,
                results@.len() == i,
                running_count(states@) == 0,
                forall|k: int| 0 <= k < i ==> #[trigger] states@[k] == SlotState::Queued,
                forall|k: int| 0 <= k < i ==> (#[trigger] results@[k]) is None,
            decreases total - i,
        {
            let ghost before = states@;
            states.push(SlotState::Queued);
            assert(states@.drop_last() =~= before);
            results.push(None);
            i = i + 1;
        }
        BatchScheduler { limit, next: 0, running: 0, states, results }
    }

    /// Starts queued tracks, in order, while a slot is free. Returns the
    /// indices started.
    pub fn grant_slots(&mut self) -> (r: Vec<usize>)
        requires
            old(self).wf(),
        ensures
            final(self).wf(),
            final(self).limit == old(self).limit,
            final(self).results == old(self).results,
            final(self).next as int == old(self).next + r@.len(),
            final(self).running as int == old(self).running + r@.len(),
            forall|k: int| 0 <= k < r@.len() ==> #[trigger] r@[k] == old(self).next + k,
            final(self).next == old(self).states@.len() || final(self).running == final(self).limit,
            forall|i: int|
                0 <= i < old(self).states@.len() ==> #[trigger] final(self).states@[i] == (if old(
                    self,
                ).next <= i < final(self).next {
                    SlotState::Running
                } else {
                    old(self).states@[i]
                }),
            final(self).states@.len() == old(self).states@.len(),
    {
        let mut started: Vec<usize> = Vec::new();
        while self.running < self.limit && self.next < self.states.len()
            invariant
                self.wf(),
                self.limit == old(self).limit,
                self.results == old(self).results,
                self.states@.len() == old(self).states@.len(),
                self.next as int == old(self).next + started@.len(),
                self.running as int == old(self).running + started@.len(),
                forall|k: int| 0 <= k < started@.len() ==> #[trigger] started@[k] == old(self).next + k,
                forall|i: int|
                    0 <= i < old(self).states@.len() ==> #[trigger] self.states@[i] == (if old(
                        self,
                    ).next <= i < self.next {
                        SlotState::Running
                    } else {
                        old(self).states@[i]
                    }),
            decreases self.states@.len() - self.next,
        {
            let i = self.next;
            proof {
                lemma_running_update(self.states@, i as int, SlotState::Running);
            }
            self.states.set(i, SlotState::Running);
            started.push(i);
            self.next = i + 1;
            self.running = self.running + 1;
        }
        started
    }

    /// Records the result of a running track; no other entry changes.
    pub fn complete(&mut self, index: usize, result: DownloadTaskResult)
        requires
            old(self).wf(),
            index < old(self).states@.len(),
            old(self).states@[index as int] == SlotState::Running,
        ensures
            final(self).wf(),
            final(self).limit == old(self).limit,
            final(self).next == old(self).next,
            final(self).running == old(self).running - 1,
            final(self).states@ == old(self).states@.update(index as int, SlotState::Finished),
            final(self).results@ == old(self).results@.update(index as int, Some(result)),
    {
        proof {
            lemma_running_update(self.states@, index as int, SlotState::Finished);
        }
        self.states.set(index, SlotState::Finished);
        self.results.set(index, Some(result));
        self.running = self.running - 1;
    }

    /// Every track has finished.
    pub fn is_done(&self) -> (r: bool)
        requires
            self.wf(),
        ensures
            r == (forall|i: int| 0 <= i < self.states@.len() ==> #[trigger] self.states@[i] == SlotState::Finished),
    {
        let mut i: usize = 0;
        while i < self.states.len()
            invariant
                i <= self.states@.len(),
                forall|k: int| 0 <= k < i ==> #[trigger] self.states@[k] == SlotState::Finished,
            decreases self.states@.len() - i,
        {
            if self.states[i] != SlotState::Finished {
                return false;
            }
            i = i + 1;
        }
        true
    }

    /// The results of a finished batch, one per track, in submission order.
    pub fn into_results(self) -> (r: Vec<DownloadTaskResult>)
        requires
            self.wf(),
            forall|i: int| 0 <= i < self.states@.len() ==> #[trigger] self.states@[i] == SlotState::Finished,
        ensures
            r@.len() == self.results@.len(),
            forall|i: int| 0 <= i < r@.len() ==> self.results@[i] == Some(#[trigger] r@[i]),
    {
        let mut results = self.results;
        let n = results.len();
        let ghost all = results@;
        let mut out: Vec<DownloadTaskResult> = Vec::new();
        let mut i: usize = 0;
        while i < n
            invariant
                n == all.len(),
                i <= n,
                results@ == all.skip(i as int),
                out@.len() == i,
                forall|k: int| 0 <= k < i ==> all[k] == Some(#[trigger] out@[k]),
                forall|k: int| 0 <= k < n ==> (#[trigger] all[k]) is Some,
            decreases n - i,
        {
            let taken = results.remove(0);
            assert(results@ =~= all.skip(i + 1));
            assert(taken == all[i as int]);
            match taken {
                Some(res) => out.push(res),
                None => {
                    assert(false);
                },
            }
            i = i + 1;
        }
        out
    }
}

/// The admission law: in every well-formed state, and every method keeps
/// states well formed, no more tracks run than the limit allows.
pub proof fn admission_bounded(b: BatchScheduler)
    requires
        b.wf(),
    ensures
        running_count(b.states@) <= b.limit,
{
}

/// Results after recording each `(index, result)` in turn.
pub open spec fn recorded(start: Seq<Option<DownloadTaskResult>>, done: Seq<(int, DownloadTaskResult)>) -> Seq<
    Option<DownloadTaskResult>,
>
    decreases done.len(),
{
    if done.len() == 0 {
        start
    } else {
        recorded(start, done.drop_last()).update(done.last().0, Some(done.last().1))
    }
}

/// The isolation law: whatever the other tracks of a batch do, each track's
/// entry holds exactly the result its own run reported, and the batch keeps
/// one entry per track.
pub proof fn results_stay_separate(
    start: Seq<Option<DownloadTaskResult>>,
    done: Seq<(int, DownloadTaskResult)>,
)
    requires
        forall|k: int| 0 <= k < done.len() ==> 0 <= (#[trigger] done[k]).0 < start.len(),
        forall|a: int, b: int| 0 <= a < b < done.len() ==> (#[trigger] done[a]).0 != (#[trigger] done[b]).0,
    ensures
        recorded(start, done).len() == start.len(),
        forall|k: int| 0 <= k < done.len() ==> recorded(start, done)[(#[trigger] done[k]).0] == Some(done[k].1),
        forall|j: int|
            0 <= j < start.len() && (forall|k: int| 0 <= k < done.len() ==> (#[trigger] done[k]).0 != j)
                ==> #[trigger] recorded(start, done)[j] == start[j],
    decreases done.len(),
{
    if done.len() > 0 {
        let rest = done.drop_last();
        assert forall|a: int, b: int| 0 <= a < b < rest.len() implies (#[trigger] rest[a]).0 != (
        #[trigger] rest[b]).0 by {
            assert(rest[a] == done[a] && rest[b] == done[b]);
        }
        assert forall|k: int| 0 <= k < rest.len() implies 0 <= (#[trigger] rest[k]).0 < start.len() by {
            assert(rest[k] == done[k]);
        }
        results_stay_separate(start, rest);
        assert forall|k: int| 0 <= k < done.len() implies recorded(start, done)[(
        #[trigger] done[k]).0] == Some(done[k].1) by {
            if k < done.len() - 1 {
                assert(rest[k] == done[k]);
                assert(done[k].0 != done[done.len() - 1].0);
            }
        }
        assert forall|j: int|
            0 <= j < start.len() && (forall|k: int| 0 <= k < done.len() ==> (#[trigger] done[k]).0
                != j) implies #[trigger] recorded(start, done)[j] == start[j] by {
            assert forall|k: int| 0 <= k < rest.len() implies (#[trigger] rest[k]).0 != j by {
                assert(rest[k] == done[k]);
            }
            assert(done[done.len() - 1].0 != j);
        }
    }
}

} // verus!
