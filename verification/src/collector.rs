//! The fan-in of one round.
//!
//! A [`Collector`] follows one round from its dispatch to its completion. The
//! caller reports each record as it arrives, with the worker it came from and
//! the index of its endpoint, and each worker as it finishes. The collector
//! says whether the report fits the round: a worker's records arrive in the
//! order of its assignment, and a worker finishes only when it has delivered
//! all of it. Across workers any interleaving is in order. The round is
//! complete when every worker has finished.

use crate::partition::{
    assigned, assigned_ascends, loads, loads_add_up, partition_is_total_and_disjoint, sum,
    sum_after_increment, sum_is_monotone, sum_of_zeros, worker_of, Dispatcher,
};
use vstd::prelude::*;

verus! {

/// Why a report does not fit the round.
#[derive(Clone, Copy, Debug, PartialEq, Eq)]
pub enum CollectError {
    /// The pool has no worker of that number.
    UnknownWorker,
    /// The worker has already finished.
    StreamClosed,
    /// The record is not the next of the worker's assignment.
    OutOfTurn,
    /// The worker has not delivered all of its assignment.
    Unfinished,
}

/// The state of one round's fan-in.
#[derive(Clone, Debug, PartialEq, Eq)]
pub struct Collector {
    len: usize,
    plan: Vec<Vec<usize>>,
    taken: Vec<usize>,
    closed: Vec<bool>,
    forwarded: usize,
    open_streams: usize,
}

/// The mathematical value of a [`Collector`].
pub struct CollectorView {
    /// The number of endpoints of the round.
    pub len: nat,
    /// The size of the pool.
    pub workers: nat,
    /// How many records of each worker have been forwarded, by worker.
    pub taken: Seq<nat>,
    /// Whether each worker has finished, by worker.
    pub closed: Seq<bool>,
}

/// Whether `round` is a state that a round can be in: no worker has delivered
/// more than its assignment, and those that have finished have delivered all
/// of it.
pub open spec fn consistent(round: CollectorView) -> bool {
    &&& round.workers >= 1
    &&& round.len <= usize::MAX
    &&& round.taken.len() == round.workers
    &&& round.closed.len() == round.workers
    &&& forall|w: int|
        0 <= w < round.workers ==> {
            &&& #[trigger] round.taken[w] <= assigned(round.len, round.workers, w as nat).len()
            &&& round.closed[w] ==> round.taken[w] == assigned(
                round.len,
                round.workers,
                w as nat,
            ).len()
        }
}

/// The state of a round at its dispatch: nothing delivered, nobody finished.
pub open spec fn dispatched(len: nat, workers: nat) -> CollectorView {
    CollectorView {
        len,
        workers,
        taken: Seq::new(workers, |w: int| 0nat),
        closed: Seq::new(workers, |w: int| false),
    }
}

/// The number of records forwarded so far.
pub open spec fn forwarded(round: CollectorView) -> nat {
    sum(round.taken)
}

/// Whether every worker of `closed` has finished.
pub open spec fn all_closed(closed: Seq<bool>) -> bool {
    forall|w: int| 0 <= w < closed.len() ==> closed[w]
}

/// Whether every worker has finished, and the round with them.
pub open spec fn complete(round: CollectorView) -> bool {
    all_closed(round.closed)
}

/// The index of the record that is due next from `worker`; `None` where the
/// worker has delivered all of its assignment or is no worker of the pool.
pub open spec fn due(round: CollectorView, worker: int) -> Option<usize> {
    let mine = assigned(round.len, round.workers, worker as nat);
    if 0 <= worker < round.workers && round.taken[worker] < mine.len() {
        Some(mine[round.taken[worker] as int])
    } else {
        None
    }
}

/// Whether a record for the endpoint at `index`, coming from `worker`, fits
/// the round, and if not, why not.
pub open spec fn accept_outcome(round: CollectorView, worker: int, index: usize) -> Result<
    (),
    CollectError,
> {
    if !(0 <= worker < round.workers) {
        Err(CollectError::UnknownWorker)
    } else if round.closed[worker] {
        Err(CollectError::StreamClosed)
    } else if due(round, worker) != Some(index) {
        Err(CollectError::OutOfTurn)
    } else {
        Ok(())
    }
}

/// The round after a record from `worker` was forwarded.
pub open spec fn after_accept(round: CollectorView, worker: int) -> CollectorView {
    CollectorView { taken: round.taken.update(worker, round.taken[worker] + 1), ..round }
}

/// The round after `worker` has finished.
pub open spec fn after_close(round: CollectorView, worker: int) -> CollectorView {
    CollectorView { closed: round.closed.update(worker, true), ..round }
}

/// Whether `worker` may finish now: `Ok` says whether that completes the
/// round.
pub open spec fn close_outcome(round: CollectorView, worker: int) -> Result<bool, CollectError> {
    if !(0 <= worker < round.workers) {
        Err(CollectError::UnknownWorker)
    } else if round.closed[worker] {
        Err(CollectError::StreamClosed)
    } else if due(round, worker) is Some {
        Err(CollectError::Unfinished)
    } else {
        Ok(complete(after_close(round, worker)))
    }
}

/// How many workers of `closed` have not finished.
spec fn still_open(closed: Seq<bool>) -> nat
    decreases closed.len(),
{
    if closed.len() == 0 {
        0
    } else {
        still_open(closed.drop_last()) + if closed.last() {
            0nat
        } else {
            1nat
        }
    }
}

proof fn still_open_after_close(closed: Seq<bool>, at: int)
    requires
        0 <= at < closed.len(),
        !closed[at],
    ensures
        still_open(closed.update(at, true)) + 1 == still_open(closed),
    decreases closed.len(),
{
    let after = closed.update(at, true);
    if at == closed.len() - 1 {
        assert(after.drop_last() =~= closed.drop_last());
    } else {
        assert(after.drop_last() =~= closed.drop_last().update(at, true));
        still_open_after_close(closed.drop_last(), at);
    }
}

proof fn none_open_means_all_closed(closed: Seq<bool>)
    ensures
        still_open(closed) == 0 <==> all_closed(closed),
        still_open(closed) <= closed.len(),
    decreases closed.len(),
{
    if closed.len() > 0 {
        let earlier = closed.drop_last();
        none_open_means_all_closed(earlier);
        if still_open(closed) == 0 {
            assert forall|w: int| 0 <= w < closed.len() implies closed[w] by {
                if w < earlier.len() {
                    assert(earlier[w] == closed[w]);
                }
            }
        }
        if all_closed(closed) {
            assert forall|w: int| 0 <= w < earlier.len() implies earlier[w] by {
                assert(earlier[w] == closed[w]);
            }
            assert(closed.last());
        }
    }
}

proof fn still_open_of_fresh(n: nat)
    ensures
        still_open(Seq::new(n, |w: int| false)) == n,
    decreases n,
{
    if n > 0 {
        assert(Seq::new(n, |w: int| false).drop_last() =~= Seq::new(
            (n - 1) as nat,
            |w: int| false,
        ));
        still_open_of_fresh((n - 1) as nat);
    }
}

/// Whether the record of the endpoint at `index` has been forwarded: it is
/// among the first records, as many as its worker has delivered, of that
/// worker's assignment.
pub open spec fn delivered(round: CollectorView, index: usize) -> bool {
    exists|w: int, k: int|
        0 <= w < round.workers && 0 <= k < round.taken[w] && k < assigned(
            round.len,
            round.workers,
            w as nat,
        ).len() && #[trigger] assigned(round.len, round.workers, w as nat)[k] == index
}

/// A record that is accepted is the first for its endpoint: no endpoint is
/// delivered twice in a round, and accepting a record delivers its endpoint
/// and no other.
pub proof fn accept_delivers_one_new_endpoint(round: CollectorView, worker: int, index: usize)
    requires
        consistent(round),
        accept_outcome(round, worker, index) is Ok,
    ensures
        !delivered(round, index),
        forall|j: usize|
            delivered(after_accept(round, worker), j) <==> delivered(round, j) || j == index,
{
    let after = after_accept(round, worker);
    let mine = assigned(round.len, round.workers, worker as nat);
    let at = round.taken[worker] as int;
    assert(mine[at] == index);
    assert(mine.contains(index));
    partition_is_total_and_disjoint(round.len, round.workers);
    assigned_ascends(round.len, round.workers, worker as nat);
    if delivered(round, index) {
        let (w, k) = choose|w: int, k: int|
            0 <= w < round.workers && 0 <= k < round.taken[w] && k < assigned(
                round.len,
                round.workers,
                w as nat,
            ).len() && #[trigger] assigned(round.len, round.workers, w as nat)[k] == index;
        assert(assigned(round.len, round.workers, w as nat).contains(index));
        assert(w == worker);
        assert(mine[k] < mine[at]);
    }
    assert forall|j: usize| delivered(after, j) <==> delivered(round, j) || j == index by {
        if delivered(after, j) {
            let (w, k) = choose|w: int, k: int|
                0 <= w < after.workers && 0 <= k < after.taken[w] && k < assigned(
                    after.len,
                    after.workers,
                    w as nat,
                ).len() && #[trigger] assigned(after.len, after.workers, w as nat)[k] == j;
            if w == worker && k == at {
                assert(j == index);
            } else {
                assert(0 <= k < round.taken[w]);
                assert(assigned(round.len, round.workers, w as nat)[k] == j);
                assert(delivered(round, j));
            }
        }
        if delivered(round, j) {
            let (w, k) = choose|w: int, k: int|
                0 <= w < round.workers && 0 <= k < round.taken[w] && k < assigned(
                    round.len,
                    round.workers,
                    w as nat,
                ).len() && #[trigger] assigned(round.len, round.workers, w as nat)[k] == j;
            assert(0 <= k < after.taken[w]);
            assert(assigned(after.len, after.workers, w as nat)[k] == j);
            assert(delivered(after, j));
        }
        if j == index {
            assert(0 <= at < after.taken[worker]);
            assert(assigned(after.len, after.workers, worker as nat)[at] == j);
            assert(delivered(after, j));
        }
    }
}

/// A round never delivers more records than the list has endpoints.
pub proof fn forwarded_is_bounded(round: CollectorView)
    requires
        consistent(round),
    ensures
        forwarded(round) <= round.len,
{
    loads_add_up(round.len, round.workers);
    sum_is_monotone(round.taken, loads(round.len, round.workers));
}

/// A complete round has delivered as many records as the list has
/// endpoints, one for each of them, and every worker has delivered the whole
/// of its assignment.
pub proof fn complete_round_delivers_all(round: CollectorView)
    requires
        consistent(round),
        complete(round),
    ensures
        forwarded(round) == round.len,
        round.taken == loads(round.len, round.workers),
        forall|j: usize| j < round.len ==> delivered(round, j),
{
    loads_add_up(round.len, round.workers);
    assert(round.taken =~= loads(round.len, round.workers));
    partition_is_total_and_disjoint(round.len, round.workers);
    assert forall|j: usize| j < round.len implies delivered(round, j) by {
        let owner = worker_of(j as int, round.workers as int);
        let theirs = assigned(round.len, round.workers, owner as nat);
        assert(theirs.contains(j));
        let k = choose|k: int| 0 <= k < theirs.len() && theirs[k] == j;
        assert(round.closed[owner]);
        assert(round.taken[owner] == theirs.len());
        assert(assigned(round.len, round.workers, owner as nat)[k] == j);
    }
}

impl View for Collector {
    type V = CollectorView;

    closed spec fn view(&self) -> CollectorView {
        CollectorView {
            len: self.len as nat,
            workers: self.plan.len() as nat,
            taken: self.taken@.map_values(|t: usize| t as nat),
            closed: self.closed@,
        }
    }
}

impl Collector {
    /// Whether the collector's books agree with one another.
    pub closed spec fn wf(&self) -> bool {
        &&& consistent(self@)
        &&& forall|w: int|
            0 <= w < self.plan.len() ==> (#[trigger] self.plan[w])@ == assigned(
                self.len as nat,
                self.plan.len() as nat,
                w as nat,
            )
        &&& self.forwarded == forwarded(self@)
        &&& self.open_streams == still_open(self.closed@)
    }

    /// The collector of a round that `dispatcher` hands out over a list of
    /// `len` endpoints.
    pub fn open(dispatcher: &Dispatcher, len: usize) -> (collector: Collector)
        ensures
            collector.wf(),
            collector@ == dispatched(len as nat, dispatcher.workers()),
            consistent(collector@),
    {
        let workers = dispatcher.num_workers();
        let plan = dispatcher.plan(len);
        let mut taken: Vec<usize> = Vec::new();
        let mut closed: Vec<bool> = Vec::new();
        let mut w: usize = 0;
        while w < workers
            invariant
                w <= workers,
                taken.len() == w,
                closed.len() == w,
                forall|i: int| 0 <= i < w ==> taken[i] == 0,
                forall|i: int| 0 <= i < w ==> !closed[i],
            decreases workers - w,
        {
            taken.push(0);
            closed.push(false);
            w = w + 1;
        }
        let collector = Collector { len, plan, taken, closed, forwarded: 0, open_streams: workers };
        proof {
            assert(collector@.taken =~= Seq::new(workers as nat, |w: int| 0nat));
            assert(collector@.closed =~= Seq::new(workers as nat, |w: int| false));
            sum_of_zeros(workers as nat);
            still_open_of_fresh(workers as nat);
        }
        collector
    }

    /// The number of endpoints of the round.
    pub fn len(&self) -> (len: usize)
        ensures
            len == self@.len,
    {
        self.len
    }

    /// The number of records forwarded so far.
    pub fn forwarded(&self) -> (count: usize)
        requires
            self.wf(),
        ensures
            count == forwarded(self@),
            count <= self@.len,
    {
        proof {
            forwarded_is_bounded(self@);
        }
        self.forwarded
    }

    /// Whether every worker has finished, and the round with them.
    pub fn is_complete(&self) -> (done: bool)
        requires
            self.wf(),
        ensures
            done == complete(self@),
    {
        proof {
            none_open_means_all_closed(self.closed@);
        }
        self.open_streams == 0
    }

    /// Takes a record that arrived from `worker` for the endpoint at `index`.
    /// On `Ok` the record is to be forwarded to the sink, and the round has
    /// moved on by it; on `Err` the round is as it was.
    pub fn accept(&mut self, worker: usize, index: usize) -> (taken: Result<(), CollectError>)
        requires
            old(self).wf(),
        ensures
            final(self).wf(),
            consistent(final(self)@),
            taken == accept_outcome(old(self)@, worker as int, index),
            taken is Ok ==> final(self)@ == after_accept(old(self)@, worker as int),
            taken is Err ==> final(self)@ == old(self)@,
    {
        if worker >= self.taken.len() {
            return Err(CollectError::UnknownWorker);
        }
        if self.closed[worker] {
            return Err(CollectError::StreamClosed);
        }
        let count = self.taken[worker];
        assert(self@.taken[worker as int] == count);
        if count >= self.plan[worker].len() {
            return Err(CollectError::OutOfTurn);
        }
        if self.plan[worker][count] != index {
            return Err(CollectError::OutOfTurn);
        }
        proof {
            let after = after_accept(self@, worker as int);
            assert(consistent(after));
            forwarded_is_bounded(after);
            sum_after_increment(self@.taken, worker as int);
        }
        let ghost before = self@;
        self.taken.set(worker, count + 1);
        self.forwarded = self.forwarded + 1;
        assert(self@.taken =~= before.taken.update(worker as int, before.taken[worker as int] + 1));
        Ok(())
    }

    /// Takes the news that `worker` has finished. On `Ok` the worker's stream
    /// is closed, and the value says whether the round is complete with it;
    /// on `Err` the round is as it was.
    pub fn close(&mut self, worker: usize) -> (closed: Result<bool, CollectError>)
        requires
            old(self).wf(),
        ensures
            final(self).wf(),
            consistent(final(self)@),
            closed == close_outcome(old(self)@, worker as int),
            closed is Ok ==> final(self)@ == after_close(old(self)@, worker as int),
            closed is Err ==> final(self)@ == old(self)@,
    {
        if worker >= self.taken.len() {
            return Err(CollectError::UnknownWorker);
        }
        if self.closed[worker] {
            return Err(CollectError::StreamClosed);
        }
        let count = self.taken[worker];
        assert(self@.taken[worker as int] == count);
        if count < self.plan[worker].len() {
            return Err(CollectError::Unfinished);
        }
        let ghost before = self@;
        proof {
            still_open_after_close(self.closed@, worker as int);
            none_open_means_all_closed(self.closed@.update(worker as int, true));
        }
        self.closed.set(worker, true);
        self.open_streams = self.open_streams - 1;
        proof {
            assert(self.closed@ == before.closed.update(worker as int, true));
            assert(self@ == after_close(before, worker as int));
            assert((self.open_streams == 0) == complete(self@));
        }
        Ok(self.open_streams == 0)
    }
}

} // verus!
