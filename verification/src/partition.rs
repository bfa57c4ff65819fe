//! The static partition of the endpoint list across workers.
//!
//! Worker `w` of `n` checks the endpoints whose index leaves the remainder `w`
//! on division by `n`, in ascending order of index. The rule looks at nothing
//! but the index: no balancing, no stealing.

use crate::config::ConfigError;
use vstd::prelude::*;

verus! {

/// The worker that checks the endpoint at `index` in a pool of `workers`.
pub open spec fn worker_of(index: int, workers: int) -> int {
    index % workers
}

/// The indices below `len` that fall to `worker` in a pool of `workers`, in
/// ascending order.
pub open spec fn assigned(len: nat, workers: nat, worker: nat) -> Seq<usize>
    decreases len,
{
    if len == 0 {
        Seq::empty()
    } else {
        let last = (len - 1) as nat;
        let before = assigned(last, workers, worker);
        if workers > 0 && worker_of(last as int, workers as int) == worker {
            before.push(last as usize)
        } else {
            before
        }
    }
}

/// The assignment of every worker of the pool, by worker.
pub open spec fn planned(len: nat, workers: nat) -> Seq<Seq<usize>> {
    Seq::new(workers, |worker: int| assigned(len, workers, worker as nat))
}

/// A pool of at least one worker.
#[derive(Clone, Copy, Debug, PartialEq, Eq)]
pub struct Dispatcher {
    num_workers: usize,
}

impl Dispatcher {
    #[verifier::type_invariant]
    spec fn has_workers(self) -> bool {
        self.num_workers >= 1
    }

    /// The size of the pool.
    pub closed spec fn workers(self) -> nat {
        self.num_workers as nat
    }

    /// A pool of `num_workers` workers. A pool of none is refused here, before
    /// any endpoint is handed out.
    pub fn new(num_workers: usize) -> (made: Result<Dispatcher, ConfigError>)
        ensures
            num_workers == 0 <==> made is Err,
            made matches Ok(dispatcher) ==> dispatcher.workers() == num_workers,
            made matches Err(error) ==> error == ConfigError::ZeroWorkers,
    {
        if num_workers == 0 {
            Err(ConfigError::ZeroWorkers)
        } else {
            Ok(Dispatcher { num_workers })
        }
    }

    /// The size of the pool; never zero.
    pub fn num_workers(&self) -> (n: usize)
        ensures
            n == self.workers(),
            n >= 1,
    {
        proof {
            use_type_invariant(self);
        }
        self.num_workers
    }

    /// The worker that checks the endpoint at `index`.
    pub fn worker_for(&self, index: usize) -> (worker: usize)
        ensures
            worker == worker_of(index as int, self.workers() as int),
            worker < self.workers(),
    {
        proof {
            use_type_invariant(self);
        }
        index % self.num_workers
    }

    /// The indices that `worker` checks in a list of `len` endpoints, in the
    /// order in which it checks them. A worker beyond the list gets nothing,
    /// and so does a number that names no worker of the pool.
    pub fn assignment(&self, len: usize, worker: usize) -> (indices: Vec<usize>)
        ensures
            indices@ == assigned(len as nat, self.workers(), worker as nat),
    {
        proof {
            use_type_invariant(self);
        }
        let mut indices: Vec<usize> = Vec::new();
        let mut index: usize = 0;
        while index < len
            invariant
                index <= len,
                self.num_workers >= 1,
                self.workers() == self.num_workers,
                indices@ == assigned(index as nat, self.workers(), worker as nat),
            decreases len - index,
        {
            if index % self.num_workers == worker {
                indices.push(index);
            }
            index = index + 1;
        }
        indices
    }

    /// The assignment of every worker, by worker.
    pub fn plan(&self, len: usize) -> (plan: Vec<Vec<usize>>)
        ensures
            plan.deep_view() == planned(len as nat, self.workers()),
            plan.len() == self.workers(),
            forall|w: int|
                0 <= w < plan.len() ==> (#[trigger] plan[w])@ == assigned(
                    len as nat,
                    self.workers(),
                    w as nat,
                ),
    {
        proof {
            use_type_invariant(self);
        }
        let mut plan: Vec<Vec<usize>> = Vec::new();
        let mut worker: usize = 0;
        while worker < self.num_workers
            invariant
                worker <= self.num_workers,
                self.workers() == self.num_workers,
                plan.len() == worker,
                forall|w: int|
                    0 <= w < worker ==> (#[trigger] plan[w])@ == assigned(
                        len as nat,
                        self.workers(),
                        w as nat,
                    ),
            decreases self.num_workers - worker,
        {
            let indices = self.assignment(len, worker);
            plan.push(indices);
            worker = worker + 1;
        }
        assert(plan.deep_view() =~~= planned(len as nat, self.workers()));
        plan
    }
}

/// A worker's assignment is the residue class of its number, cut off at the
/// end of the list: it holds the index `j` exactly when `j` is in the list
/// and leaves the remainder `worker` on division by the size of the pool.
pub proof fn assigned_holds_residue_class(len: nat, workers: nat, worker: nat)
    requires
        len <= usize::MAX,
    ensures
        forall|j: usize|
            #[trigger] assigned(len, workers, worker).contains(j) <==> (j < len && workers > 0
                && worker_of(j as int, workers as int) == worker),
    decreases len,
{
    let now = assigned(len, workers, worker);
    if len > 0 {
        let last = (len - 1) as nat;
        let before = assigned(last, workers, worker);
        assigned_holds_residue_class(last, workers, worker);
        assert forall|j: usize|
            #[trigger] now.contains(j) <==> (j < len && workers > 0 && worker_of(
                j as int,
                workers as int,
            ) == worker) by {
            if now != before {
                // the last index was added behind the others
                if now.contains(j) {
                    let k = choose|k: int| 0 <= k < now.len() && now[k] == j;
                    if k < before.len() {
                        assert(before[k] == j);
                    }
                }
                if j == last {
                    assert(now[before.len() as int] == j);
                } else if before.contains(j) {
                    let k = choose|k: int| 0 <= k < before.len() && before[k] == j;
                    assert(now[k] == j);
                }
            }
        }
    }
}

/// A worker checks its endpoints in ascending order of index, none twice, and
/// none beyond the end of the list.
pub proof fn assigned_ascends(len: nat, workers: nat, worker: nat)
    requires
        len <= usize::MAX,
    ensures
        forall|a: int, b: int|
            0 <= a < b < assigned(len, workers, worker).len() ==> assigned(len, workers, worker)[a]
                < assigned(len, workers, worker)[b],
        forall|a: int|
            0 <= a < assigned(len, workers, worker).len() ==> assigned(len, workers, worker)[a]
                < len,
    decreases len,
{
    let now = assigned(len, workers, worker);
    if len > 0 {
        let last = (len - 1) as nat;
        let before = assigned(last, workers, worker);
        assigned_ascends(last, workers, worker);
        assert forall|a: int| 0 <= a < now.len() implies now[a] < len by {
            if a < before.len() {
                assert(now[a] == before[a]);
            }
        }
        assert forall|a: int, b: int| 0 <= a < b < now.len() implies now[a] < now[b] by {
            assert(now[a] == before[a]);
            if b < before.len() {
                assert(now[b] == before[b]);
            }
        }
    } else {
        assert(now.len() == 0);
    }
}

/// Worker `w` of `n` checks the endpoints `w`, `w + n`, `w + 2n`, and so on,
/// as far as the list goes: the first that it does not check is at or beyond
/// the end of the list.
pub proof fn assigned_steps_by_pool_size(len: nat, workers: nat, worker: nat)
    requires
        worker < workers,
        len <= usize::MAX,
    ensures
        forall|k: int|
            0 <= k < assigned(len, workers, worker).len() ==> #[trigger] assigned(
                len,
                workers,
                worker,
            )[k] == worker + k * workers,
        assigned(len, workers, worker).len() == 0 <==> len <= worker,
        worker + (assigned(len, workers, worker).len() - 1) * workers < len,
        len <= worker + assigned(len, workers, worker).len() * workers,
    decreases len,
{
    let now = assigned(len, workers, worker);
    let n = workers as int;
    let w = worker as int;
    if len > 0 {
        let last = (len - 1) as int;
        let before = assigned(last as nat, workers, worker);
        let count = before.len() as int;
        assigned_steps_by_pool_size(last as nat, workers, worker);
        vstd::arithmetic::div_mod::lemma_mod_multiples_vanish(count, w, n);
        vstd::arithmetic::div_mod::lemma_small_mod(worker, workers);
        assert((w + count * n) % n == w) by {
            assert(n * count + w == w + count * n) by (nonlinear_arith);
        }
        if worker_of(last, n) == w {
            let q = last / n;
            vstd::arithmetic::div_mod::lemma_fundamental_div_mod(last, n);
            assert(last == n * q + w);
            assert(q == count) by (nonlinear_arith)
                requires
                    last == n * q + w,
                    w + (count - 1) * n < last,
                    last <= w + count * n,
                    n > 0,
            ;
            assert(last == w + count * n) by (nonlinear_arith)
                requires
                    last == n * q + w,
                    q == count,
            ;
            assert(now == before.push(last as usize));
            assert forall|k: int| 0 <= k < now.len() implies #[trigger] now[k] == w + k * n by {
                if k < count {
                    assert(now[k] == before[k]);
                }
            }
            assert(w + (count + 1) * n == w + count * n + n) by (nonlinear_arith);
        } else {
            assert(now == before);
        }
    } else {
        assert(now.len() == 0);
        assert(w + (0 - 1) * n < 0) by (nonlinear_arith)
            requires
                w < n,
        ;
    }
}

/// A worker whose number is not below the length of the list has nothing to
/// check: a pool larger than the list leaves its excess workers idle.
pub proof fn worker_beyond_list_is_idle(len: nat, workers: nat, worker: nat)
    requires
        len <= usize::MAX,
        worker >= len,
    ensures
        assigned(len, workers, worker).len() == 0,
{
    let mine = assigned(len, workers, worker);
    if mine.len() > 0 {
        let j = mine[0];
        assert(mine.contains(j));
        assigned_holds_residue_class(len, workers, worker);
        vstd::arithmetic::div_mod::lemma_mod_decreases(j as nat, workers);
    }
}

/// The partition is total and disjoint: in a pool of at least one worker,
/// every index of the list is in the assignment of exactly one worker, the
/// one that `worker_of` names.
pub proof fn partition_is_total_and_disjoint(len: nat, workers: nat)
    requires
        workers >= 1,
        len <= usize::MAX,
    ensures
        forall|j: usize|
            j < len ==> {
                &&& 0 <= #[trigger] worker_of(j as int, workers as int) < workers
                &&& assigned(len, workers, worker_of(j as int, workers as int) as nat).contains(j)
            },
        forall|j: usize, worker: nat|
            #[trigger] assigned(len, workers, worker).contains(j) ==> worker == worker_of(
                j as int,
                workers as int,
            ),
{
    assert forall|j: usize| j < len implies {
        &&& 0 <= #[trigger] worker_of(j as int, workers as int) < workers
        &&& assigned(len, workers, worker_of(j as int, workers as int) as nat).contains(j)
    } by {
        vstd::arithmetic::div_mod::lemma_mod_bound(j as int, workers as int);
        assigned_holds_residue_class(len, workers, worker_of(j as int, workers as int) as nat);
    }
    assert forall|j: usize, worker: nat| #[trigger]
        assigned(len, workers, worker).contains(j) implies worker == worker_of(
        j as int,
        workers as int,
    ) by {
        assigned_holds_residue_class(len, workers, worker);
    }
}

/// The sum of the numbers in `counts`.
pub open spec fn sum(counts: Seq<nat>) -> nat
    decreases counts.len(),
{
    if counts.len() == 0 {
        0
    } else {
        sum(counts.drop_last()) + counts.last()
    }
}

/// How many endpoints each worker of the pool checks, by worker.
pub open spec fn loads(len: nat, workers: nat) -> Seq<nat> {
    Seq::new(workers, |worker: int| assigned(len, workers, worker as nat).len())
}

/// Raising one entry of `counts` by one raises the sum by one.
pub proof fn sum_after_increment(counts: Seq<nat>, at: int)
    requires
        0 <= at < counts.len(),
    ensures
        sum(counts.update(at, counts[at] + 1)) == sum(counts) + 1,
    decreases counts.len(),
{
    let raised = counts.update(at, counts[at] + 1);
    if at == counts.len() - 1 {
        assert(raised.drop_last() =~= counts.drop_last());
    } else {
        assert(raised.drop_last() =~= counts.drop_last().update(at, counts[at] + 1));
        sum_after_increment(counts.drop_last(), at);
    }
}

/// Where no entry of `lower` is above its entry in `upper`, the sums compare
/// the same way; and where the sums are equal, so are the sequences.
pub proof fn sum_is_monotone(lower: Seq<nat>, upper: Seq<nat>)
    requires
        lower.len() == upper.len(),
        forall|i: int| 0 <= i < lower.len() ==> lower[i] <= upper[i],
    ensures
        sum(lower) <= sum(upper),
        sum(lower) == sum(upper) ==> lower =~= upper,
    decreases lower.len(),
{
    if lower.len() > 0 {
        sum_is_monotone(lower.drop_last(), upper.drop_last());
        if sum(lower) == sum(upper) {
            assert(lower.drop_last() =~= upper.drop_last());
            assert forall|i: int| 0 <= i < lower.len() implies lower[i] == upper[i] by {
                if i < lower.len() - 1 {
                    assert(lower.drop_last()[i] == upper.drop_last()[i]);
                }
            }
        }
    }
}

/// The workers of a pool check, between them, as many endpoints as the list
/// holds.
pub proof fn loads_add_up(len: nat, workers: nat)
    requires
        workers >= 1,
        len <= usize::MAX,
    ensures
        sum(loads(len, workers)) == len,
    decreases len,
{
    if len == 0 {
        sum_of_zeros(workers);
        assert(loads(0, workers) =~= Seq::new(workers, |worker: int| 0nat));
    } else {
        let last = (len - 1) as nat;
        let owner = worker_of(last as int, workers as int);
        vstd::arithmetic::div_mod::lemma_mod_bound(last as int, workers as int);
        loads_add_up(last, workers);
        let before = loads(last, workers);
        assert(loads(len, workers) =~= before.update(owner, before[owner] + 1));
        sum_after_increment(before, owner);
    }
}

/// A sum of zeros is zero.
pub proof fn sum_of_zeros(n: nat)
    ensures
        sum(Seq::new(n, |i: int| 0nat)) == 0,
    decreases n,
{
    if n > 0 {
        assert(Seq::new(n, |i: int| 0nat).drop_last() =~= Seq::new((n - 1) as nat, |i: int| 0nat));
        sum_of_zeros((n - 1) as nat);
    }
}

} // verus!
