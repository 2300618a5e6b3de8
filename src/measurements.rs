//! Bounded series buffer and the Newton-Raphson iteration driver.
use vstd::prelude::*;

verus! {

/// The last `n` elements of `s`, in order (all of `s` when it is shorter).
pub open spec fn keep_last<T>(s: Seq<T>, n: nat) -> Seq<T> {
    if s.len() <= n {
        s
    } else {
        s.subrange(s.len() - n, s.len() as int)
    }
}

/// An operation that changes a series buffer's contents or capacity.
pub enum BufferOp<T> {
    Append(T),
    SetCapacity(usize),
}

/// The contents and capacity after `op`, as `add_value` and
/// `set_max_data_points` state them.
pub open spec fn apply_op<T>(state: (Seq<T>, nat), op: BufferOp<T>) -> (Seq<T>, nat) {
    match op {
        BufferOp::Append(v) => (keep_last(state.0.push(v), state.1), state.1),
        BufferOp::SetCapacity(n) => (keep_last(state.0, n as nat), n as nat),
    }
}

/// The contents and capacity after running `ops` on an empty buffer of
/// capacity `cap`.
pub open spec fn run_ops<T>(cap: nat, ops: Seq<BufferOp<T>>) -> (Seq<T>, nat)
    decreases ops.len(),
{
    if ops.len() == 0 {
        (Seq::empty(), cap)
    } else {
        apply_op(run_ops(cap, ops.drop_last()), ops.last())
    }
}

/// The samples that `ops` append, in order.
pub open spec fn appended<T>(ops: Seq<BufferOp<T>>) -> Seq<T>
    decreases ops.len(),
{
    if ops.len() == 0 {
        Seq::empty()
    } else {
        match ops.last() {
            BufferOp::Append(v) => appended(ops.drop_last()).push(v),
            BufferOp::SetCapacity(_) => appended(ops.drop_last()),
        }
    }
}

/// No capacity is raised once more samples have been appended than the
/// capacity in force could hold (after such a raise the buffer cannot
/// return the samples it already evicted).
pub open spec fn never_regrows_after_eviction<T>(cap: nat, ops: Seq<BufferOp<T>>) -> bool {
    forall|k: int|
        0 <= k < ops.len() ==> match #[trigger] ops[k] {
            BufferOp::SetCapacity(n) => n > run_ops(cap, ops.take(k)).1 ==> appended(
                ops.take(k),
            ).len() <= run_ops(cap, ops.take(k)).1,
            BufferOp::Append(_) => true,
        }
}

pub(crate) proof fn lemma_keep_last_push<T>(s: Seq<T>, v: T, n: nat)
    ensures
        keep_last(keep_last(s, n).push(v), n) == keep_last(s.push(v), n),
{
    assert(keep_last(keep_last(s, n).push(v), n) =~= keep_last(s.push(v), n));
}

proof fn lemma_keep_last_shrink<T>(s: Seq<T>, m: nat, n: nat)
    requires
        n <= m,
    ensures
        keep_last(keep_last(s, m), n) == keep_last(s, n),
{
    assert(keep_last(keep_last(s, m), n) =~= keep_last(s, n));
}

/// After any run of appends and capacity changes the buffer holds no more
/// than its capacity; and, unless a capacity was raised after samples had
/// been evicted, it holds exactly the most recently appended
/// `min(capacity, appended)` samples in the order they were appended.
pub proof fn lemma_capacity_invariant<T>(cap: nat, ops: Seq<BufferOp<T>>)
    ensures
        run_ops(cap, ops).0.len() <= run_ops(cap, ops).1,
        never_regrows_after_eviction(cap, ops) ==> run_ops(cap, ops).0 == keep_last(
            appended(ops),
            run_ops(cap, ops).1,
        ),
    decreases ops.len(),
{
    if ops.len() > 0 {
        let prev = ops.drop_last();
        lemma_capacity_invariant(cap, prev);
        let state = run_ops(cap, prev);
        if never_regrows_after_eviction(cap, ops) {
            assert forall|k: int| 0 <= k < prev.len() implies match #[trigger] prev[k] {
                BufferOp::SetCapacity(n) => n > run_ops(cap, prev.take(k)).1 ==> appended(
                    prev.take(k),
                ).len() <= run_ops(cap, prev.take(k)).1,
                BufferOp::Append(_) => true,
            } by {
                assert(prev.take(k) =~= ops.take(k));
                assert(prev[k] == ops[k]);
            }
            assert(state.0 == keep_last(appended(prev), state.1));
            match ops.last() {
                BufferOp::Append(v) => {
                    lemma_keep_last_push(appended(prev), v, state.1);
                },
                BufferOp::SetCapacity(n) => {
                    let k = ops.len() - 1;
                    assert(ops.take(k) =~= prev);
                    assert(ops[k] == ops.last());
                    if n as nat <= state.1 {
                        lemma_keep_last_shrink(appended(prev), state.1, n as nat);
                    }
                },
            }
        }
    }
}

/// Appending `capacity + k` samples (`k > 0`) to an empty buffer leaves it
/// holding exactly `capacity` samples: those at indices `k` to
/// `capacity + k - 1` of the appended sequence.
pub proof fn lemma_eviction_under_load<T>(cap: nat, samples: Seq<T>, k: nat)
    requires
        samples.len() == cap + k,
        k > 0,
    ensures
        run_ops(cap, samples.map_values(|v: T| BufferOp::Append(v))).0.len() == cap,
        run_ops(cap, samples.map_values(|v: T| BufferOp::Append(v))).0 == samples.subrange(
            k as int,
            (cap + k) as int,
        ),
{
    let ops = samples.map_values(|v: T| BufferOp::Append(v));
    lemma_appends_only(cap, samples);
    lemma_capacity_invariant(cap, ops);
    assert(keep_last(samples, cap) =~= samples.subrange(k as int, (cap + k) as int));
}

proof fn lemma_appends_only<T>(cap: nat, samples: Seq<T>)
    ensures
        appended(samples.map_values(|v: T| BufferOp::Append(v))) == samples,
        run_ops(cap, samples.map_values(|v: T| BufferOp::Append(v))).1 == cap,
        never_regrows_after_eviction(cap, samples.map_values(|v: T| BufferOp::Append(v))),
    decreases samples.len(),
{
    let ops = samples.map_values(|v: T| BufferOp::Append(v));
    if samples.len() > 0 {
        let prev = samples.drop_last();
        lemma_appends_only(cap, prev);
        assert(ops.drop_last() =~= prev.map_values(|v: T| BufferOp::Append(v)));
        assert(appended(ops) =~= samples);
    }
}

/// What one Newton update from an estimate came to, in priority order: the
/// derivative was too close to zero to divide by, the update moved less than
/// the tolerance, or the update moved on.
pub enum NewtonStep<T> {
    Degenerate,
    Converged(T),
    Moved(T),
}

/// `trace` and `root` are what a run of at most `max_iter` Newton updates
/// from `x0` produces, each update decided by `step`: the trace starts at the
/// guess, every update but the last moved on, and the run ends early only on
/// a degenerate derivative or on convergence.
pub open spec fn newton_run<T, F: Fn(T) -> NewtonStep<T>>(
    step: F,
    x0: T,
    max_iter: nat,
    root: T,
    trace: Seq<T>,
) -> bool {
    let n = trace.len();
    &&& 1 <= n <= max_iter + 1
    &&& trace[0] == x0
    &&& root == trace.last()
    &&& forall|k: int|
        0 <= k < n - 2 ==> #[trigger] step.ensures((trace[k],), NewtonStep::Moved(trace[k + 1]))
    &&& n >= 2 ==> {
        ||| step.ensures((trace[n - 2],), NewtonStep::Moved(trace[n - 1]))
        ||| step.ensures((trace[n - 2],), NewtonStep::Converged(trace[n - 1]))
    }
    &&& n <= max_iter ==> {
        ||| step.ensures((trace[n - 1],), NewtonStep::Degenerate)
        ||| (n >= 2 && step.ensures((trace[n - 2],), NewtonStep::Converged(trace[n - 1])))
    }
}

/// A run whose step is degenerate at the initial guess stops there: the root
/// is the guess itself and the trace holds it alone.
pub proof fn lemma_newton_degenerate_start<T, F: Fn(T) -> NewtonStep<T>>(
    step: F,
    x0: T,
    max_iter: nat,
    root: T,
    trace: Seq<T>,
)
    requires
        newton_run(step, x0, max_iter, root, trace),
        forall|o: NewtonStep<T>| #[trigger] step.ensures((x0,), o) ==> o is Degenerate,
    ensures
        root == x0,
        trace.len() == 1,
{
    if trace.len() >= 2 {
        if trace.len() > 2 {
            let k: int = 0;
            assert(step.ensures((trace[k],), NewtonStep::Moved(trace[k + 1])));
        }
        assert(step.ensures((x0,), NewtonStep::Moved(trace[1])) || step.ensures(
            (x0,),
            NewtonStep::Converged(trace[1]),
        ));
    }
}

/// A run whose step never stops early uses up every iteration: the trace
/// holds the guess and `max_iter` updates, and the root is the last of them.
pub proof fn lemma_newton_exhaustion<T, F: Fn(T) -> NewtonStep<T>>(
    step: F,
    x0: T,
    max_iter: nat,
    root: T,
    trace: Seq<T>,
)
    requires
        newton_run(step, x0, max_iter, root, trace),
        forall|x: T, o: NewtonStep<T>| #[trigger] step.ensures((x,), o) ==> o is Moved,
    ensures
        trace.len() == max_iter + 1,
        root == trace[max_iter as int],
{
    let n = trace.len();
    if n <= max_iter {
        assert(!step.ensures((trace[n - 1],), NewtonStep::Degenerate));
        if n >= 2 {
            assert(!step.ensures((trace[n - 2],), NewtonStep::Converged(trace[n - 1])));
        }
    }
}

/// A capacity-bounded, oldest-first series of samples.
#[derive(Clone)]
pub struct Measurements<T> {
    pub values: Vec<T>,
    pub max_data_points: usize,
}

impl<T: Copy> Measurements<T> {
    /// Holds no more samples than its capacity.
    pub open spec fn wf(&self) -> bool {
        self.values.len() <= self.max_data_points
    }

    pub fn new() -> (r: Self)
        ensures
            r.values@ == Seq::<T>::empty(),
            r.max_data_points == 300,
            r.wf(),
    {
        Measurements { values: Vec::new(), max_data_points: 300 }
    }

    /// Runs at most `max_iter` Newton updates from `x0`, each decided by
    /// `step`, and returns the final estimate with the trace of estimates
    /// (index `i` holds the estimate after `i` updates). On a degenerate
    /// derivative the current estimate is returned and the update is not
    /// applied; on convergence the converged update is the last.
    pub fn newton_raphson<F: Fn(T) -> NewtonStep<T>>(step: F, x0: T, max_iter: usize) -> (r: (
        T,
        Vec<T>,
    ))
        requires
            forall|x: T| #[trigger] step.requires((x,)),
        ensures
            newton_run(step, x0, max_iter as nat, r.0, r.1@),
    {
        let mut x = x0;
        let mut history: Vec<T> = Vec::new();
        history.push(x0);
        let mut i: usize = 0;
        while i < max_iter
            invariant
                forall|x: T| #[trigger] step.requires((x,)),
                history@.len() == i + 1,
                i <= max_iter,
                history@[0] == x0,
                x == history@.last(),
                forall|k: int|
                    0 <= k < history@.len() - 1 ==> #[trigger] step.ensures(
                        (history@[k],),
                        NewtonStep::Moved(history@[k + 1]),
                    ),
            decreases max_iter - i,
        {
            match step(x) {
                NewtonStep::Degenerate => {
                    proof {
                        if history@.len() >= 2 {
                            let k: int = history@.len() - 2;
                            assert(step.ensures((history@[k],), NewtonStep::Moved(history@[k + 1])));
                        }
                    }
                    return (x, history);
                },
                NewtonStep::Converged(x_new) => {
                    history.push(x_new);
                    return (x_new, history);
                },
                NewtonStep::Moved(x_new) => {
                    history.push(x_new);
                    x = x_new;
                },
            }
            i += 1;
        }
        proof {
            if history@.len() >= 2 {
                let k: int = history@.len() - 2;
                assert(step.ensures((history@[k],), NewtonStep::Moved(history@[k + 1])));
            }
        }
        (x, history)
    }

    /// Appends a sample, then evicts from the front until the capacity holds.
    pub fn add_value(&mut self, value: T)
        ensures
            final(self).values@ == keep_last(
                old(self).values@.push(value),
                old(self).max_data_points as nat,
            ),
            final(self).max_data_points == old(self).max_data_points,
            final(self).wf(),
            (final(self).values@, final(self).max_data_points as nat) == apply_op(
                (old(self).values@, old(self).max_data_points as nat),
                BufferOp::Append(value),
            ),
    {
        self.values.push(value);
        self.evict_to_capacity();
    }

    pub fn clear_values(&mut self)
        ensures
            final(self).values@ == Seq::<T>::empty(),
            final(self).max_data_points == old(self).max_data_points,
            final(self).wf(),
    {
        self.values.clear();
    }

    fn remove_oldest_value(&mut self)
        ensures
            final(self).values@ == if old(self).values@.len() == 0 {
                old(self).values@
            } else {
                old(self).values@.drop_first()
            },
            final(self).max_data_points == old(self).max_data_points,
    {
        if self.values.len() > 0 {
            self.values.remove(0);
        }
    }

    /// Removes the oldest samples until at most `max_data_points` remain.
    fn evict_to_capacity(&mut self)
        ensures
            final(self).values@ == keep_last(old(self).values@, old(self).max_data_points as nat),
            final(self).max_data_points == old(self).max_data_points,
            final(self).wf(),
    {
        let ghost start = self.values@;
        while self.values.len() > self.max_data_points
            invariant
                self.max_data_points == old(self).max_data_points,
                start == old(self).values@,
                self.values@.len() <= start.len(),
                self.values@ == start.subrange(start.len() - self.values@.len(), start.len() as int),
                start.len() > self.max_data_points ==> self.values@.len() >= self.max_data_points,
                start.len() <= self.max_data_points ==> self.values@ == start,
            decreases self.values.len(),
        {
            self.remove_oldest_value();
        }
    }

    /// Sets the capacity and evicts the oldest samples that no longer fit.
    pub fn set_max_data_points(&mut self, max_points: usize)
        ensures
            final(self).values@ == keep_last(old(self).values@, max_points as nat),
            final(self).max_data_points == max_points,
            final(self).wf(),
            (final(self).values@, final(self).max_data_points as nat) == apply_op(
                (old(self).values@, old(self).max_data_points as nat),
                BufferOp::SetCapacity(max_points),
            ),
    {
        self.max_data_points = max_points;
        self.evict_to_capacity();
    }
}

} // verus!
