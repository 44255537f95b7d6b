//! Conservation of units: what is free and what is held always add up to what
//! was registered.
use vstd::prelude::*;
use crate::model::SafetyState;

verus! {

/// The sum of column `r` over all rows.
pub open spec fn column_sum(rows: Seq<Seq<nat>>, r: int) -> nat
    decreases rows.len(),
{
    if rows.len() == 0 {
        0
    } else {
        column_sum(rows.drop_last(), r) + rows.last()[r]
    }
}

/// A column of zeros sums to zero.
pub proof fn lemma_column_sum_zero(rows: Seq<Seq<nat>>, r: int)
    requires
        forall|t: int| 0 <= t < rows.len() ==> (#[trigger] rows[t])[r] == 0,
    ensures
        column_sum(rows, r) == 0,
    decreases rows.len(),
{
    if rows.len() > 0 {
        lemma_column_sum_zero(rows.drop_last(), r);
    }
}

/// Replacing one row changes the sum by the change in that row's entry.
pub proof fn lemma_column_sum_update(rows: Seq<Seq<nat>>, t: int, row: Seq<nat>, r: int)
    requires
        0 <= t < rows.len(),
    ensures
        column_sum(rows.update(t, row), r) == column_sum(rows, r) - rows[t][r] + row[r],
    decreases rows.len(),
{
    if t == rows.len() - 1 {
        assert(rows.update(t, row).drop_last() =~= rows.drop_last());
    } else {
        lemma_column_sum_update(rows.drop_last(), t, row, r);
        assert(rows.update(t, row).drop_last() =~= rows.drop_last().update(t, row));
    }
}

impl SafetyState {
    /// The units of resource `r` that the state accounts for: the free ones
    /// and those that the tasks hold.
    pub open spec fn units(self, r: int) -> int {
        self.work[r] + column_sum(self.allocation, r)
    }

    /// No task holds anything.
    pub open spec fn nothing_held(self) -> bool {
        forall|t: int, r: int|
            0 <= t < self.allocation.len() && 0 <= r < self.allocation[t].len() ==> #[trigger] self.allocation[t][r]
                == 0
    }

    /// A request that is declared or dropped moves no unit.
    pub proof fn lemma_need_conserves_units(self, t: int, r: int, n: nat, q: int)
        ensures
            self.declare(t, r, n).units(q) == self.units(q),
            self.withdraw(t, r, n).units(q) == self.units(q),
    {
    }

    /// A grant moves units from free to held and loses none.
    pub proof fn lemma_grant_conserves_units(self, t: int, r: int, n: nat, q: int)
        requires
            self.wf(),
            self.has_entry(t, r),
            0 <= q < self.resource_count(),
        ensures
            self.grant(t, r, n).units(q) == self.units(q),
    {
        let v = self.allocation[t][r] + n;
        lemma_column_sum_update(self.allocation, t, self.allocation[t].update(r, v), q);
    }

    /// A release moves units from held to free and loses none.
    pub proof fn lemma_release_conserves_units(self, t: int, r: int, n: nat, q: int)
        requires
            self.wf(),
            self.has_entry(t, r),
            n <= self.allocation[t][r],
            0 <= q < self.resource_count(),
        ensures
            self.release(t, r, n).units(q) == self.units(q),
    {
        let v = (self.allocation[t][r] - n) as nat;
        lemma_column_sum_update(self.allocation, t, self.allocation[t].update(r, v), q);
    }

    /// A request moves units from free to held or moves none, whatever
    /// becomes of it.
    pub proof fn lemma_acquire_conserves_units(self, detect: bool, t: int, r: int, n: nat, q: int)
        requires
            self.wf(),
            self.has_entry(t, r),
            0 <= q < self.resource_count(),
        ensures
            self.after_acquire(detect, t, r, n).units(q) == self.units(q),
    {
        self.lemma_grant_conserves_units(t, r, n, q);
    }

    /// Settling a grant after a wait loses no unit, whether the grant stands
    /// or not.
    pub proof fn lemma_settle_conserves_units(self, detect: bool, t: int, r: int, n: nat, q: int)
        requires
            self.wf(),
            self.has_entry(t, r),
            0 <= q < self.resource_count(),
        ensures
            self.after_settle(detect, t, r, n).units(q) == self.units(q),
    {
        self.withdraw(t, r, n).lemma_grant_conserves_units(t, r, n, q);
    }

    /// A sleep on a condition variable loses no unit, neither when it starts
    /// nor when it ends.
    pub proof fn lemma_sleep_conserves_units(self, t: int, r: int, q: int)
        requires
            self.wf(),
            self.has_entry(t, r),
            self.allocation[t][r] >= 1,
            0 <= q < self.resource_count(),
        ensures
            self.park(t, r).units(q) == self.units(q),
            self.unpark(t, r).units(q) == self.units(q),
    {
        self.lemma_release_conserves_units(t, r, 1, q);
        self.withdraw(t, r, 1).lemma_grant_conserves_units(t, r, 1, q);
    }

    /// A task that runs to completion in the simulation gives back exactly
    /// what it held.
    pub proof fn lemma_complete_conserves_units(self, t: int, q: int)
        requires
            self.wf(),
            0 <= t < self.task_count(),
            0 <= q < self.resource_count(),
        ensures
            self.complete(t).units(q) == self.units(q),
    {
        lemma_column_sum_update(self.allocation, t, crate::model::zero_row(self.work.len()), q);
    }
}

/// A step that sets the matrix up.
pub enum Setup {
    /// Resource `id` is registered with `units` units.
    Resource { id: nat, units: nat },
    /// Task `id` is registered.
    Task { id: nat },
}

/// The state after one more step.
pub open spec fn after_step(s: SafetyState, step: Setup) -> SafetyState {
    match step {
        Setup::Resource { id, units } => s.add_resource(id, units as int),
        Setup::Task { id } => s.add_task(id),
    }
}

/// The state that `steps` lead to from the empty matrix.
pub open spec fn after_steps(steps: Seq<Setup>) -> SafetyState
    decreases steps.len(),
{
    if steps.len() == 0 {
        SafetyState::empty()
    } else {
        after_step(after_steps(steps.drop_last()), steps.last())
    }
}

/// The units that resource `r` was last registered with, and zero where no
/// step registered it.
pub open spec fn registered(steps: Seq<Setup>, r: int) -> int
    decreases steps.len(),
{
    if steps.len() == 0 {
        0
    } else {
        match steps.last() {
            Setup::Resource { id, units } => if id == r {
                units as int
            } else {
                registered(steps.drop_last(), r)
            },
            Setup::Task { id } => registered(steps.drop_last(), r),
        }
    }
}

/// Setting up keeps the matrix well formed with nothing held, the free units
/// of each resource are those it was registered with, and every registered
/// resource has its column.
pub proof fn lemma_setup_state(steps: Seq<Setup>)
    ensures
        after_steps(steps).wf(),
        after_steps(steps).nothing_held(),
        forall|r: int| 0 <= r < after_steps(steps).resource_count() ==> #[trigger] after_steps(steps).work[r] == registered(steps, r),
        forall|r: int| r >= after_steps(steps).resource_count() ==> #[trigger] registered(steps, r) == 0,
    decreases steps.len(),
{
    if steps.len() > 0 {
        let before = steps.drop_last();
        lemma_setup_state(before);
        assert forall|r: int| 0 <= r < after_steps(steps).resource_count() implies #[trigger] after_steps(steps).work[r]
            == registered(steps, r) by {
            if r >= after_steps(before).resource_count() {
                assert(registered(before, r) == 0);
            } else {
                assert(after_steps(before).work[r] == registered(before, r));
            }
        }
        assert forall|r: int| r >= after_steps(steps).resource_count() implies #[trigger] registered(steps, r) == 0 by {
            assert(registered(before, r) == 0);
        }
    }
}

/// After any sequence of resource and task registrations, the free units of
/// each resource and the units that the tasks hold of it add up to the units
/// it was registered with.
pub proof fn lemma_setup_conserves_units(steps: Seq<Setup>, r: int)
    requires
        0 <= r < after_steps(steps).resource_count(),
    ensures
        after_steps(steps).units(r) == registered(steps, r),
{
    lemma_setup_state(steps);
    let s = after_steps(steps);
    assert forall|t: int| 0 <= t < s.allocation.len() implies (#[trigger] s.allocation[t])[r] == 0 by {
        assert(s.allocation[t].len() == s.work.len());
        assert(s.allocation[t][r] == 0);
    }
    lemma_column_sum_zero(s.allocation, r);
}

} // verus!
