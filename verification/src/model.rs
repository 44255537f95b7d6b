//! The mathematical model of the safety state, and what it means to be safe.
use vstd::prelude::*;

verus! {

/// Mathematical model of the bookkeeping: one column per resource, one row per task.
pub struct SafetyState {
    /// Free units of each resource.
    pub work: Seq<int>,
    /// Units of each resource held by each task; indexed by task, then resource.
    pub allocation: Seq<Seq<nat>>,
    /// Units of each resource requested and not yet received; indexed by task, then resource.
    pub need: Seq<Seq<nat>>,
    /// Whether each task is excluded from the safety simulation.
    pub finish: Seq<bool>,
}

/// A row of `n` zeros.
pub open spec fn zero_row(n: nat) -> Seq<nat> {
    Seq::new(n, |r: int| 0nat)
}

/// `row` with `n` entries, entry `id` zeroed and new entries zero.
pub open spec fn reset_column(row: Seq<nat>, id: nat, n: nat) -> Seq<nat> {
    Seq::new(n, |r: int| if r != id && r < row.len() { row[r] } else { 0nat })
}

/// `rows` with the entry of task `t` and resource `r` set to `v`.
pub open spec fn set_entry(rows: Seq<Seq<nat>>, t: int, r: int, v: nat) -> Seq<Seq<nat>> {
    rows.update(t, rows[t].update(r, v))
}

/// The number of `false` entries of `flags`.
pub open spec fn count_false(flags: Seq<bool>) -> nat
    decreases flags.len(),
{
    if flags.len() == 0 {
        0
    } else {
        count_false(flags.drop_last()) + if flags.last() { 0nat } else { 1nat }
    }
}

/// Setting a `false` entry leaves one `false` entry fewer.
pub proof fn lemma_count_false_update(flags: Seq<bool>, i: int)
    requires
        0 <= i < flags.len(),
        !flags[i],
    ensures
        count_false(flags.update(i, true)) + 1 == count_false(flags),
    decreases flags.len(),
{
    if i == flags.len() - 1 {
        assert(flags.update(i, true).drop_last() =~= flags.drop_last());
    } else {
        lemma_count_false_update(flags.drop_last(), i);
        assert(flags.update(i, true).drop_last() =~= flags.drop_last().update(i, true));
    }
}

impl SafetyState {
    /// The number of resource columns.
    pub open spec fn resource_count(self) -> nat {
        self.work.len()
    }

    /// The number of task rows.
    pub open spec fn task_count(self) -> nat {
        self.finish.len()
    }

    /// The three per-task structures have one row per task, and every row has
    /// one entry per resource.
    pub open spec fn wf(self) -> bool {
        &&& self.allocation.len() == self.finish.len()
        &&& self.need.len() == self.finish.len()
        &&& forall|t: int| 0 <= t < self.finish.len() ==> (#[trigger] self.allocation[t]).len() == self.work.len()
        &&& forall|t: int| 0 <= t < self.finish.len() ==> (#[trigger] self.need[t]).len() == self.work.len()
    }

    /// Every counter fits the machine integer that holds it.
    pub open spec fn representable(self) -> bool {
        &&& forall|r: int| 0 <= r < self.work.len() ==> isize::MIN <= #[trigger] self.work[r] <= isize::MAX
        &&& forall|t: int, r: int|
            0 <= t < self.allocation.len() && 0 <= r < self.allocation[t].len() ==> #[trigger] self.allocation[t][r]
                <= usize::MAX
        &&& forall|t: int, r: int|
            0 <= t < self.need.len() && 0 <= r < self.need[t].len() ==> #[trigger] self.need[t][r] <= usize::MAX
    }

    /// The state after resource `id` is registered with `units` free units: its
    /// column is zeroed, and the matrix grows to hold it, with zero columns in
    /// between, where it is new.
    pub open spec fn add_resource(self, id: nat, units: int) -> SafetyState {
        let n = if id < self.work.len() { self.work.len() } else { id + 1 };
        SafetyState {
            work: Seq::new(
                n,
                |r: int| if r == id { units } else if r < self.work.len() { self.work[r] } else { 0 },
            ),
            allocation: Seq::new(
                self.allocation.len(),
                |t: int| reset_column(self.allocation[t], id, n),
            ),
            need: Seq::new(self.need.len(), |t: int| reset_column(self.need[t], id, n)),
            finish: self.finish,
        }
    }

    /// The state after resource `id` is destroyed: its column is zeroed, the
    /// dimensions stay.
    pub open spec fn delete_resource(self, id: nat) -> SafetyState {
        SafetyState {
            work: self.work.update(id as int, 0),
            allocation: Seq::new(self.allocation.len(), |t: int| self.allocation[t].update(id as int, 0)),
            need: Seq::new(self.need.len(), |t: int| self.need[t].update(id as int, 0)),
            finish: self.finish,
        }
    }

    /// The state after task `id` is registered: its row is zeroed and not
    /// finished, and the matrix grows to hold it, with fresh rows in between,
    /// where it is new.
    pub open spec fn add_task(self, id: nat) -> SafetyState {
        let n = if id < self.finish.len() { self.finish.len() } else { id + 1 };
        SafetyState {
            work: self.work,
            allocation: Seq::new(
                n,
                |t: int| if t != id && t < self.finish.len() { self.allocation[t] } else { zero_row(self.work.len()) },
            ),
            need: Seq::new(
                n,
                |t: int| if t != id && t < self.finish.len() { self.need[t] } else { zero_row(self.work.len()) },
            ),
            finish: Seq::new(
                n,
                |t: int| if t != id && t < self.finish.len() { self.finish[t] } else { false },
            ),
        }
    }

    /// Task `t` holds no unit of any resource.
    pub open spec fn holds_nothing(self, t: int) -> bool {
        forall|r: int| 0 <= r < self.work.len() ==> #[trigger] self.allocation[t][r] == 0
    }

    /// The state after task `id` is retired: only its flag changes.
    pub open spec fn delete_task(self, id: nat) -> SafetyState {
        SafetyState { finish: self.finish.update(id as int, true), ..self }
    }

    /// `t` names a task and `r` a resource of this state.
    pub open spec fn has_entry(self, t: int, r: int) -> bool {
        0 <= t < self.finish.len() && 0 <= r < self.work.len()
    }

    /// Task `t` asks for `n` more units of resource `r`.
    pub open spec fn declare(self, t: int, r: int, n: nat) -> SafetyState {
        SafetyState { need: set_entry(self.need, t, r, self.need[t][r] + n), ..self }
    }

    /// Task `t` asks for `n` units of resource `r` fewer.
    pub open spec fn withdraw(self, t: int, r: int, n: nat) -> SafetyState {
        SafetyState { need: set_entry(self.need, t, r, (self.need[t][r] - n) as nat), ..self }
    }

    /// `n` free units of resource `r` pass to task `t`.
    pub open spec fn grant(self, t: int, r: int, n: nat) -> SafetyState {
        SafetyState {
            work: self.work.update(r, self.work[r] - n),
            allocation: set_entry(self.allocation, t, r, self.allocation[t][r] + n),
            ..self
        }
    }

    /// `n` units of resource `r` that task `t` holds are free again.
    pub open spec fn release(self, t: int, r: int, n: nat) -> SafetyState {
        SafetyState {
            work: self.work.update(r, self.work[r] + n),
            allocation: set_entry(self.allocation, t, r, (self.allocation[t][r] - n) as nat),
            ..self
        }
    }

    /// Task `t` has not finished and every unit it still asks for is free.
    pub open spec fn eligible(self, t: int) -> bool {
        &&& 0 <= t < self.finish.len()
        &&& !self.finish[t]
        &&& forall|r: int| 0 <= r < self.work.len() ==> self.need[t][r] <= self.work[r]
    }

    /// Every task has finished.
    pub open spec fn all_finished(self) -> bool {
        forall|t: int| 0 <= t < self.finish.len() ==> self.finish[t]
    }

    /// The lowest eligible task at or after `from`, if there is one.
    pub open spec fn first_eligible_from(self, from: int) -> Option<int>
        decreases self.finish.len() - from,
    {
        if from < 0 || from >= self.finish.len() {
            None
        } else if self.eligible(from) {
            Some(from)
        } else {
            self.first_eligible_from(from + 1)
        }
    }

    /// The lowest eligible task, if there is one.
    pub open spec fn first_eligible(self) -> Option<int> {
        self.first_eligible_from(0)
    }

    /// The state after task `t` runs to completion: what it held is free again,
    /// its row is zero and it has finished.
    pub open spec fn complete(self, t: int) -> SafetyState {
        SafetyState {
            work: Seq::new(self.work.len(), |r: int| self.work[r] + self.allocation[t][r]),
            allocation: self.allocation.update(t, zero_row(self.work.len())),
            need: self.need.update(t, zero_row(self.work.len())),
            finish: self.finish.update(t, true),
        }
    }

    /// The number of tasks that have not finished.
    pub open spec fn unfinished(self) -> nat {
        count_false(self.finish)
    }

    /// Whether the tasks that have not finished can all run to completion, one
    /// after the other, each time taking the lowest eligible task.
    pub open spec fn safe(self) -> bool
        decreases self.unfinished(),
        via Self::safe_terminates
    {
        if self.all_finished() {
            true
        } else {
            match self.first_eligible() {
                None => false,
                Some(t) => self.complete(t).safe(),
            }
        }
    }

    #[via_fn]
    proof fn safe_terminates(self) {
        if !self.all_finished() {
            match self.first_eligible() {
                None => {},
                Some(t) => {
                    self.lemma_first_eligible();
                    lemma_count_false_update(self.finish, t);
                },
            }
        }
    }

    /// Tasks that are not eligible may be skipped in the search.
    pub proof fn lemma_search_skips(self, from: int, to: int)
        requires
            0 <= from <= to <= self.finish.len(),
            forall|u: int| from <= u < to ==> !self.eligible(u),
        ensures
            self.first_eligible_from(from) == self.first_eligible_from(to),
        decreases to - from,
    {
        if from < to {
            self.lemma_search_skips(from + 1, to);
        }
    }

    /// `first_eligible` gives an eligible task with none below it, and gives
    /// none only where no task is eligible.
    pub proof fn lemma_first_eligible(self)
        ensures
            match self.first_eligible() {
                Some(t) => self.eligible(t) && forall|u: int| 0 <= u < t ==> !self.eligible(u),
                None => forall|u: int| !self.eligible(u),
            },
    {
        self.lemma_first_eligible_from(0);
    }

    proof fn lemma_first_eligible_from(self, from: int)
        requires
            0 <= from,
        ensures
            match self.first_eligible_from(from) {
                Some(t) => from <= t && self.eligible(t) && forall|u: int| from <= u < t ==> !self.eligible(u),
                None => forall|u: int| from <= u ==> !self.eligible(u),
            },
        decreases self.finish.len() - from,
    {
        if from < self.finish.len() && !self.eligible(from) {
            self.lemma_first_eligible_from(from + 1);
        }
    }

    /// The state of a fresh process: no resources, one task that has not finished.
    pub open spec fn empty() -> SafetyState {
        SafetyState {
            work: Seq::empty(),
            allocation: seq![Seq::empty()],
            need: seq![Seq::empty()],
            finish: seq![false],
        }
    }
}

} // verus!
