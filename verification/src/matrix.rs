//! The safety-state matrix: growable counters indexed by task and resource,
//! and the check that tells a safe state from an unsafe one.
use vstd::prelude::*;
use crate::model::{SafetyState, zero_row, reset_column, lemma_count_false_update};

verus! {

/// Deadlock-detection bookkeeping owned by one process.
pub struct DdStruct {
    /// Free units of each resource, indexed by resource id.
    pub work: Vec<isize>,
    /// Units held, indexed by task id, then resource id.
    pub allocation: Vec<Vec<usize>>,
    /// Units requested and not yet received, indexed by task id, then resource id.
    pub need: Vec<Vec<usize>>,
    /// Whether each task is retired, indexed by task id.
    pub finish: Vec<bool>,
    resource_count: usize,
    task_count: usize,
}

/// The model of one row of counters.
spec fn row_view(row: Seq<usize>) -> Seq<nat> {
    Seq::new(row.len(), |r: int| row[r] as nat)
}

/// The model of a matrix of counters.
spec fn rows_view(rows: Seq<Vec<usize>>) -> Seq<Seq<nat>> {
    Seq::new(rows.len(), |t: int| row_view(rows[t]@))
}

impl View for DdStruct {
    type V = SafetyState;

    closed spec fn view(&self) -> SafetyState {
        SafetyState {
            work: Seq::new(self.work@.len(), |r: int| self.work@[r] as int),
            allocation: rows_view(self.allocation@),
            need: rows_view(self.need@),
            finish: self.finish@,
        }
    }
}

impl Clone for DdStruct {
    /// A copy with the same counters.
    fn clone(&self) -> (copy: Self)
        ensures
            copy@ == self@,
            self.wf() ==> copy.wf(),
    {
        let copy = DdStruct {
            work: self.work.clone(),
            allocation: self.allocation.clone(),
            need: self.need.clone(),
            finish: self.finish.clone(),
            resource_count: self.resource_count,
            task_count: self.task_count,
        };
        assert(copy@.work =~= self@.work);
        assert(copy@.finish =~= self@.finish);
        assert(copy@.allocation =~~= self@.allocation);
        assert(copy@.need =~~= self@.need);
        copy
    }
}

impl DdStruct {
    /// The stored dimensions agree with the vectors.
    pub closed spec fn dimensions_agree(&self) -> bool {
        &&& self.resource_count == self.work.len()
        &&& self.task_count == self.finish.len()
    }

    /// The stored dimensions agree with the vectors, the model is well formed
    /// and its counters are machine integers.
    pub open spec fn wf(&self) -> bool {
        &&& self.dimensions_agree()
        &&& self@.wf()
        &&& self@.representable()
    }

    /// What well-formedness says of the vectors themselves.
    proof fn lemma_shape(&self)
        requires
            self.wf(),
        ensures
            self.work@.len() == self.resource_count,
            self.finish@.len() == self.task_count,
            self.allocation@.len() == self.task_count,
            self.need@.len() == self.task_count,
            forall|t: int| 0 <= t < self.task_count ==> (#[trigger] self.allocation@[t])@.len() == self.resource_count,
            forall|t: int| 0 <= t < self.task_count ==> (#[trigger] self.need@[t])@.len() == self.resource_count,
    {
        assert forall|t: int| 0 <= t < self.task_count implies (#[trigger] self.allocation@[t])@.len() == self.resource_count by {
            assert(self@.allocation[t].len() == self.resource_count);
        }
        assert forall|t: int| 0 <= t < self.task_count implies (#[trigger] self.need@[t])@.len() == self.resource_count by {
            assert(self@.need[t].len() == self.resource_count);
        }
    }

    /// An empty matrix: no resources, and one task that has not finished.
    pub fn new() -> (dd: DdStruct)
        ensures
            dd.wf(),
            dd@ == SafetyState::empty(),
    {
        let mut allocation: Vec<Vec<usize>> = Vec::new();
        allocation.push(Vec::new());
        let mut need: Vec<Vec<usize>> = Vec::new();
        need.push(Vec::new());
        let mut finish: Vec<bool> = Vec::new();
        finish.push(false);
        let dd = DdStruct {
            work: Vec::new(),
            allocation,
            need,
            finish,
            resource_count: 0,
            task_count: 1,
        };
        assert(dd@.work =~= Seq::<int>::empty());
        assert(dd@.allocation =~~= seq![Seq::<nat>::empty()]);
        assert(dd@.need =~~= seq![Seq::<nat>::empty()]);
        assert(dd@.finish =~= seq![false]);
        dd
    }
}

impl DdStruct {
    /// Registers resource `id` with `count` free units. An id already in the
    /// matrix has its column reset; a new one grows the matrix up to and
    /// including `id`.
    pub fn add_resource(&mut self, id: usize, count: usize)
        requires
            old(self).wf(),
            id < usize::MAX,
            count <= isize::MAX,
        ensures
            final(self).wf(),
            final(self)@ == old(self)@.add_resource(id as nat, count as int),
    {
        let n = self.resource_count;
        proof {
            self.lemma_shape();
        }
        if id < n {
            self.work[id] = count as isize;
        } else {
            while self.work.len() < id
                invariant
                    n <= self.work@.len() <= id,
                    n == old(self).work@.len(),
                    forall|r: int| 0 <= r < n ==> self.work@[r] == old(self).work@[r],
                    forall|r: int| n <= r < self.work@.len() ==> self.work@[r] == 0,
                    self.allocation == old(self).allocation,
                    self.need == old(self).need,
                    self.finish == old(self).finish,
                    self.task_count == old(self).task_count,
                decreases id - self.work@.len(),
            {
                self.work.push(0);
            }
            self.work.push(count as isize);
            self.resource_count = id + 1;
        }
        reset_entries(&mut self.allocation, id, n);
        reset_entries(&mut self.need, id, n);
        assert(self@.work =~= old(self)@.add_resource(id as nat, count as int).work);
        assert(self@.allocation =~~= old(self)@.add_resource(id as nat, count as int).allocation);
        assert(self@.need =~~= old(self)@.add_resource(id as nat, count as int).need);
    }

    /// Destroys resource `id`: its free units and its column drop to zero.
    pub fn delete_resource(&mut self, id: usize)
        requires
            old(self).wf(),
            id < old(self)@.resource_count(),
        ensures
            final(self).wf(),
            final(self)@ == old(self)@.delete_resource(id as nat),
    {
        proof {
            self.lemma_shape();
        }
        self.add_resource(id, 0);
        assert(self@.work =~= old(self)@.delete_resource(id as nat).work);
        assert(self@.allocation =~~= old(self)@.delete_resource(id as nat).allocation);
        assert(self@.need =~~= old(self)@.delete_resource(id as nat).need);
    }

    /// Registers task `id`. An id already in the matrix has its row reset and
    /// its flag cleared; a new one grows the matrix up to and including `id`.
    pub fn add_task(&mut self, id: usize)
        requires
            old(self).wf(),
            id < usize::MAX,
        ensures
            final(self).wf(),
            final(self)@ == old(self)@.add_task(id as nat),
    {
        let n = self.task_count;
        proof {
            self.lemma_shape();
        }
        if id < n {
            self.allocation[id] = vec![0usize; self.resource_count];
            self.need[id] = vec![0usize; self.resource_count];
            self.finish[id] = false;
        } else {
            while self.task_count <= id
                invariant
                    id < usize::MAX,
                    n <= self.task_count <= id + 1,
                    n == old(self).finish@.len(),
                    n == old(self).allocation@.len(),
                    n == old(self).need@.len(),
                    self.task_count == self.finish@.len(),
                    self.allocation@.len() == self.task_count,
                    self.need@.len() == self.task_count,
                    self.work == old(self).work,
                    self.resource_count == old(self).resource_count,
                    forall|t: int| 0 <= t < n ==> self.allocation@[t] == old(self).allocation@[t],
                    forall|t: int| 0 <= t < n ==> self.need@[t] == old(self).need@[t],
                    forall|t: int| 0 <= t < n ==> self.finish@[t] == old(self).finish@[t],
                    forall|t: int| n <= t < self.task_count ==> row_view(#[trigger] self.allocation@[t]@) == zero_row(self.resource_count as nat),
                    forall|t: int| n <= t < self.task_count ==> row_view(#[trigger] self.need@[t]@) == zero_row(self.resource_count as nat),
                    forall|t: int| n <= t < self.task_count ==> self.finish@[t] == false,
                decreases id + 1 - self.task_count,
            {
                self.task_count = self.task_count + 1;
                let a = vec![0usize; self.resource_count];
                let b = vec![0usize; self.resource_count];
                assert(row_view(a@) =~= zero_row(self.resource_count as nat));
                assert(row_view(b@) =~= zero_row(self.resource_count as nat));
                self.allocation.push(a);
                self.need.push(b);
                self.finish.push(false);
            }
        }
        assert(self@.allocation =~~= old(self)@.add_task(id as nat).allocation);
        assert(self@.need =~~= old(self)@.add_task(id as nat).need);
        assert(self@.finish =~= old(self)@.add_task(id as nat).finish);
        assert(self@.work =~= old(self)@.add_task(id as nat).work);
    }

    /// Retires task `id`, which has given back all it held: the safety check
    /// leaves it out from now on. Its counters stay as they are.
    pub fn delete_task(&mut self, id: usize)
        requires
            old(self).wf(),
            id < old(self)@.task_count(),
            old(self)@.holds_nothing(id as int),
        ensures
            final(self).wf(),
            final(self)@ == old(self)@.delete_task(id as nat),
    {
        proof {
            self.lemma_shape();
        }
        self.finish[id] = true;
        assert(self@.finish =~= old(self)@.delete_task(id as nat).finish);
    }
}

impl DdStruct {
    /// The number of resource columns.
    pub fn resource_count(&self) -> (n: usize)
        requires
            self.wf(),
        ensures
            n == self@.resource_count(),
    {
        self.resource_count
    }

    /// The number of task rows.
    pub fn task_count(&self) -> (n: usize)
        requires
            self.wf(),
        ensures
            n == self@.task_count(),
    {
        self.task_count
    }

    /// The free units of resource `r`.
    pub fn free_units(&self, r: usize) -> (n: isize)
        requires
            self.wf(),
            r < self@.resource_count(),
        ensures
            n == self@.work[r as int],
    {
        self.work[r]
    }

    /// The units of resource `r` that task `t` holds.
    pub fn held(&self, t: usize, r: usize) -> (n: usize)
        requires
            self.wf(),
            self@.has_entry(t as int, r as int),
        ensures
            n == self@.allocation[t as int][r as int],
    {
        proof {
            self.lemma_shape();
        }
        self.allocation[t][r]
    }

    /// The units of resource `r` that task `t` has asked for and not received.
    pub fn wanted(&self, t: usize, r: usize) -> (n: usize)
        requires
            self.wf(),
            self@.has_entry(t as int, r as int),
        ensures
            n == self@.need[t as int][r as int],
    {
        proof {
            self.lemma_shape();
        }
        self.need[t][r]
    }

    /// Whether task `t` is retired.
    pub fn is_finished(&self, t: usize) -> (b: bool)
        requires
            self.wf(),
            t < self@.task_count(),
        ensures
            b == self@.finish[t as int],
    {
        self.finish[t]
    }

    /// Records that task `t` asks for `n` more units of resource `r`.
    pub fn declare(&mut self, t: usize, r: usize, n: usize)
        requires
            old(self).wf(),
            old(self)@.has_entry(t as int, r as int),
            old(self)@.need[t as int][r as int] + n <= usize::MAX,
        ensures
            final(self).wf(),
            final(self)@ == old(self)@.declare(t as int, r as int, n as nat),
    {
        proof {
            self.lemma_shape();
        }
        let v = self.need[t][r] + n;
        self.need[t][r] = v;
        assert(self@.need =~~= old(self)@.declare(t as int, r as int, n as nat).need);
        assert(self@.allocation =~~= old(self)@.allocation);
    }

    /// Records that task `t` asks for `n` units of resource `r` fewer.
    pub fn withdraw(&mut self, t: usize, r: usize, n: usize)
        requires
            old(self).wf(),
            old(self)@.has_entry(t as int, r as int),
            n <= old(self)@.need[t as int][r as int],
        ensures
            final(self).wf(),
            final(self)@ == old(self)@.withdraw(t as int, r as int, n as nat),
    {
        proof {
            self.lemma_shape();
        }
        let v = self.need[t][r] - n;
        self.need[t][r] = v;
        assert(self@.need =~~= old(self)@.withdraw(t as int, r as int, n as nat).need);
        assert(self@.allocation =~~= old(self)@.allocation);
    }

    /// Passes `n` free units of resource `r` to task `t`.
    pub fn grant(&mut self, t: usize, r: usize, n: usize)
        requires
            old(self).wf(),
            old(self)@.has_entry(t as int, r as int),
            old(self)@.work[r as int] - n >= isize::MIN,
            old(self)@.allocation[t as int][r as int] + n <= usize::MAX,
        ensures
            final(self).wf(),
            final(self)@ == old(self)@.grant(t as int, r as int, n as nat),
    {
        proof {
            self.lemma_shape();
        }
        let v = self.allocation[t][r] + n;
        self.allocation[t][r] = v;
        let w = (self.work[r] as i128 - n as i128) as isize;
        self.work[r] = w;
        assert(self@.allocation =~~= old(self)@.grant(t as int, r as int, n as nat).allocation);
        assert(self@.need =~~= old(self)@.need);
        assert(self@.work =~= old(self)@.grant(t as int, r as int, n as nat).work);
    }

    /// Frees `n` units of resource `r` that task `t` holds.
    pub fn release(&mut self, t: usize, r: usize, n: usize)
        requires
            old(self).wf(),
            old(self)@.has_entry(t as int, r as int),
            n <= old(self)@.allocation[t as int][r as int],
            old(self)@.work[r as int] + n <= isize::MAX,
        ensures
            final(self).wf(),
            final(self)@ == old(self)@.release(t as int, r as int, n as nat),
    {
        proof {
            self.lemma_shape();
        }
        let v = self.allocation[t][r] - n;
        self.allocation[t][r] = v;
        let w = (self.work[r] as i128 + n as i128) as isize;
        self.work[r] = w;
        assert(self@.allocation =~~= old(self)@.release(t as int, r as int, n as nat).allocation);
        assert(self@.need =~~= old(self)@.need);
        assert(self@.work =~= old(self)@.release(t as int, r as int, n as nat).work);
    }
}

/// Free units beyond this bound cover any request a counter can hold, so the
/// simulation need not count past it.
const WORK_CEILING: i128 = 0xffff_ffff_ffff_ffff;

/// `x`, held at the ceiling.
spec fn capped(x: int) -> int {
    if x > WORK_CEILING { WORK_CEILING as int } else { x }
}

impl DdStruct {
    /// Whether the state is safe: 0 where the unfinished tasks can all run to
    /// completion one after the other, -1 where they cannot.
    pub fn check_state(&self) -> (r: i32)
        requires
            self.wf(),
        ensures
            r == 0 <==> self@.safe(),
            r == 0 || r == -1,
    {
        proof {
            self.lemma_shape();
        }
        let mut work: Vec<i128> = Vec::new();
        let mut r: usize = 0;
        while r < self.resource_count
            invariant
                self.work@.len() == self.resource_count,
                r <= self.resource_count,
                work@.len() == r,
                forall|q: int| 0 <= q < r ==> work@[q] == self.work@[q],
            decreases self.resource_count - r,
        {
            work.push(self.work[r] as i128);
            r += 1;
        }
        let mut finish: Vec<bool> = self.finish.clone();
        let ghost mut cur: SafetyState = self@;
        loop
            invariant
                self.wf(),
                self.work@.len() == self.resource_count,
                self.finish@.len() == self.task_count,
                self.allocation@.len() == self.task_count,
                self.need@.len() == self.task_count,
                forall|t: int| 0 <= t < self.task_count ==> (#[trigger] self.allocation@[t])@.len() == self.resource_count,
                forall|t: int| 0 <= t < self.task_count ==> (#[trigger] self.need@[t])@.len() == self.resource_count,
                cur.wf(),
                cur.safe() == self@.safe(),
                cur.finish == finish@,
                cur.finish.len() == self.task_count,
                cur.work.len() == self.resource_count,
                work@.len() == self.resource_count,
                forall|q: int| 0 <= q < self.resource_count ==> work@[q] == capped(#[trigger] cur.work[q]),
                forall|q: int| 0 <= q < self.resource_count ==> isize::MIN <= #[trigger] work@[q] <= WORK_CEILING,
                forall|t: int| 0 <= t < self.task_count && !cur.finish[t] ==> #[trigger] cur.need[t] == row_view(self.need@[t]@),
                forall|t: int| 0 <= t < self.task_count && !cur.finish[t] ==> #[trigger] cur.allocation[t] == row_view(self.allocation@[t]@),
            decreases cur.unfinished(),
        {
            let mut all_done = true;
            let mut found: Option<usize> = None;
            let mut t: usize = 0;
            while t < self.task_count && found.is_none()
                invariant
                    self.finish@.len() == self.task_count,
                    self.need@.len() == self.task_count,
                    forall|u: int| 0 <= u < self.task_count ==> (#[trigger] self.need@[u])@.len() == self.resource_count,
                    cur.wf(),
                    cur.finish == finish@,
                    cur.finish.len() == self.task_count,
                    cur.work.len() == self.resource_count,
                    work@.len() == self.resource_count,
                    forall|q: int| 0 <= q < self.resource_count ==> work@[q] == capped(#[trigger] cur.work[q]),
                    forall|u: int| 0 <= u < self.task_count && !cur.finish[u] ==> #[trigger] cur.need[u] == row_view(self.need@[u]@),
                    t <= self.task_count,
                    match found {
                        Some(f) => f < self.task_count && cur.eligible(f as int) && forall|u: int| 0 <= u < f ==> !cur.eligible(u),
                        None => forall|u: int| 0 <= u < t ==> !cur.eligible(u),
                    },
                    found.is_none() ==> (all_done <==> forall|u: int| 0 <= u < t ==> cur.finish[u]),
                    found.is_some() ==> !all_done,
                decreases self.task_count - t + if found.is_none() { 1int } else { 0int },
            {
                if !finish[t] {
                    all_done = false;
                    if row_fits(&self.need[t], &work) {
                        proof {
                            assert forall|q: int| 0 <= q < cur.work.len() implies cur.need[t as int][q] <= cur.work[q] by {
                                assert(work@[q] == capped(cur.work[q]));
                                assert(self.need@[t as int]@[q] <= work@[q]);
                            }
                        }
                        found = Some(t);
                    } else {
                        proof {
                            let q = choose|q: int| 0 <= q < self.resource_count && !(self.need@[t as int]@[q] <= work@[q]);
                            assert(work@[q] == capped(cur.work[q]));
                            assert(!(cur.need[t as int][q] <= cur.work[q]));
                        }
                        t += 1;
                    }
                } else {
                    t += 1;
                }
            }
            match found {
                None => {
                    proof {
                        cur.lemma_search_skips(0, self.task_count as int);
                    }
                    if all_done {
                        return 0;
                    } else {
                        return -1;
                    }
                },
                Some(f) => {
                    proof {
                        cur.lemma_search_skips(0, f as int);
                        lemma_count_false_update(cur.finish, f as int);
                    }
                    let ghost before = cur;
                    let mut q: usize = 0;
                    while q < self.resource_count
                        invariant
                            f < self.task_count,
                            self.allocation@.len() == self.task_count,
                            self.allocation@[f as int]@.len() == self.resource_count,
                            before.allocation.len() == self.task_count,
                            before.allocation[f as int] == row_view(self.allocation@[f as int]@),
                            before.work.len() == self.resource_count,
                            forall|p: int| 0 <= p < self.resource_count ==> isize::MIN <= #[trigger] work@[p] <= WORK_CEILING,
                            work@.len() == self.resource_count,
                            q <= self.resource_count,
                            forall|p: int| 0 <= p < q ==> work@[p] == capped(before.work[p] + #[trigger] before.allocation[f as int][p]),
                            forall|p: int| q <= p < self.resource_count ==> work@[p] == capped(#[trigger] before.work[p]),
                        decreases self.resource_count - q,
                    {
                        let sum: i128 = work[q] + self.allocation[f][q] as i128;
                        work[q] = if sum > WORK_CEILING { WORK_CEILING } else { sum };
                        q += 1;
                    }
                    finish[f] = true;
                    proof {
                        cur = before.complete(f as int);
                        assert(cur.finish =~= finish@);
                    }
                },
            }
        }
    }
}

/// Whether the free units in `work` cover every entry of `need`.
fn row_fits(need: &Vec<usize>, work: &Vec<i128>) -> (fits: bool)
    requires
        need@.len() == work@.len(),
    ensures
        fits <==> forall|r: int| 0 <= r < need@.len() ==> need@[r] <= work@[r],
{
    let mut r: usize = 0;
    while r < need.len()
        invariant
            need@.len() == work@.len(),
            r <= need@.len(),
            forall|q: int| 0 <= q < r ==> need@[q] <= work@[q],
        decreases need@.len() - r,
    {
        if need[r] as i128 > work[r] {
            return false;
        }
        r += 1;
    }
    true
}

/// Zeroes entry `id` of `row`, growing the row with zeros up to and including
/// `id` where it is shorter.
fn reset_entry(row: &mut Vec<usize>, id: usize)
    requires
        id < usize::MAX,
    ensures
        row_view(final(row)@) == reset_column(
            row_view(old(row)@),
            id as nat,
            if id < old(row)@.len() { old(row)@.len() } else { (id + 1) as nat },
        ),
{
    if id < row.len() {
        row[id] = 0;
    } else {
        while row.len() <= id
            invariant
                id < usize::MAX,
                old(row)@.len() <= row@.len() <= id + 1,
                forall|r: int| 0 <= r < old(row)@.len() ==> row@[r] == old(row)@[r],
                forall|r: int| old(row)@.len() <= r < row@.len() ==> row@[r] == 0,
            decreases id + 1 - row@.len(),
        {
            row.push(0);
        }
    }
    assert(row_view(row@) =~= reset_column(
        row_view(old(row)@),
        id as nat,
        if id < old(row)@.len() { old(row)@.len() } else { (id + 1) as nat },
    ));
}

/// Applies `reset_entry` to every row.
fn reset_entries(rows: &mut Vec<Vec<usize>>, id: usize, n: usize)
    requires
        id < usize::MAX,
        forall|t: int| 0 <= t < old(rows)@.len() ==> (#[trigger] old(rows)@[t])@.len() == n,
    ensures
        final(rows)@.len() == old(rows)@.len(),
        forall|t: int| 0 <= t < old(rows)@.len() ==> row_view(#[trigger] final(rows)@[t]@) == reset_column(
            row_view(old(rows)@[t]@),
            id as nat,
            if id < n { n as nat } else { (id + 1) as nat },
        ),
{
    let mut t: usize = 0;
    while t < rows.len()
        invariant
            id < usize::MAX,
            t <= rows@.len(),
            rows@.len() == old(rows)@.len(),
            forall|u: int| 0 <= u < old(rows)@.len() ==> (#[trigger] old(rows)@[u])@.len() == n,
            forall|u: int| t <= u < rows@.len() ==> rows@[u] == old(rows)@[u],
            forall|u: int| 0 <= u < t ==> row_view(#[trigger] rows@[u]@) == reset_column(
                row_view(old(rows)@[u]@),
                id as nat,
                if id < n { n as nat } else { (id + 1) as nat },
            ),
        decreases rows@.len() - t,
    {
        reset_entry(&mut rows[t], id);
        t += 1;
    }
}

} // verus!
