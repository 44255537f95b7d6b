//! What keeps a safe state safe: giving units back, dropping a request, and
//! every request that detection admits.
use vstd::prelude::*;
use crate::model::SafetyState;
use crate::protocol::Admission;

verus! {

/// `ahead` is no worse off than `behind`: the same tasks have finished, no
/// unfinished task asks for more, no resource has fewer free units, and what
/// the unfinished tasks hold is the same but for task `t`, which has given
/// back early some of what it would give back on completion.
pub open spec fn no_worse_off(ahead: SafetyState, behind: SafetyState, t: int) -> bool {
    &&& ahead.wf()
    &&& behind.wf()
    &&& ahead.finish == behind.finish
    &&& ahead.work.len() == behind.work.len()
    &&& forall|r: int| 0 <= r < behind.work.len() ==> #[trigger] ahead.work[r] >= behind.work[r]
    &&& forall|u: int, r: int|
        0 <= u < behind.finish.len() && !behind.finish[u] && 0 <= r < behind.work.len() ==> #[trigger] ahead.need[u][r]
            <= behind.need[u][r]
    &&& forall|u: int, r: int|
        0 <= u < behind.finish.len() && !behind.finish[u] && u != t && 0 <= r < behind.work.len()
            ==> #[trigger] ahead.allocation[u][r] == behind.allocation[u][r]
    &&& 0 <= t < behind.finish.len() && !behind.finish[t] ==> forall|r: int|
        0 <= r < behind.work.len() ==> ahead.work[r] + #[trigger] ahead.allocation[t][r] == behind.work[r]
            + behind.allocation[t][r]
}

/// A task that can run in the state that is behind can run in the one that is
/// ahead, and after it has run the one is still no worse off than the other.
pub proof fn lemma_no_worse_off_after_complete(ahead: SafetyState, behind: SafetyState, t: int, u: int)
    requires
        no_worse_off(ahead, behind, t),
        behind.eligible(u),
    ensures
        ahead.eligible(u),
        no_worse_off(ahead.complete(u), behind.complete(u), t),
{
    let a = ahead.complete(u);
    let b = behind.complete(u);
    assert forall|r: int| 0 <= r < ahead.work.len() implies ahead.need[u][r] <= ahead.work[r] by {
        assert(ahead.need[u][r] <= behind.need[u][r]);
        assert(ahead.work[r] >= behind.work[r]);
    }
    assert forall|r: int| 0 <= r < b.work.len() implies #[trigger] a.work[r] >= b.work[r] by {
        if u != t {
            assert(ahead.allocation[u][r] == behind.allocation[u][r]);
        } else {
            assert(ahead.work[r] + ahead.allocation[t][r] == behind.work[r] + behind.allocation[t][r]);
        }
        assert(ahead.work[r] >= behind.work[r]);
    }
    assert forall|v: int, r: int|
        0 <= v < b.finish.len() && !b.finish[v] && 0 <= r < b.work.len() implies #[trigger] a.need[v][r]
        <= b.need[v][r] by {
        assert(ahead.need[v][r] <= behind.need[v][r]);
    }
    assert forall|v: int, r: int|
        0 <= v < b.finish.len() && !b.finish[v] && v != t && 0 <= r < b.work.len() implies #[trigger] a.allocation[v][r]
        == b.allocation[v][r] by {
        assert(ahead.allocation[v][r] == behind.allocation[v][r]);
    }
    if 0 <= t < b.finish.len() && !b.finish[t] {
        assert forall|r: int| 0 <= r < b.work.len() implies a.work[r] + #[trigger] a.allocation[t][r] == b.work[r]
            + b.allocation[t][r] by {
            assert(ahead.allocation[u][r] == behind.allocation[u][r]);
            assert(ahead.work[r] + ahead.allocation[t][r] == behind.work[r] + behind.allocation[t][r]);
        }
    }
}

/// An order in which the tasks can finish in the state that is behind lets
/// them finish in the state that is ahead.
pub proof fn lemma_no_worse_off_completes(ahead: SafetyState, behind: SafetyState, t: int, order: Seq<int>)
    requires
        no_worse_off(ahead, behind, t),
        behind.completes(order),
    ensures
        ahead.completes(order),
    decreases order.len(),
{
    if order.len() > 0 {
        lemma_no_worse_off_after_complete(ahead, behind, t, order[0]);
        lemma_no_worse_off_completes(
            ahead.complete(order[0]),
            behind.complete(order[0]),
            t,
            order.drop_first(),
        );
    }
}

/// A state that is no worse off than a safe state is safe.
pub proof fn lemma_no_worse_off_is_safe(ahead: SafetyState, behind: SafetyState, t: int)
    requires
        no_worse_off(ahead, behind, t),
        behind.safe(),
    ensures
        ahead.safe(),
{
    behind.lemma_safe_completes_greedily();
    lemma_no_worse_off_completes(ahead, behind, t, behind.greedy_order());
    ahead.lemma_completion_order_is_safe(behind.greedy_order());
}

impl SafetyState {
    /// Freeing units cannot make a safe state unsafe.
    pub proof fn lemma_release_keeps_safe(self, t: int, r: int, n: nat)
        requires
            self.wf(),
            self.has_entry(t, r),
            n <= self.allocation[t][r],
            self.safe(),
        ensures
            self.release(t, r, n).safe(),
    {
        lemma_no_worse_off_is_safe(self.release(t, r, n), self, t);
    }

    /// Dropping a request cannot make a safe state unsafe.
    pub proof fn lemma_withdraw_keeps_safe(self, t: int, r: int, n: nat)
        requires
            self.wf(),
            self.has_entry(t, r),
            n <= self.need[t][r],
            self.safe(),
        ensures
            self.withdraw(t, r, n).safe(),
    {
        lemma_no_worse_off_is_safe(self.withdraw(t, r, n), self, t);
    }

    /// With detection on, a request that is not refused leaves a safe state.
    pub proof fn lemma_admitted_request_is_safe(self, t: int, r: int, n: nat)
        requires
            self.admission(true, t, r, n) != Admission::Refused,
        ensures
            self.after_acquire(true, t, r, n).safe(),
    {
    }

    /// With detection on, a request leaves a safe state safe, whether it is
    /// granted, deferred or refused.
    pub proof fn lemma_acquire_keeps_safe(self, t: int, r: int, n: nat)
        requires
            self.safe(),
        ensures
            self.after_acquire(true, t, r, n).safe(),
    {
    }

    /// With detection on, settling a grant after a wait leaves a safe state
    /// safe, whether the grant stands or not.
    pub proof fn lemma_settle_keeps_safe(self, t: int, r: int, n: nat)
        requires
            self.wf(),
            self.has_entry(t, r),
            n <= self.need[t][r],
            self.safe(),
        ensures
            self.after_settle(true, t, r, n).safe(),
    {
        if !self.grant_stands(true, t, r, n) {
            self.lemma_withdraw_keeps_safe(t, r, n);
        }
    }
}

} // verus!
