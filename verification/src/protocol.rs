//! The acquisition protocol: how a request for units of a resource is
//! admitted, deferred or refused, and how a grant is undone.
use vstd::prelude::*;
use crate::matrix::DdStruct;
use crate::model::SafetyState;

verus! {

/// How a request fared before the task may block.
#[derive(Clone, Copy, Debug, PartialEq, Eq, Structural)]
pub enum Admission {
    /// The units passed to the task; the matrix shows them as held.
    Granted,
    /// The units are not free now. The matrix shows the request as pending, and
    /// the task waits on the primitive.
    Deferred,
    /// Admitting the request would leave the state unsafe. The matrix is as it
    /// was before the request.
    Refused,
}

impl SafetyState {
    /// The state in which a pending request of task `t` for `n` units of
    /// resource `r` has been met.
    pub open spec fn commit(self, t: int, r: int, n: nat) -> SafetyState {
        self.withdraw(t, r, n).grant(t, r, n)
    }

    /// How a request of task `t` for `n` units of resource `r` fares. With
    /// detection on, it is refused where the state with the request pending
    /// is unsafe, and where the units are free but the state with the units
    /// granted is unsafe. Otherwise it is granted where the units are free and
    /// deferred where they are not.
    pub open spec fn admission(self, detect: bool, t: int, r: int, n: nat) -> Admission {
        if detect && !self.declare(t, r, n).safe() {
            Admission::Refused
        } else if self.work[r] >= n {
            if detect && !self.grant(t, r, n).safe() {
                Admission::Refused
            } else {
                Admission::Granted
            }
        } else {
            Admission::Deferred
        }
    }

    /// The state that a request leaves behind.
    pub open spec fn after_acquire(self, detect: bool, t: int, r: int, n: nat) -> SafetyState {
        match self.admission(detect, t, r, n) {
            Admission::Granted => self.grant(t, r, n),
            Admission::Deferred => self.declare(t, r, n),
            Admission::Refused => self,
        }
    }

    /// Whether a grant that came after a wait may stand.
    pub open spec fn grant_stands(self, detect: bool, t: int, r: int, n: nat) -> bool {
        !detect || self.commit(t, r, n).safe()
    }

    /// The state that settling a grant after a wait leaves behind: the request
    /// is met where the grant stands and dropped where it does not.
    pub open spec fn after_settle(self, detect: bool, t: int, r: int, n: nat) -> SafetyState {
        if self.grant_stands(detect, t, r, n) {
            self.commit(t, r, n)
        } else {
            self.withdraw(t, r, n)
        }
    }

    /// The state while task `t` sleeps on a condition variable with mutex `r`:
    /// one unit it held is free, and it asks for one.
    pub open spec fn park(self, t: int, r: int) -> SafetyState {
        self.release(t, r, 1).declare(t, r, 1)
    }

    /// The state once the sleeper has the mutex back.
    pub open spec fn unpark(self, t: int, r: int) -> SafetyState {
        self.commit(t, r, 1)
    }

    /// Dropping a request right after declaring it changes nothing.
    pub proof fn lemma_withdraw_undoes_declare(self, t: int, r: int, n: nat)
        requires
            self.wf(),
            self.has_entry(t, r),
        ensures
            self.declare(t, r, n).withdraw(t, r, n) == self,
    {
        let back = self.declare(t, r, n).withdraw(t, r, n);
        assert(back.need =~~= self.need);
    }

    /// Meeting a request right after declaring it is a plain grant.
    pub proof fn lemma_commit_after_declare(self, t: int, r: int, n: nat)
        requires
            self.wf(),
            self.has_entry(t, r),
        ensures
            self.declare(t, r, n).commit(t, r, n) == self.grant(t, r, n),
    {
        let met = self.declare(t, r, n).commit(t, r, n);
        assert(met.need =~~= self.grant(t, r, n).need);
        assert(met.allocation =~~= self.grant(t, r, n).allocation);
    }

    /// Releasing what was just granted restores the free units and the
    /// holdings, and with them the whole state.
    pub proof fn lemma_release_undoes_grant(self, t: int, r: int, n: nat)
        requires
            self.wf(),
            self.has_entry(t, r),
        ensures
            self.grant(t, r, n).release(t, r, n) == self,
    {
        let back = self.grant(t, r, n).release(t, r, n);
        assert(back.allocation =~~= self.allocation);
        assert(back.work =~= self.work);
    }

    /// An acquisition that is granted at once and a release of the same
    /// number of units leave the state as it was before the request.
    pub proof fn lemma_release_undoes_acquire(self, detect: bool, t: int, r: int, n: nat)
        requires
            self.wf(),
            self.has_entry(t, r),
            self.admission(detect, t, r, n) == Admission::Granted,
        ensures
            self.after_acquire(detect, t, r, n).release(t, r, n) == self,
    {
        self.lemma_release_undoes_grant(t, r, n);
    }

    /// An acquisition that is granted after a wait and a release of the same
    /// number of units leave the free units and the holdings as they were
    /// before the request.
    pub proof fn lemma_release_undoes_deferred_acquire(self, detect: bool, t: int, r: int, n: nat)
        requires
            self.wf(),
            self.has_entry(t, r),
            self.admission(detect, t, r, n) == Admission::Deferred,
            self.after_acquire(detect, t, r, n).grant_stands(detect, t, r, n),
        ensures
            self.after_acquire(detect, t, r, n).after_settle(detect, t, r, n).release(t, r, n) == self,
    {
        self.lemma_commit_after_declare(t, r, n);
        self.lemma_release_undoes_grant(t, r, n);
    }

    /// With detection off no request is refused, and every grant after a wait
    /// stands.
    pub proof fn lemma_no_refusal_without_detection(self, t: int, r: int, n: nat)
        ensures
            self.admission(false, t, r, n) != Admission::Refused,
            self.grant_stands(false, t, r, n),
    {
    }

    /// A refused request leaves the state as it was.
    pub proof fn lemma_refusal_changes_nothing(self, detect: bool, t: int, r: int, n: nat)
        requires
            self.admission(detect, t, r, n) == Admission::Refused,
        ensures
            self.after_acquire(detect, t, r, n) == self,
    {
    }

    /// A task that sleeps on a condition variable and then has its mutex back
    /// leaves every counter as it was before the sleep.
    pub proof fn lemma_unpark_undoes_park(self, t: int, r: int)
        requires
            self.wf(),
            self.has_entry(t, r),
            self.allocation[t][r] >= 1,
        ensures
            self.park(t, r).unpark(t, r) == self,
    {
        let back = self.park(t, r).unpark(t, r);
        assert(back.allocation =~~= self.allocation);
        assert(back.need =~~= self.need);
        assert(back.work =~= self.work);
    }
}

impl DdStruct {
    /// Handles a request of task `t` for `n` units of resource `r`, up to the
    /// point where the task may have to wait. With `detect` off the request is
    /// never refused.
    pub fn acquire(&mut self, detect: bool, t: usize, r: usize, n: usize) -> (a: Admission)
        requires
            old(self).wf(),
            old(self)@.has_entry(t as int, r as int),
            old(self)@.need[t as int][r as int] + n <= usize::MAX,
            old(self)@.work[r as int] >= n ==> old(self)@.allocation[t as int][r as int] + n <= usize::MAX,
        ensures
            final(self).wf(),
            a == old(self)@.admission(detect, t as int, r as int, n as nat),
            final(self)@ == old(self)@.after_acquire(detect, t as int, r as int, n as nat),
            !detect ==> a != Admission::Refused,
    {
        proof {
            old(self)@.lemma_withdraw_undoes_declare(t as int, r as int, n as nat);
            old(self)@.lemma_commit_after_declare(t as int, r as int, n as nat);
            old(self)@.lemma_release_undoes_grant(t as int, r as int, n as nat);
        }
        self.declare(t, r, n);
        if detect && self.check_state() == -1 {
            self.withdraw(t, r, n);
            return Admission::Refused;
        }
        if self.free_units(r) as i128 >= n as i128 {
            self.withdraw(t, r, n);
            self.grant(t, r, n);
            if detect && self.check_state() == -1 {
                self.release(t, r, n);
                return Admission::Refused;
            }
            Admission::Granted
        } else {
            Admission::Deferred
        }
    }

    /// Settles a request of task `t` for `n` units of resource `r` that the
    /// primitive granted after a wait: the units pass to the task, unless
    /// `detect` is on and that leaves the state unsafe. The result tells
    /// whether the grant stands; where it does not, the request is dropped and
    /// the caller hands the units back to the primitive.
    pub fn settle(&mut self, detect: bool, t: usize, r: usize, n: usize) -> (stands: bool)
        requires
            old(self).wf(),
            old(self)@.has_entry(t as int, r as int),
            n <= old(self)@.need[t as int][r as int],
            n <= old(self)@.work[r as int],
            old(self)@.allocation[t as int][r as int] + n <= usize::MAX,
        ensures
            final(self).wf(),
            stands == old(self)@.grant_stands(detect, t as int, r as int, n as nat),
            final(self)@ == old(self)@.after_settle(detect, t as int, r as int, n as nat),
    {
        self.withdraw(t, r, n);
        proof {
            self@.lemma_release_undoes_grant(t as int, r as int, n as nat);
        }
        self.grant(t, r, n);
        if detect && self.check_state() == -1 {
            self.release(t, r, n);
            return false;
        }
        true
    }

    /// Shows task `t` as not holding mutex `r` while it sleeps on a condition
    /// variable.
    pub fn park(&mut self, t: usize, r: usize)
        requires
            old(self).wf(),
            old(self)@.has_entry(t as int, r as int),
            old(self)@.allocation[t as int][r as int] >= 1,
            old(self)@.need[t as int][r as int] + 1 <= usize::MAX,
            old(self)@.work[r as int] + 1 <= isize::MAX,
        ensures
            final(self).wf(),
            final(self)@ == old(self)@.park(t as int, r as int),
    {
        self.release(t, r, 1);
        self.declare(t, r, 1);
    }

    /// Shows task `t` as holding mutex `r` again once it was woken and has the
    /// mutex back.
    pub fn unpark(&mut self, t: usize, r: usize)
        requires
            old(self).wf(),
            old(self)@.has_entry(t as int, r as int),
            old(self)@.need[t as int][r as int] >= 1,
            old(self)@.work[r as int] >= 1,
            old(self)@.allocation[t as int][r as int] + 1 <= usize::MAX,
        ensures
            final(self).wf(),
            final(self)@ == old(self)@.unpark(t as int, r as int),
    {
        self.withdraw(t, r, 1);
        self.grant(t, r, 1);
    }
}

} // verus!
