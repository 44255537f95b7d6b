//! What the safety check decides: a state is safe exactly where the tasks that
//! have not finished can run to completion in some order.
use vstd::prelude::*;
use crate::model::{SafetyState, lemma_count_false_update};

verus! {

/// `order` without the first occurrence of `t`.
pub open spec fn without_first(order: Seq<int>, t: int) -> Seq<int>
    decreases order.len(),
{
    if order.len() == 0 {
        order
    } else if order[0] == t {
        order.drop_first()
    } else {
        seq![order[0]] + without_first(order.drop_first(), t)
    }
}

impl SafetyState {
    /// The tasks of `order` can run to completion one after the other, each
    /// one eligible when its turn comes, and then every task has finished.
    pub open spec fn completes(self, order: Seq<int>) -> bool
        decreases order.len(),
    {
        if order.len() == 0 {
            self.all_finished()
        } else {
            self.eligible(order[0]) && self.complete(order[0]).completes(order.drop_first())
        }
    }

    /// The order in which the safety check lets the tasks finish, as far as it
    /// gets.
    pub open spec fn greedy_order(self) -> Seq<int>
        decreases self.unfinished(),
        via Self::greedy_order_terminates
    {
        if self.all_finished() {
            Seq::empty()
        } else {
            match self.first_eligible() {
                None => Seq::empty(),
                Some(t) => seq![t] + self.complete(t).greedy_order(),
            }
        }
    }

    #[via_fn]
    proof fn greedy_order_terminates(self) {
        if !self.all_finished() {
            match self.first_eligible() {
                None => {},
                Some(t) => {
                    self.lemma_first_eligible();
                    lemma_count_false_update(self.finish, t);
                },
            }
        }
    }

    /// Running a task to completion keeps the state well formed.
    pub proof fn lemma_complete_wf(self, t: int)
        requires
            self.wf(),
            0 <= t < self.task_count(),
        ensures
            self.complete(t).wf(),
            self.complete(t).task_count() == self.task_count(),
            self.complete(t).resource_count() == self.resource_count(),
    {
    }

    /// A task that is eligible stays eligible when another task runs to
    /// completion: its requests stay, and the free units only grow.
    pub proof fn lemma_eligible_after_complete(self, t: int, u: int)
        requires
            self.wf(),
            self.eligible(t),
            0 <= u < self.task_count(),
            u != t,
        ensures
            self.complete(u).eligible(t),
    {
    }

    /// Two different tasks may run to completion in either order.
    pub proof fn lemma_complete_commutes(self, t: int, u: int)
        requires
            self.wf(),
            0 <= t < self.task_count(),
            0 <= u < self.task_count(),
            u != t,
        ensures
            self.complete(t).complete(u) == self.complete(u).complete(t),
    {
        let a = self.complete(t).complete(u);
        let b = self.complete(u).complete(t);
        assert(a.work =~= b.work);
        assert(a.allocation =~~= b.allocation);
        assert(a.need =~~= b.need);
        assert(a.finish =~= b.finish);
    }

    /// Where the tasks can finish in `order` and `t` is eligible now, `t` may
    /// go first and the others follow in the order they had.
    pub proof fn lemma_eligible_task_may_go_first(self, order: Seq<int>, t: int)
        requires
            self.wf(),
            self.completes(order),
            self.eligible(t),
        ensures
            self.complete(t).completes(without_first(order, t)),
        decreases order.len(),
    {
        if order.len() == 0 {
            assert(self.finish[t]);
        } else {
            let u = order[0];
            if u != t {
                let rest = order.drop_first();
                self.lemma_complete_wf(u);
                self.lemma_eligible_after_complete(t, u);
                self.complete(u).lemma_eligible_task_may_go_first(rest, t);
                self.lemma_complete_commutes(t, u);
                self.lemma_eligible_after_complete(u, t);
                let moved = without_first(order, t);
                assert(moved[0] == u);
                assert(moved.drop_first() =~= without_first(rest, t));
            }
        }
    }

    /// A safe state finishes every task in the order that the check picks.
    pub proof fn lemma_safe_completes_greedily(self)
        requires
            self.wf(),
            self.safe(),
        ensures
            self.completes(self.greedy_order()),
        decreases self.unfinished(),
    {
        if !self.all_finished() {
            self.lemma_first_eligible();
            let t = self.first_eligible().unwrap();
            lemma_count_false_update(self.finish, t);
            self.lemma_complete_wf(t);
            self.complete(t).lemma_safe_completes_greedily();
            let order = self.greedy_order();
            assert(order[0] == t);
            assert(order.drop_first() =~= self.complete(t).greedy_order());
        }
    }

    /// A state whose tasks can finish in some order is safe.
    pub proof fn lemma_completion_order_is_safe(self, order: Seq<int>)
        requires
            self.wf(),
            self.completes(order),
        ensures
            self.safe(),
        decreases self.unfinished(),
    {
        if !self.all_finished() {
            assert(order.len() > 0);
            assert(self.eligible(order[0]));
            self.lemma_first_eligible();
            let t = self.first_eligible().unwrap();
            lemma_count_false_update(self.finish, t);
            self.lemma_complete_wf(t);
            self.lemma_eligible_task_may_go_first(order, t);
            self.complete(t).lemma_completion_order_is_safe(without_first(order, t));
        }
    }

    /// The state of a fresh process is safe: its one task asks for nothing.
    pub proof fn lemma_empty_is_safe()
        ensures
            SafetyState::empty().safe(),
    {
        let s = SafetyState::empty();
        let order = seq![0int];
        assert(s.eligible(0));
        assert(s.complete(0).all_finished());
        assert(order.drop_first() =~= Seq::<int>::empty());
        assert(s.complete(0).completes(order.drop_first()));
        s.lemma_completion_order_is_safe(order);
    }

    /// The safety check finds a state safe exactly where some order lets
    /// every unfinished task run to completion.
    pub proof fn lemma_safe_iff_some_order_completes(self)
        requires
            self.wf(),
        ensures
            self.safe() <==> exists|order: Seq<int>| self.completes(order),
    {
        if self.safe() {
            self.lemma_safe_completes_greedily();
        }
        if exists|order: Seq<int>| self.completes(order) {
            let order = choose|order: Seq<int>| self.completes(order);
            self.lemma_completion_order_is_safe(order);
        }
    }
}

} // verus!
