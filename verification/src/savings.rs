use vstd::prelude::*;

use std::collections::HashMap;

use crate::errors::Error;
use crate::goal::{
    apply_op, created_goal, deposit_outcome, deposited_goal, goal_reached, goal_wf,
    withdrawn_goal, DepositOutcome, Goal, GoalV, SavingsOp,
};

verus! {

broadcast use vstd::std_specs::hash::group_hash_axioms;

/// View of a stored goal map.
pub open spec fn goals_view(m: Map<u64, Goal>) -> Map<u64, GoalV> {
    Map::new(|o: u64| m.contains_key(o), |o: u64| m[o]@)
}

proof fn lemma_goals_view_insert(m: Map<u64, Goal>, owner: u64, goal: Goal)
    ensures
        goals_view(m.insert(owner, goal)) =~= goals_view(m).insert(owner, goal@),
{
}

proof fn lemma_goals_view_dom(m: Map<u64, Goal>)
    ensures
        goals_view(m).dom() =~= m.dom(),
{
}

/// The savings-goal ledger: one goal per owner identity.
pub struct SavingsTracker {
    goals: HashMap<u64, Goal>,
}

impl View for SavingsTracker {
    type V = Map<u64, GoalV>;

    closed spec fn view(&self) -> Map<u64, GoalV> {
        goals_view(self.goals@)
    }
}

impl SavingsTracker {
    /// Every stored goal is well formed.
    pub open spec fn wf(&self) -> bool {
        forall|o: u64| #[trigger] self@.dom().contains(o) ==> goal_wf(self@[o])
    }

    /// An empty tracker: no goals.
    pub fn new() -> (t: Self)
        ensures
            t.wf(),
            t@ == Map::<u64, GoalV>::empty(),
    {
        let t = SavingsTracker { goals: HashMap::new() };
        proof {
            assert(goals_view(t.goals@) =~= Map::<u64, GoalV>::empty());
        }
        t
    }

    /// Install the goal of `owner`: the given target, required per-deposit
    /// amount and cadence label, with nothing saved yet. This overwrites
    /// any goal the owner had before, resetting its balance — there is
    /// deliberately no existence guard. Authentication of the caller as
    /// `owner` is the host's task and happens before this is called.
    pub fn create_goal(
        &mut self,
        owner: u64,
        goal_amount: i128,
        deposit_amount: i128,
        deposit_frequency: String,
    )
        requires
            old(self).wf(),
            goal_amount > 0,
            deposit_amount > 0,
        ensures
            final(self).wf(),
            final(self)@ == old(self)@.insert(
                owner,
                created_goal(goal_amount as int, deposit_amount as int, deposit_frequency@),
            ),
    {
        let goal = Goal::create(goal_amount, deposit_amount, deposit_frequency);
        let ghost old_goals = self.goals@;
        let ghost ggoal = goal;
        self.goals.insert(owner, goal);
        proof {
            lemma_goals_view_insert(old_goals, owner, ggoal);
            assert forall|o: u64| final(self)@.dom().contains(o) implies goal_wf(
                final(self)@[o],
            ) by {
                if o != owner {
                    assert(old(self)@.dom().contains(o));
                }
            }
        }
    }

    /// Add `amount` to the balance of `owner`'s goal and classify this
    /// single deposit: `OnTime` exactly when it meets the required
    /// per-deposit amount, `Under` otherwise. The goal must exist: absence
    /// is a precondition violation here, as in the ledger this models.
    pub fn deposit(&mut self, owner: u64, amount: i128) -> (outcome: DepositOutcome)
        requires
            old(self).wf(),
            old(self)@.dom().contains(owner),
            amount >= 0,
            old(self)@[owner].current_saved + amount <= i128::MAX as int,
        ensures
            final(self).wf(),
            final(self)@ == old(self)@.insert(
                owner,
                deposited_goal(old(self)@[owner], amount as int),
            ),
            final(self)@[owner] == apply_op(
                old(self)@[owner],
                SavingsOp::Deposit { amount: amount as int },
            ),
            outcome == deposit_outcome(old(self)@[owner], amount as int),
            (outcome == DepositOutcome::OnTime <==> amount as int
                >= old(self)@[owner].deposit_amount),
    {
        proof {
            lemma_goals_view_dom(self.goals@);
        }
        let goal = match self.goals.get(&owner) {
            Some(g) => g.clone(),
            None => {
                proof {
                    assert(self.goals@.contains_key(owner));
                }
                Goal {
                    goal_amount: 1,
                    deposit_amount: 1,
                    deposit_frequency: String::new(),
                    current_saved: 0,
                }
            },
        };
        let (updated, outcome) = goal.apply_deposit(amount);
        let ghost old_goals = self.goals@;
        let ghost gupd = updated;
        self.goals.insert(owner, updated);
        proof {
            lemma_goals_view_insert(old_goals, owner, gupd);
        }
        outcome
    }

    /// Remove `amount` from the balance of `owner`'s goal. Refused with
    /// `InsufficientBalance`, changing nothing, when the amount exceeds
    /// the balance. The goal must exist: absence is a precondition
    /// violation here.
    pub fn withdraw(&mut self, owner: u64, amount: i128) -> (result: Result<(), Error>)
        requires
            old(self).wf(),
            old(self)@.dom().contains(owner),
            amount >= 0,
        ensures
            final(self).wf(),
            match result {
                Ok(_) => {
                    &&& amount as int <= old(self)@[owner].current_saved
                    &&& final(self)@ == old(self)@.insert(
                        owner,
                        withdrawn_goal(old(self)@[owner], amount as int),
                    )
                    &&& final(self)@[owner] == apply_op(
                        old(self)@[owner],
                        SavingsOp::Withdraw { amount: amount as int },
                    )
                },
                Err(e) => {
                    &&& e == Error::InsufficientBalance
                    &&& amount as int > old(self)@[owner].current_saved
                    &&& final(self)@ == old(self)@
                },
            },
    {
        proof {
            lemma_goals_view_dom(self.goals@);
        }
        let goal = match self.goals.get(&owner) {
            Some(g) => g.clone(),
            None => {
                proof {
                    assert(self.goals@.contains_key(owner));
                }
                Goal {
                    goal_amount: 1,
                    deposit_amount: 1,
                    deposit_frequency: String::new(),
                    current_saved: 0,
                }
            },
        };
        let updated = match goal.apply_withdraw(amount) {
            Ok(g) => g,
            Err(e) => {
                return Err(e);
            },
        };
        let ghost old_goals = self.goals@;
        let ghost gupd = updated;
        self.goals.insert(owner, updated);
        proof {
            lemma_goals_view_insert(old_goals, owner, gupd);
        }
        Ok(())
    }

    /// Whether `owner`'s goal is reached: true exactly when the saved
    /// balance has met the target (meeting it exactly counts). The goal
    /// must exist: absence is a precondition violation here.
    pub fn check_progress(&self, owner: u64) -> (reached: bool)
        requires
            self@.dom().contains(owner),
        ensures
            reached == goal_reached(self@[owner]),
    {
        proof {
            lemma_goals_view_dom(self.goals@);
        }
        match self.goals.get(&owner) {
            Some(g) => g.is_reached(),
            None => {
                proof {
                    assert(self.goals@.contains_key(owner));
                }
                false
            },
        }
    }

    /// The saved balance of `owner`'s goal. The goal must exist: absence
    /// is a precondition violation here.
    pub fn get_balance(&self, owner: u64) -> (balance: i128)
        requires
            self@.dom().contains(owner),
        ensures
            balance as int == self@[owner].current_saved,
    {
        proof {
            lemma_goals_view_dom(self.goals@);
        }
        match self.goals.get(&owner) {
            Some(g) => g.current_saved,
            None => {
                proof {
                    assert(self.goals@.contains_key(owner));
                }
                0
            },
        }
    }
}

} // verus!
