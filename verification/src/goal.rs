use vstd::prelude::*;

use crate::errors::Error;

verus! {

/// How a single deposit measures up against the goal's required
/// per-deposit amount.
#[derive(Clone, Copy, Debug, Eq, PartialEq, Structural)]
pub enum DepositOutcome {
    /// The deposit meets or exceeds the required amount.
    OnTime,
    /// The deposit falls short of the required amount.
    Under,
}

/// One owner's savings goal.
#[derive(Debug)]
pub struct Goal {
    /// Target amount to save; always positive.
    pub goal_amount: i128,
    /// Required amount of each scheduled deposit; always positive.
    pub deposit_amount: i128,
    /// Label for the deposit cadence (for example "weekly").
    pub deposit_frequency: String,
    /// Amount saved so far; never negative.
    pub current_saved: i128,
}

/// Mathematical view of a [`Goal`].
#[verifier::ext_equal]
pub ghost struct GoalV {
    pub goal_amount: int,
    pub deposit_amount: int,
    pub deposit_frequency: Seq<char>,
    pub current_saved: int,
}

impl View for Goal {
    type V = GoalV;

    open spec fn view(&self) -> GoalV {
        GoalV {
            goal_amount: self.goal_amount as int,
            deposit_amount: self.deposit_amount as int,
            deposit_frequency: self.deposit_frequency@,
            current_saved: self.current_saved as int,
        }
    }
}

impl Clone for Goal {
    fn clone(&self) -> (r: Self)
        ensures
            r == *self,
    {
        Goal {
            goal_amount: self.goal_amount,
            deposit_amount: self.deposit_amount,
            deposit_frequency: self.deposit_frequency.clone(),
            current_saved: self.current_saved,
        }
    }
}

/// Well-formedness of a goal: positive target and required deposit, and a
/// balance that never goes negative.
pub open spec fn goal_wf(g: GoalV) -> bool {
    &&& g.goal_amount > 0
    &&& g.deposit_amount > 0
    &&& g.current_saved >= 0
}

/// The goal a (re)creation installs: the given target, required deposit
/// and cadence label, with nothing saved yet.
pub open spec fn created_goal(
    goal_amount: int,
    deposit_amount: int,
    deposit_frequency: Seq<char>,
) -> GoalV {
    GoalV { goal_amount, deposit_amount, deposit_frequency, current_saved: 0 }
}

/// Effect of a deposit: the amount is added to the balance.
pub open spec fn deposited_goal(g: GoalV, amount: int) -> GoalV {
    GoalV { current_saved: g.current_saved + amount, ..g }
}

/// Effect of a withdrawal: the amount is removed from the balance.
pub open spec fn withdrawn_goal(g: GoalV, amount: int) -> GoalV {
    GoalV { current_saved: g.current_saved - amount, ..g }
}

/// How a single deposit is classified: `OnTime` exactly when it meets the
/// required per-deposit amount, independent of any earlier deposits.
pub open spec fn deposit_outcome(g: GoalV, amount: int) -> DepositOutcome {
    if amount >= g.deposit_amount {
        DepositOutcome::OnTime
    } else {
        DepositOutcome::Under
    }
}

/// Whether the goal is reached: the saved balance has met the target
/// (meeting it exactly counts).
pub open spec fn goal_reached(g: GoalV) -> bool {
    g.current_saved >= g.goal_amount
}

impl Goal {
    /// A freshly created goal: the given target, required per-deposit
    /// amount and cadence label, with nothing saved yet.
    pub fn create(goal_amount: i128, deposit_amount: i128, deposit_frequency: String) -> (g: Goal)
        requires
            goal_amount > 0,
            deposit_amount > 0,
        ensures
            g@ == created_goal(goal_amount as int, deposit_amount as int, deposit_frequency@),
            goal_wf(g@),
    {
        let g = Goal { goal_amount, deposit_amount, deposit_frequency, current_saved: 0 };
        proof {
            assert(g@ =~= created_goal(
                goal_amount as int,
                deposit_amount as int,
                g.deposit_frequency@,
            ));
        }
        g
    }

    /// One deposit applied to this goal: the amount joins the balance, and
    /// the deposit is classified as `OnTime` exactly when it meets the
    /// required per-deposit amount.
    pub fn apply_deposit(&self, amount: i128) -> (result: (Goal, DepositOutcome))
        requires
            goal_wf(self@),
            amount >= 0,
            self@.current_saved + amount <= i128::MAX as int,
        ensures
            result.0@ == deposited_goal(self@, amount as int),
            goal_wf(result.0@),
            result.1 == deposit_outcome(self@, amount as int),
    {
        let updated = Goal { current_saved: self.current_saved + amount, ..self.clone() };
        let outcome = if amount >= self.deposit_amount {
            DepositOutcome::OnTime
        } else {
            DepositOutcome::Under
        };
        proof {
            assert(updated@ =~= deposited_goal(self@, amount as int));
        }
        (updated, outcome)
    }

    /// One withdrawal applied to this goal: the amount leaves the balance.
    /// Fails with `InsufficientBalance` exactly when the amount exceeds
    /// the balance.
    pub fn apply_withdraw(&self, amount: i128) -> (result: Result<Goal, Error>)
        requires
            goal_wf(self@),
            amount >= 0,
        ensures
            match result {
                Ok(g) => {
                    &&& amount as int <= self@.current_saved
                    &&& g@ == withdrawn_goal(self@, amount as int)
                    &&& goal_wf(g@)
                },
                Err(e) => e == Error::InsufficientBalance && amount as int > self@.current_saved,
            },
    {
        if self.current_saved < amount {
            return Err(Error::InsufficientBalance);
        }
        let updated = Goal { current_saved: self.current_saved - amount, ..self.clone() };
        proof {
            assert(updated@ =~= withdrawn_goal(self@, amount as int));
        }
        Ok(updated)
    }

    /// Whether this goal is reached: the saved balance has met the target
    /// (meeting it exactly counts).
    pub fn is_reached(&self) -> (reached: bool)
        ensures
            reached == goal_reached(self@),
    {
        self.current_saved >= self.goal_amount
    }
}

/// One balance-changing operation on a goal.
pub ghost enum SavingsOp {
    Deposit { amount: int },
    Withdraw { amount: int },
}

/// Apply one operation to a goal.
pub open spec fn apply_op(g: GoalV, op: SavingsOp) -> GoalV {
    match op {
        SavingsOp::Deposit { amount } => deposited_goal(g, amount),
        SavingsOp::Withdraw { amount } => withdrawn_goal(g, amount),
    }
}

/// Apply a sequence of operations to a goal, oldest first.
pub open spec fn apply_ops(g: GoalV, ops: Seq<SavingsOp>) -> GoalV
    decreases ops.len(),
{
    if ops.len() == 0 {
        g
    } else {
        apply_ops(apply_op(g, ops[0]), ops.drop_first())
    }
}

/// Sum of the amounts deposited by a sequence of operations.
pub open spec fn total_deposited(ops: Seq<SavingsOp>) -> int
    decreases ops.len(),
{
    if ops.len() == 0 {
        0
    } else {
        (match ops[0] {
            SavingsOp::Deposit { amount } => amount,
            SavingsOp::Withdraw { .. } => 0,
        }) + total_deposited(ops.drop_first())
    }
}

/// Sum of the amounts withdrawn by a sequence of operations.
pub open spec fn total_withdrawn(ops: Seq<SavingsOp>) -> int
    decreases ops.len(),
{
    if ops.len() == 0 {
        0
    } else {
        (match ops[0] {
            SavingsOp::Deposit { .. } => 0,
            SavingsOp::Withdraw { amount } => amount,
        }) + total_withdrawn(ops.drop_first())
    }
}

/// The balance accumulates exactly: after any sequence of deposits and
/// withdrawals, the saved amount is the starting amount plus the sum of
/// all deposits minus the sum of all withdrawals, and the goal's target
/// and required deposit are untouched.
pub proof fn lemma_saved_accumulates(g: GoalV, ops: Seq<SavingsOp>)
    ensures
        apply_ops(g, ops).current_saved == g.current_saved + total_deposited(ops)
            - total_withdrawn(ops),
        apply_ops(g, ops).goal_amount == g.goal_amount,
        apply_ops(g, ops).deposit_amount == g.deposit_amount,
    decreases ops.len(),
{
    if ops.len() == 0 {
    } else {
        lemma_saved_accumulates(apply_op(g, ops[0]), ops.drop_first());
    }
}

} // verus!
