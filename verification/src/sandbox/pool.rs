//! Policy of pre-booted machines.
//!
//! In fresh mode a machine and its disk are thrown away after every task. Booting
//! the replacement while the worker is idle hides that boot from the next task.
//! A pooled machine comes from the base image and carries no toolchain.
use vstd::prelude::*;

verus! {

/// What the worker does with machines after a job.
#[derive(Debug, Clone, Copy, PartialEq, Eq, Structural)]
pub enum PoolAction {
    /// Keep the machine that just ran.
    Keep,
    /// Discard the machine that just ran.
    Discard,
    /// Boot machines up to `target`.
    Refill { target: usize },
}

/// Resolved pool policy.
#[derive(Debug, Clone, Copy, PartialEq, Eq, Structural)]
pub struct PoolPlan {
    /// Whether a machine survives a task.
    pub reuse: bool,
    /// How many idle machines to keep ready.
    pub target: usize,
}

/// Upper bound on pooled machines.
pub const MAX_POOL_TARGET: usize = 8;

/// What a plan does after a job.
pub open spec fn actions_after_job(plan: PoolPlan) -> Seq<PoolAction> {
    if plan.reuse {
        seq![PoolAction::Keep]
    } else if plan.target == 0 {
        seq![PoolAction::Discard]
    } else {
        seq![PoolAction::Discard, PoolAction::Refill { target: plan.target }]
    }
}

/// The plan for a mode and a configured pool size.
pub open spec fn pool_plan(reuse: bool, configured_size: usize) -> PoolPlan {
    PoolPlan {
        reuse,
        target: if reuse {
            0
        } else if configured_size > MAX_POOL_TARGET {
            MAX_POOL_TARGET
        } else {
            configured_size
        },
    }
}

impl PoolPlan {
    /// The plan for a mode and a configured pool size: reuse keeps its one machine
    /// and never pools; a size of zero disables pooling.
    pub fn new(reuse: bool, configured_size: usize) -> (r: Self)
        ensures
            r == pool_plan(reuse, configured_size),
            r.target <= MAX_POOL_TARGET,
    {
        let target: usize = if reuse {
            0
        } else if configured_size > MAX_POOL_TARGET {
            MAX_POOL_TARGET
        } else {
            configured_size
        };
        PoolPlan { reuse, target }
    }

    /// What to do after finishing a job, in order.
    pub fn after_job(&self) -> (r: Vec<PoolAction>)
        ensures
            r@ == actions_after_job(*self),
    {
        let mut out: Vec<PoolAction> = Vec::new();
        if self.reuse {
            out.push(PoolAction::Keep);
        } else {
            out.push(PoolAction::Discard);
            if self.target != 0 {
                out.push(PoolAction::Refill { target: self.target });
            }
        }
        assert(out@ =~= actions_after_job(*self));
        out
    }

    /// How many boots are needed to reach the target from `idle`.
    pub fn boots_needed(&self, idle: usize) -> (r: usize)
        ensures
            r == (if self.target > idle {
                self.target - idle
            } else {
                0
            }),
    {
        if self.target > idle {
            self.target - idle
        } else {
            0
        }
    }

    /// Whether the worker uses a pooled machine instead of booting one.
    pub fn take_from_pool_when_available(&self) -> (r: bool)
        ensures
            r == (!self.reuse && self.target > 0),
    {
        !self.reuse && self.target > 0
    }
}

/// In reuse mode a machine is kept and none is booted ahead; in fresh mode the machine
/// that ran is always discarded, and no more than eight are booted ahead.
pub proof fn machines_are_treated_by_mode(reuse: bool, configured_size: usize)
    ensures
        ({
            let plan = pool_plan(reuse, configured_size);
            let actions = actions_after_job(plan);
            &&& reuse ==> actions.contains(PoolAction::Keep) && !actions.contains(
                PoolAction::Discard,
            ) && plan.target == 0
            &&& !reuse ==> actions[0] == PoolAction::Discard && !actions.contains(PoolAction::Keep)
            &&& !reuse && configured_size == 0 ==> actions.len() == 1
            &&& !reuse && 0 < configured_size <= 8 ==> actions.contains(
                PoolAction::Refill { target: configured_size },
            )
            &&& !reuse && configured_size > 8 ==> actions.contains(PoolAction::Refill { target: 8 })
        }),
{
    let plan = pool_plan(reuse, configured_size);
    let actions = actions_after_job(plan);
    assert(actions.contains(actions[0]));
    if !reuse && configured_size > 0 {
        assert(actions.contains(actions[1]));
    }
}

} // verus!
