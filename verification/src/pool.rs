//! Bounded launching: a fixed number of tasks is started in order, with never
//! more than a given number of them under way at once.
//!
//! The pool only decides. Its caller starts the task that a step names, waits
//! where a step says so, and reports every task that has ended.

use vstd::prelude::*;
use crate::config::CampaignConfig;

verus! {

/// What the caller of a pool does next.
#[derive(Clone, Copy, Debug, PartialEq, Eq)]
pub enum PoolStep {
    /// Start the task with this index.
    Launch(usize),
    /// Every slot is taken, or every task has been started: wait for one of
    /// the running tasks to end and report it.
    Wait,
    /// Every task has been started and has ended.
    Done,
}

/// The counters of a pool.
pub struct PoolView {
    /// How many tasks may run at once.
    pub limit: nat,
    /// How many tasks there are.
    pub total: nat,
    /// How many have been started: the tasks `0 .. launched`.
    pub launched: nat,
    /// How many of those have ended.
    pub finished: nat,
}

impl PoolView {
    /// How many tasks are under way.
    pub open spec fn in_flight(&self) -> int {
        self.launched - self.finished
    }

    /// What holds of every pool: tasks end only after they started, no more
    /// are started than there are, and those under way never exceed the limit.
    pub open spec fn bounded(&self) -> bool {
        &&& self.limit > 0
        &&& self.finished <= self.launched <= self.total <= usize::MAX
        &&& self.in_flight() <= self.limit
    }

    /// What a pool in this state tells its caller to do.
    pub open spec fn step(&self) -> PoolStep {
        if self.launched < self.total && self.in_flight() < self.limit {
            PoolStep::Launch(self.launched as usize)
        } else if self.finished < self.launched {
            PoolStep::Wait
        } else {
            PoolStep::Done
        }
    }

    /// The state after the caller has followed [`PoolView::step`].
    pub open spec fn after_step(&self) -> PoolView {
        if self.step() is Launch {
            PoolView { launched: self.launched + 1, ..*self }
        } else {
            *self
        }
    }

    /// The state after one running task has ended. With nothing under way
    /// there is nothing to end, and the state stays.
    pub open spec fn after_completion(&self) -> PoolView {
        if self.finished < self.launched {
            PoolView { finished: self.finished + 1, ..*self }
        } else {
            *self
        }
    }
}

/// Launch bookkeeping for one batch of tasks.
#[derive(Clone, Copy, Debug, PartialEq, Eq)]
pub struct Pool {
    limit: usize,
    total: usize,
    launched: usize,
    finished: usize,
}

impl View for Pool {
    type V = PoolView;

    closed spec fn view(&self) -> PoolView {
        PoolView {
            limit: self.limit as nat,
            total: self.total as nat,
            launched: self.launched as nat,
            finished: self.finished as nat,
        }
    }
}

impl Pool {
    #[verifier::type_invariant]
    spec fn inv(&self) -> bool {
        self@.bounded()
    }

    /// A pool for `total` tasks, of which as many may run at once as the
    /// configuration has tabs.
    pub fn new(total: usize, config: &CampaignConfig) -> (pool: Pool)
        ensures
            pool@ == (PoolView {
                limit: config.spec_tabs() as nat,
                total: total as nat,
                launched: 0,
                finished: 0,
            }),
            pool@.bounded(),
    {
        Pool { limit: config.tabs(), total, launched: 0, finished: 0 }
    }

    /// Decides what happens next. A launch is handed out as long as a task
    /// is left and a slot is free; the tasks are launched in index order.
    pub fn step(&mut self) -> (step: PoolStep)
        ensures
            step == old(self)@.step(),
            final(self)@ == old(self)@.after_step(),
            final(self)@.bounded(),
    {
        proof {
            use_type_invariant(&*self);
        }
        if self.launched < self.total && self.launched - self.finished < self.limit {
            let index = self.launched;
            self.launched = self.launched + 1;
            PoolStep::Launch(index)
        } else if self.finished < self.launched {
            PoolStep::Wait
        } else {
            PoolStep::Done
        }
    }

    /// Reports that one running task has ended, whatever its result. Returns
    /// whether a task was under way; if none was, nothing changes.
    pub fn complete(&mut self) -> (counted: bool)
        ensures
            counted == (old(self)@.finished < old(self)@.launched),
            final(self)@ == old(self)@.after_completion(),
            final(self)@.bounded(),
    {
        proof {
            use_type_invariant(&*self);
        }
        if self.finished < self.launched {
            self.finished = self.finished + 1;
            true
        } else {
            false
        }
    }

    /// How many tasks are under way: never more than the limit.
    pub fn in_flight(&self) -> (count: usize)
        ensures
            count == self@.in_flight(),
            count <= self@.limit,
    {
        proof {
            use_type_invariant(self);
        }
        self.launched - self.finished
    }

    /// How many tasks may run at once.
    pub fn limit(&self) -> (limit: usize)
        ensures
            limit == self@.limit,
            limit > 0,
    {
        proof {
            use_type_invariant(self);
        }
        self.limit
    }

    /// How many tasks have ended.
    pub fn finished(&self) -> (count: usize)
        ensures
            count == self@.finished,
    {
        self.finished
    }

    /// Whether every task has been started and has ended.
    pub fn is_done(&self) -> (done: bool)
        ensures
            done == (self@.step() is Done),
    {
        proof {
            use_type_invariant(self);
        }
        self.launched == self.total && self.finished == self.launched
    }
}

/// The state of a pool after it was driven through `events`, where `true`
/// stands for a call of [`Pool::step`] and `false` for a call of
/// [`Pool::complete`].
pub open spec fn driven(start: PoolView, events: Seq<bool>) -> PoolView
    decreases events.len(),
{
    if events.len() == 0 {
        start
    } else if events.last() {
        driven(start, events.drop_last()).after_step()
    } else {
        driven(start, events.drop_last()).after_completion()
    }
}

/// However a pool is driven, the number of tasks under way never exceeds its
/// limit, however many tasks there are.
pub proof fn lemma_never_exceeds_limit(start: PoolView, events: Seq<bool>)
    requires
        start.bounded(),
    ensures
        driven(start, events).bounded(),
        driven(start, events).in_flight() <= start.limit,
        driven(start, events).limit == start.limit,
        driven(start, events).total == start.total,
    decreases events.len(),
{
    if events.len() > 0 {
        lemma_never_exceeds_limit(start, events.drop_last());
    }
}

/// A pool that is not done always makes progress: either it hands out a
/// launch, or a task is under way whose end the caller can wait for.
pub proof fn lemma_wait_has_something_to_wait_for(pool: PoolView)
    requires
        pool.bounded(),
    ensures
        pool.step() is Wait ==> pool.in_flight() > 0,
        pool.step() is Done <==> pool.launched == pool.total && pool.finished == pool.total,
{
}

} // verus!
