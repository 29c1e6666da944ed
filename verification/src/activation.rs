//! The order in which a Scribe activates its assignments.
//!
//! Every listener that an assignment will need is bound before any assignment touches
//! its authority root. A candidate that cannot open its ingress must not depose a writer
//! that can.
use crate::scribe::{binds_ingress, AssignmentAction};
use vstd::prelude::*;

verus! {

/// What comes next.
#[derive(Debug, Clone, Copy, PartialEq, Eq, Structural)]
pub enum ActivationStep {
    /// Bind the ingress of the assignment at this place.
    Bind { at: usize },
    /// Carry out the action of the assignment at this place.
    Activate { at: usize, action: AssignmentAction },
    /// Every assignment is activated.
    Ready,
    /// A step failed; nothing more is done.
    Stopped,
}

/// How far an activation is.
pub struct RunView {
    /// What each assignment is to do.
    pub plan: Seq<AssignmentAction>,
    /// How many assignments, from the first, need no more binding.
    pub bound: int,
    /// How many assignments, from the first, are activated.
    pub activated: int,
    /// Whether a step failed.
    pub stopped: bool,
}

/// The first place, from `from` on, whose action needs a listener; the length of the
/// plan where there is none.
pub open spec fn next_binder(plan: Seq<AssignmentAction>, from: int) -> int
    decreases plan.len() - from,
{
    if 0 <= from < plan.len() && plan[from] is Standby {
        next_binder(plan, from + 1)
    } else {
        from
    }
}

impl RunView {
    /// Whether the counts lie within the plan.
    pub open spec fn well_formed(self) -> bool {
        0 <= self.bound <= self.plan.len() && 0 <= self.activated <= self.plan.len()
    }

    /// What comes next.
    pub open spec fn step(self) -> ActivationStep {
        let binder = next_binder(self.plan, self.bound);
        if self.stopped {
            ActivationStep::Stopped
        } else if binder < self.plan.len() {
            ActivationStep::Bind { at: binder as usize }
        } else if self.activated < self.plan.len() {
            ActivationStep::Activate {
                at: self.activated as usize,
                action: self.plan[self.activated],
            }
        } else {
            ActivationStep::Ready
        }
    }

    /// The run once its next step has ended.
    pub open spec fn after(self, succeeded: bool) -> RunView {
        match self.step() {
            ActivationStep::Bind { at } => if succeeded {
                RunView { bound: at + 1, ..self }
            } else {
                RunView { stopped: true, ..self }
            },
            ActivationStep::Activate { at, .. } => if succeeded {
                RunView { activated: at + 1, ..self }
            } else {
                RunView { stopped: true, ..self }
            },
            _ => self,
        }
    }
}

/// A plan of which nothing is done yet.
pub open spec fn begun(plan: Seq<AssignmentAction>) -> RunView {
    RunView { plan, bound: 0, activated: 0, stopped: false }
}

/// The run of a plan whose steps so far ended in these ways.
pub open spec fn run_after(plan: Seq<AssignmentAction>, ends: Seq<bool>) -> RunView
    decreases ends.len(),
{
    if ends.len() == 0 {
        begun(plan)
    } else {
        run_after(plan, ends.drop_last()).after(ends.last())
    }
}

/// An activation under way.
#[derive(Debug, PartialEq, Eq)]
pub struct ActivationRun {
    plan: Vec<AssignmentAction>,
    bound: usize,
    activated: usize,
    stopped: bool,
}

impl View for ActivationRun {
    type V = RunView;

    closed spec fn view(&self) -> RunView {
        RunView {
            plan: self.plan@,
            bound: self.bound as int,
            activated: self.activated as int,
            stopped: self.stopped,
        }
    }
}

impl ActivationRun {
    /// The counts lie within the plan.
    #[verifier::type_invariant]
    spec fn within_plan(self) -> bool {
        self.bound <= self.plan@.len() && self.activated <= self.plan@.len()
    }

    /// Begins to carry out a plan.
    pub fn new(plan: Vec<AssignmentAction>) -> (run: Self)
        ensures
            run@ == begun(plan@),
    {
        ActivationRun { plan, bound: 0, activated: 0, stopped: false }
    }

    /// The place of the next assignment that needs a listener.
    fn binder(&self) -> (at: usize)
        ensures
            at == next_binder(self@.plan, self@.bound),
            at <= self@.plan.len(),
    {
        proof {
            use_type_invariant(self);
        }
        let mut at: usize = self.bound;
        while at < self.plan.len() && !binds_ingress(&self.plan[at])
            invariant
                at <= self.plan@.len(),
                next_binder(self.plan@, at as int) == next_binder(self.plan@, self.bound as int),
            ensures
                at <= self.plan@.len(),
                at == next_binder(self.plan@, self.bound as int),
            decreases self.plan@.len() - at,
        {
            at += 1;
        }
        at
    }

    /// What comes next.
    pub fn next(&self) -> (step: ActivationStep)
        ensures
            step == self@.step(),
            self@.well_formed(),
    {
        proof {
            use_type_invariant(self);
        }
        if self.stopped {
            return ActivationStep::Stopped;
        }
        let at: usize = self.binder();
        if at < self.plan.len() {
            ActivationStep::Bind { at }
        } else if self.activated < self.plan.len() {
            ActivationStep::Activate { at: self.activated, action: self.plan[self.activated] }
        } else {
            ActivationStep::Ready
        }
    }

    /// Records how the next step ended.
    pub fn settle(&mut self, succeeded: bool)
        ensures
            final(self)@ == old(self)@.after(succeeded),
            final(self)@.well_formed(),
    {
        let total: usize = self.plan.len();
        proof {
            use_type_invariant(&*self);
            lemma_next_binder(self@.plan, self@.bound);
            assert(total == self@.plan.len());
        }
        match self.next() {
            ActivationStep::Bind { at } => {
                if succeeded {
                    self.bound = at + 1;
                } else {
                    self.stopped = true;
                }
            },
            ActivationStep::Activate { at, .. } => {
                if succeeded {
                    self.activated = at + 1;
                } else {
                    self.stopped = true;
                }
            },
            _ => {},
        }
    }
}

proof fn lemma_next_binder(plan: Seq<AssignmentAction>, from: int)
    requires
        0 <= from <= plan.len(),
    ensures
        from <= next_binder(plan, from) <= plan.len(),
        forall|i: int| from <= i < next_binder(plan, from) ==> plan[i] is Standby,
        next_binder(plan, from) < plan.len() ==> plan[next_binder(plan, from)] !is Standby,
    decreases plan.len() - from,
{
    if from < plan.len() && plan[from] is Standby {
        lemma_next_binder(plan, from + 1);
    }
}

/// Whether the ingress at a place was bound by one of the steps so far.
pub open spec fn was_bound(plan: Seq<AssignmentAction>, ends: Seq<bool>, at: int) -> bool {
    exists|k: int|
        0 <= k < ends.len() && #[trigger] ends[k] && run_after(plan, ends.take(k)).step()
            == (ActivationStep::Bind { at: at as usize })
}

proof fn lemma_run(plan: Seq<AssignmentAction>, ends: Seq<bool>)
    requires
        plan.len() <= usize::MAX,
    ensures
        run_after(plan, ends).plan == plan,
        run_after(plan, ends).well_formed(),
        forall|i: int|
            #![trigger plan[i]]
            0 <= i < run_after(plan, ends).bound && plan[i] !is Standby ==> was_bound(
                plan,
                ends,
                i,
            ),
        run_after(plan, ends).activated > 0 ==> next_binder(plan, run_after(plan, ends).bound)
            == plan.len(),
    decreases ends.len(),
{
    if ends.len() > 0 {
        let before = ends.drop_last();
        let run = run_after(plan, before);
        lemma_run(plan, before);
        lemma_next_binder(plan, run.bound);
        assert forall|i: int|
            #![trigger plan[i]]
            0 <= i < run_after(plan, ends).bound && plan[i] !is Standby implies was_bound(
            plan,
            ends,
            i,
        ) by {
            if i < run.bound {
                let k = choose|k: int|
                    0 <= k < before.len() && #[trigger] before[k] && run_after(
                        plan,
                        before.take(k),
                    ).step() == (ActivationStep::Bind { at: i as usize });
                assert(ends.take(k) =~= before.take(k));
                assert(ends[k]);
            } else {
                let k = before.len() as int;
                assert(ends.take(k) =~= before);
                assert(ends[k]);
            }
        }
    }
}

/// Authority comes after ingress: where the next step carries out an action, every
/// assignment of the plan that needs a listener has had it bound, and no step has failed.
pub proof fn law_ingress_comes_before_authority(
    plan: Seq<AssignmentAction>,
    ends: Seq<bool>,
    at: int,
)
    requires
        plan.len() <= usize::MAX,
        run_after(plan, ends).step() is Activate,
        0 <= at < plan.len(),
        plan[at] !is Standby,
    ensures
        was_bound(plan, ends, at),
        !run_after(plan, ends).stopped,
{
    lemma_run(plan, ends);
    lemma_next_binder(plan, run_after(plan, ends).bound);
}

/// A bind that fails ends the run before any authority is touched: nothing has been
/// activated, and whatever is reported afterwards, no step follows.
pub proof fn law_failed_bind_touches_no_authority(
    plan: Seq<AssignmentAction>,
    ends: Seq<bool>,
    more: Seq<bool>,
)
    requires
        plan.len() <= usize::MAX,
        run_after(plan, ends).step() is Bind,
    ensures
        run_after(plan, ends).activated == 0,
        run_after(plan, ends.push(false) + more).activated == 0,
        run_after(plan, ends.push(false) + more).step() is Stopped,
    decreases more.len(),
{
    lemma_run(plan, ends);
    lemma_next_binder(plan, run_after(plan, ends).bound);
    let all = ends.push(false) + more;
    if more.len() == 0 {
        assert(all =~= ends.push(false));
        assert(all.drop_last() =~= ends);
    } else {
        law_failed_bind_touches_no_authority(plan, ends, more.drop_last());
        assert(all.drop_last() =~= ends.push(false) + more.drop_last());
    }
}

/// Actions are carried out in the order of the plan, each once: a step that carries one
/// out is for the first assignment that is not activated yet, and its success activates
/// that one and no other.
pub proof fn law_actions_follow_the_plan(plan: Seq<AssignmentAction>, ends: Seq<bool>)
    requires
        plan.len() <= usize::MAX,
        run_after(plan, ends).step() is Activate,
    ensures
        ({
            let run = run_after(plan, ends);
            &&& run.step() == ActivationStep::Activate {
                at: run.activated as usize,
                action: plan[run.activated],
            }
            &&& run_after(plan, ends.push(true)).activated == run.activated + 1
            &&& run_after(plan, ends.push(false)).step() is Stopped
        }),
{
    lemma_run(plan, ends);
    assert(ends.push(true).drop_last() =~= ends);
    assert(ends.push(false).drop_last() =~= ends);
}

/// Only a failed step stops a run.
pub proof fn law_only_failures_stop(plan: Seq<AssignmentAction>, ends: Seq<bool>)
    requires
        forall|k: int| 0 <= k < ends.len() ==> #[trigger] ends[k],
    ensures
        !run_after(plan, ends).stopped,
    decreases ends.len(),
{
    if ends.len() > 0 {
        let before = ends.drop_last();
        assert forall|k: int| 0 <= k < before.len() implies #[trigger] before[k] by {
            assert(before[k] == ends[k]);
        }
        assert(ends[ends.len() - 1]);
        law_only_failures_stop(plan, before);
    }
}

/// Every success brings the run forward: a listener is bound where it is needed, or an
/// assignment is activated, and nothing that was done is undone.
pub proof fn law_every_success_goes_forward(run: RunView)
    requires
        run.well_formed(),
        run.plan.len() <= usize::MAX,
        run.step() is Bind || run.step() is Activate,
    ensures
        ({
            let next = run.after(true);
            &&& next.well_formed()
            &&& next.plan == run.plan
            &&& next.stopped == run.stopped
            &&& next.bound >= run.bound
            &&& next.activated >= run.activated
            &&& next.bound + next.activated > run.bound + run.activated
            &&& run.step() matches ActivationStep::Bind { at } ==> run.plan[at as int] !is Standby
                && run.bound <= at < next.bound
        }),
{
    lemma_next_binder(run.plan, run.bound);
}

/// A run is ready exactly where nothing failed, no listener is still to be bound and every
/// assignment of the plan is activated.
pub proof fn law_ready_runs_are_done(run: RunView)
    requires
        run.well_formed(),
    ensures
        run.step() is Ready <==> {
            &&& !run.stopped
            &&& run.activated == run.plan.len()
            &&& forall|i: int| run.bound <= i < run.plan.len() ==> #[trigger] run.plan[i] is Standby
        },
{
    lemma_next_binder(run.plan, run.bound);
}

/// A run begins with nothing bound and nothing activated; a failed step stops it.
pub proof fn law_runs_over_whole_calls(
    plan: Vec<AssignmentAction>,
    begun_run: ActivationRun,
    run: &mut ActivationRun,
    step: ActivationStep,
)
    requires
        call_ensures(ActivationRun::new, (plan,), begun_run),
        call_ensures(ActivationRun::settle, (run, false), ()),
        call_ensures(ActivationRun::next, (final(run),), step),
    ensures
        begun_run@.plan == plan@ && begun_run@.bound == 0 && begun_run@.activated == 0
            && !begun_run@.stopped,
        old(run)@.step() is Bind || old(run)@.step() is Activate ==> step is Stopped,
        old(run)@.step() is Ready ==> step is Ready,
{
}

} // verus!
