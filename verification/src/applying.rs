//! Applying a plan, step by step: the caller performs each action (take the lock, read
//! `HEAD` and the state, set the sparse-checkout rules, write the state, restore the old
//! rules, install the hooks) and hands back what came of it.
use vstd::prelude::*;

use crate::error::{Error, ErrorView};
use crate::planning::{finish_apply, head_moved_error, hooks_failed_warning, state_changed_error, write_failure};
use crate::state::State;
use crate::text::views;
use crate::workspace::{ApplyOutcome, Plan, Workspace};
use crate::error::error_text;

verus! {

/// What applying a plan waits for.
#[derive(Clone, Copy, Debug, PartialEq, Eq, Structural)]
pub enum ApplyPhase {
    /// The lock on the worktree's state directory.
    Lock,
    /// `HEAD` as it is now.
    Head,
    /// The state file as it is now (`None` when there is none).
    State,
    /// Setting the plan's sparse-checkout rules.
    Rules,
    /// Writing the plan's next state.
    Write,
    /// Restoring the old sparse-checkout rules after the state could not be written.
    Restore,
    /// Installing the hooks.
    Hooks,
}

/// What came of the last action.
#[derive(Debug)]
pub enum ApplyEvent {
    Locked(Result<(), Error>),
    Head(Result<String, Error>),
    State(Result<Option<State>, Error>),
    RulesSet(Result<(), Error>),
    Written(Result<(), Error>),
    Restored(Result<(), Error>),
    HooksInstalled(Result<Vec<String>, Error>),
}

/// A plan being applied.
#[derive(Debug)]
pub struct Application {
    pub plan: Plan,
    pub phase: ApplyPhase,
    /// The error of writing the state, while the old rules are restored.
    pub pending: Option<Error>,
}

/// Where applying stands after an event.
#[derive(Debug)]
pub enum Progress {
    /// Waiting for the action of the application's phase.
    Next(Application),
    /// Done.
    Finished(Result<ApplyOutcome, Error>),
}

/// The event answers the phase's action.
pub open spec fn answers(phase: ApplyPhase, event: ApplyEvent) -> bool {
    match event {
        ApplyEvent::Locked(_) => phase == ApplyPhase::Lock,
        ApplyEvent::Head(_) => phase == ApplyPhase::Head,
        ApplyEvent::State(_) => phase == ApplyPhase::State,
        ApplyEvent::RulesSet(_) => phase == ApplyPhase::Rules,
        ApplyEvent::Written(_) => phase == ApplyPhase::Write,
        ApplyEvent::Restored(_) => phase == ApplyPhase::Restore,
        ApplyEvent::HooksInstalled(_) => phase == ApplyPhase::Hooks,
    }
}

/// Applying goes on at `phase` with the same plan.
pub open spec fn goes_on(p: Progress, plan: Plan, phase: ApplyPhase) -> bool {
    p matches Progress::Next(a) && a.plan == plan && a.phase == phase
}

/// Applying stops with the error `e`.
pub open spec fn stops_with(p: Progress, e: ErrorView) -> bool {
    p matches Progress::Finished(Err(x)) && x@ == e
}

/// Applying goes on restoring the old rules, the write error `e` pending.
pub open spec fn restores(p: Progress, plan: Plan, e: ErrorView) -> bool {
    &&& p matches Progress::Next(a)
    &&& a.plan == plan
    &&& a.phase == ApplyPhase::Restore
    &&& a.pending matches Some(x)
    &&& x@ == e
}

/// Applying is done: the outcome carries the plan, its warnings and those of the hooks.
pub open spec fn finishes(p: Progress, plan: Plan, hooks: Result<Vec<String>, Error>) -> bool {
    &&& p matches Progress::Finished(Ok(o))
    &&& o.plan == plan
    &&& match hooks {
        Ok(ws) => views(o.warnings@) == views(plan.warnings@) + views(ws@),
        Err(e) => views(o.warnings@) == views(plan.warnings@).push(hooks_failed_warning(e@)),
    }
}

impl Workspace {
    /// Starts applying a plan: first the lock.
    pub fn apply(&self, plan: Plan) -> (a: Application)
        ensures
            a.plan == plan,
            a.phase == ApplyPhase::Lock,
            a.pending is None,
    {
        Application { plan, phase: ApplyPhase::Lock, pending: None }
    }
}

impl Application {
    /// The next step after `event`: a failed action stops applying with its error, except
    /// writing the state, after which the old rules are restored first; `HEAD` or a state
    /// that changed since planning stops it too; after the hooks, applying is done.
    pub fn step(self, w: &Workspace, event: ApplyEvent) -> (p: Progress)
        requires
            w.wf(),
            self.plan.expected_state.wf(),
            answers(self.phase, event),
            self.phase == ApplyPhase::Restore ==> self.pending is Some,
            event matches ApplyEvent::State(Ok(Some(s))) ==> s.wf(),
        ensures
            match event {
                ApplyEvent::Locked(Err(e)) => stops_with(p, e@),
                ApplyEvent::Locked(Ok(())) => goes_on(p, self.plan, ApplyPhase::Head),
                ApplyEvent::Head(Err(e)) => stops_with(p, e@),
                ApplyEvent::Head(Ok(h)) => if h@ != self.plan.expected_head@ {
                    stops_with(p, head_moved_error())
                } else {
                    goes_on(p, self.plan, ApplyPhase::State)
                },
                ApplyEvent::State(Err(e)) => stops_with(p, e@),
                ApplyEvent::State(Ok(found)) => {
                    let unchanged = match found {
                        Some(s) => s.same_content(&self.plan.expected_state),
                        None => w.state.same_content(&self.plan.expected_state),
                    };
                    if unchanged {
                        goes_on(p, self.plan, ApplyPhase::Rules)
                    } else {
                        stops_with(p, state_changed_error())
                    }
                },
                ApplyEvent::RulesSet(Err(e)) => stops_with(p, e@),
                ApplyEvent::RulesSet(Ok(())) => goes_on(p, self.plan, ApplyPhase::Write),
                ApplyEvent::Written(Err(e)) => restores(p, self.plan, e@),
                ApplyEvent::Written(Ok(())) => goes_on(p, self.plan, ApplyPhase::Hooks),
                ApplyEvent::Restored(Ok(())) => stops_with(p, self.pending->0@),
                ApplyEvent::Restored(Err(re)) => stops_with(p, ErrorView::Message(
                    "写入 fls 状态失败，且无法恢复原稀疏检出规则。原错误："@ + error_text(self.pending->0@)
                        + "；恢复错误："@ + error_text(re@))),
                ApplyEvent::HooksInstalled(h) => finishes(p, self.plan, h),
            },
    {
        let ghost plan0 = self.plan;
        match event {
            ApplyEvent::Locked(Err(e)) => Progress::Finished(Err(e)),
            ApplyEvent::Locked(Ok(())) => Progress::Next(Application { plan: self.plan, phase: ApplyPhase::Head, pending: None }),
            ApplyEvent::Head(Err(e)) => Progress::Finished(Err(e)),
            ApplyEvent::Head(Ok(h)) => {
                if h != self.plan.expected_head {
                    Progress::Finished(Err(Error::message("计算计划后 HEAD 已改变；为避免应用过期依赖图，本次操作已取消，请重试")))
                } else {
                    Progress::Next(Application { plan: self.plan, phase: ApplyPhase::State, pending: None })
                }
            },
            ApplyEvent::State(Err(e)) => Progress::Finished(Err(e)),
            ApplyEvent::State(Ok(found)) => {
                let unchanged = match found {
                    Some(s) => s.same_as(&self.plan.expected_state),
                    None => w.state.same_as(&self.plan.expected_state),
                };
                if unchanged {
                    Progress::Next(Application { plan: self.plan, phase: ApplyPhase::Rules, pending: None })
                } else {
                    Progress::Finished(Err(Error::message("计算计划后本地 fls 状态已改变；本次操作已取消，请重试")))
                }
            },
            ApplyEvent::RulesSet(Err(e)) => Progress::Finished(Err(e)),
            ApplyEvent::RulesSet(Ok(())) => Progress::Next(Application { plan: self.plan, phase: ApplyPhase::Write, pending: None }),
            ApplyEvent::Written(Err(e)) => Progress::Next(Application { plan: self.plan, phase: ApplyPhase::Restore, pending: Some(e) }),
            ApplyEvent::Written(Ok(())) => Progress::Next(Application { plan: self.plan, phase: ApplyPhase::Hooks, pending: None }),
            ApplyEvent::Restored(r) => {
                let e = match self.pending {
                    Some(e) => e,
                    None => vstd::pervasive::unreached(),
                };
                Progress::Finished(Err(write_failure(e, r)))
            },
            ApplyEvent::HooksInstalled(h) => Progress::Finished(Ok(finish_apply(self.plan, h))),
        }
    }
}

}
