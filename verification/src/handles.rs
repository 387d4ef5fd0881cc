//! Startup readiness and the small pure pieces of the shell's handle layer.

use vstd::prelude::*;

use crate::lifecycle::{strings_view, AppEvent, EventModel, OpenRequest, ShutdownReason};

verus! {

/// Where the shell is in its startup transaction.
///
/// While starting, the first quit requested by a module or the start hook is
/// latched and applied once startup finishes; once ready (or failed), quits
/// are no longer deferred.
#[derive(Debug, Clone, Copy, PartialEq, Eq)]
pub enum Readiness {
    /// Startup is running; carries the first deferred quit, if any.
    Starting {
        /// The latched quit reason.
        deferred_quit: Option<ShutdownReason>,
    },
    /// Startup finished.
    Ready,
    /// Startup failed.
    Failed,
}

impl Readiness {
    /// The quit a module or start hook deferred, without consuming it.
    pub fn deferred_quit(&self) -> (reason: Option<ShutdownReason>)
        ensures
            reason == (match *self {
                Readiness::Starting { deferred_quit } => deferred_quit,
                _ => None,
            }),
    {
        match self {
            Readiness::Starting { deferred_quit } => *deferred_quit,
            _ => None,
        }
    }

    /// Latch `reason` if startup is still running and nothing was latched
    /// yet. Returns whether the quit was deferred (startup still running).
    pub fn defer_quit(&mut self, reason: ShutdownReason) -> (deferred: bool)
        ensures
            deferred == (*old(self) is Starting),
            *final(self) == spec_defer_quit(*old(self), reason),
    {
        match self {
            Readiness::Starting { deferred_quit } => {
                if deferred_quit.is_none() {
                    *self = Readiness::Starting { deferred_quit: Some(reason) };
                }
                true
            },
            _ => false,
        }
    }

    /// Publish readiness. From `Starting`, becomes `Ready` and hands back the
    /// latched quit; `Ready` and `Failed` are left as they are.
    pub fn finish_start(&mut self) -> (reason: Option<ShutdownReason>)
        ensures
            match *old(self) {
                Readiness::Starting { deferred_quit } => reason == deferred_quit && *final(self)
                    == Readiness::Ready,
                other => reason is None && *final(self) == other,
            },
    {
        match *self {
            Readiness::Starting { deferred_quit } => {
                *self = Readiness::Ready;
                deferred_quit
            },
            _ => None,
        }
    }
}

/// The state after a deferral request.
pub open spec fn spec_defer_quit(state: Readiness, reason: ShutdownReason) -> Readiness {
    match state {
        Readiness::Starting { deferred_quit: None } => Readiness::Starting {
            deferred_quit: Some(reason),
        },
        other => other,
    }
}

/// The state after a sequence of deferral requests, in order.
pub open spec fn spec_defer_all(state: Readiness, reasons: Seq<ShutdownReason>) -> Readiness
    decreases reasons.len(),
{
    if reasons.len() == 0 {
        state
    } else {
        spec_defer_all(spec_defer_quit(state, reasons[0]), reasons.drop_first())
    }
}

/// The latched reason `finish_start` hands back.
pub open spec fn spec_finished_reason(state: Readiness) -> Option<ShutdownReason> {
    match state {
        Readiness::Starting { deferred_quit } => deferred_quit,
        _ => None,
    }
}

/// Starting latches only the first quit reason: however many quits are
/// deferred during startup, finishing startup hands back the first one.
pub proof fn lemma_starting_latches_only_the_first_quit(reasons: Seq<ShutdownReason>)
    requires
        reasons.len() > 0,
    ensures
        spec_finished_reason(
            spec_defer_all(Readiness::Starting { deferred_quit: None }, reasons),
        ) == Some(reasons[0]),
{
    let latched = Readiness::Starting { deferred_quit: Some(reasons[0]) };
    assert(spec_defer_quit(Readiness::Starting { deferred_quit: None }, reasons[0]) == latched);
    lemma_latched_state_is_stable(latched, reasons.drop_first());
}

/// A latched, ready, or failed state is unchanged by any further deferrals.
pub proof fn lemma_latched_state_is_stable(state: Readiness, reasons: Seq<ShutdownReason>)
    requires
        !(state == Readiness::Starting { deferred_quit: None }),
    ensures
        spec_defer_all(state, reasons) == state,
    decreases reasons.len(),
{
    if reasons.len() > 0 {
        assert(spec_defer_quit(state, reasons[0]) == state);
        lemma_latched_state_is_stable(state, reasons.drop_first());
    }
}

/// Synthesize an open request from raw URLs, for early listeners.
pub fn open_event(urls: Vec<String>) -> (event: AppEvent)
    ensures
        event@ == (EventModel::OpenRequested { urls: strings_view(urls@) }),
{
    AppEvent::OpenRequested(OpenRequest { urls })
}

} // verus!
