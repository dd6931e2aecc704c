//! The decisions of the loop that keeps one program running: when to start
//! it, what to record when it starts, fails or exits, and when to wait.
//!
//! The loop itself (sleeping, spawning, waiting for the child) is driven from
//! outside: it performs each [`SupervisorAction`] and reports what came of it
//! as a [`SupervisorEvent`].
use vstd::prelude::*;
use crate::state::{AppState, Intent, ProcessView, Status, StatusView, with_intent, with_status};

verus! {

/// Where the loop stands.
#[derive(Debug, Clone, Copy, PartialEq, Eq, Structural)]
pub enum SupervisorPhase {
    /// About to look at the intent and start the program if it is to run.
    Idle,
    /// The program is being started.
    Launching,
    /// The program runs; the loop waits for it to exit.
    Watching,
    /// The program has exited or failed to start; the loop looks at the
    /// intent to decide whether to start it again.
    Settling,
    /// The loop waits until the program is meant to run again.
    Holding,
}

/// What the loop learnt since its last step.
#[derive(Debug)]
pub enum SupervisorEvent {
    /// The program's current intent (a program that is not known reads as
    /// `Stop`).
    Intent(Intent),
    /// The program was started; its process id, where the system gave one.
    Spawned(Option<u32>),
    /// The program could not be started, for this reason.
    SpawnFailed(String),
    /// The program exited; its exit code, where it had one.
    Exited(Option<i32>),
}

/// What the loop is to do next.
#[derive(Debug, Clone, Copy, PartialEq, Eq, Structural)]
pub enum SupervisorAction {
    /// Sleep this many milliseconds, then read the intent.
    Sleep(u64),
    /// Read the intent at once.
    CheckIntent,
    /// Start the program.
    Spawn,
    /// Wait for the program to exit.
    Wait,
}

/// One decision of the loop.
#[derive(Debug)]
pub struct SupervisorStep {
    /// Where the loop stands next.
    pub phase: SupervisorPhase,
    /// What the loop is to do next.
    pub action: SupervisorAction,
    /// The status to record for the program, if any.
    pub status: Option<Status>,
    /// The intent to record for the program, if any.
    pub intent: Option<Intent>,
}

/// The mathematical value of a [`SupervisorEvent`].
pub enum SupervisorEventView {
    Intent(Intent),
    Spawned(Option<u32>),
    SpawnFailed(Seq<char>),
    Exited(Option<i32>),
}

impl View for SupervisorEvent {
    type V = SupervisorEventView;

    open spec fn view(&self) -> SupervisorEventView {
        match self {
            SupervisorEvent::Intent(i) => SupervisorEventView::Intent(*i),
            SupervisorEvent::Spawned(p) => SupervisorEventView::Spawned(*p),
            SupervisorEvent::SpawnFailed(r) => SupervisorEventView::SpawnFailed(r@),
            SupervisorEvent::Exited(c) => SupervisorEventView::Exited(*c),
        }
    }
}

/// The pause between two looks at the intent, in milliseconds.
pub open spec fn poll_pause() -> u64 {
    500
}

/// The pause after a failed start, in milliseconds.
pub open spec fn failure_pause() -> u64 {
    5000
}

/// The decision of the loop in `phase` on `event`, for a program that is (or
/// is not) restarted after it exits: the next phase, the next action, the
/// status to record and the intent to record. An exit of a program that is
/// not restarted records the intent `Stop`, so that the program stays down
/// until it is started again. On an event that the phase does not wait for,
/// the loop reads the intent again: still waiting where it was waiting to be
/// meant to run, from the start otherwise.
pub open spec fn step_spec(phase: SupervisorPhase, autorestart: bool, event: SupervisorEventView) -> (
    SupervisorPhase,
    SupervisorAction,
    Option<StatusView>,
    Option<Intent>,
) {
    match (phase, event) {
        (SupervisorPhase::Idle, SupervisorEventView::Intent(i)) => if i == Intent::Stop {
            (SupervisorPhase::Idle, SupervisorAction::Sleep(poll_pause()), None, None)
        } else {
            (SupervisorPhase::Launching, SupervisorAction::Spawn, None, None)
        },
        (SupervisorPhase::Launching, SupervisorEventView::Spawned(pid)) => (
            SupervisorPhase::Watching,
            SupervisorAction::Wait,
            Some(
                StatusView::Running(
                    match pid {
                        Some(p) => p,
                        None => 0,
                    },
                ),
            ),
            None,
        ),
        (SupervisorPhase::Launching, SupervisorEventView::SpawnFailed(reason)) => (
            SupervisorPhase::Settling,
            SupervisorAction::Sleep(failure_pause()),
            Some(StatusView::Failed(reason)),
            None,
        ),
        (SupervisorPhase::Watching, SupervisorEventView::Exited(code)) => (
            SupervisorPhase::Settling,
            SupervisorAction::CheckIntent,
            Some(
                StatusView::Exited(
                    match code {
                        Some(c) => c,
                        None => -1i32,
                    },
                ),
            ),
            if autorestart {
                None
            } else {
                Some(Intent::Stop)
            },
        ),
        (SupervisorPhase::Settling, SupervisorEventView::Intent(i)) => if i == Intent::Stop
            || !autorestart {
            (SupervisorPhase::Holding, SupervisorAction::CheckIntent, None, None)
        } else {
            (SupervisorPhase::Idle, SupervisorAction::Sleep(poll_pause()), None, None)
        },
        (SupervisorPhase::Holding, SupervisorEventView::Intent(i)) => if i != Intent::Run {
            (SupervisorPhase::Holding, SupervisorAction::Sleep(poll_pause()), None, None)
        } else {
            (SupervisorPhase::Idle, SupervisorAction::CheckIntent, None, None)
        },
        (SupervisorPhase::Holding, _) => (
            SupervisorPhase::Holding,
            SupervisorAction::CheckIntent,
            None,
            None,
        ),
        _ => (SupervisorPhase::Idle, SupervisorAction::CheckIntent, None, None),
    }
}

/// The value of an optional status.
pub open spec fn status_view_of(s: Option<Status>) -> Option<StatusView> {
    match s {
        Some(s) => Some(s@),
        None => None,
    }
}

/// Decides the next step of the loop that supervises one program.
pub fn supervise_step(phase: SupervisorPhase, autorestart: bool, event: SupervisorEvent) -> (res:
    SupervisorStep)
    ensures
        (res.phase, res.action, status_view_of(res.status), res.intent) == step_spec(
            phase,
            autorestart,
            event@,
        ),
        // A program is started only from the start of the loop, right after its
        // intent was read as `Run`.
        res.action == SupervisorAction::Spawn ==> phase == SupervisorPhase::Idle && event@
            == SupervisorEventView::Intent(Intent::Run),
        // A program that waits to be meant to run again leaves that wait only
        // once its intent reads `Run`.
        phase == SupervisorPhase::Holding && res.phase != SupervisorPhase::Holding ==> event@
            == SupervisorEventView::Intent(Intent::Run),
        // `Running` is recorded only for a program just started.
        res.status matches Some(Status::Running(_)) ==> phase == SupervisorPhase::Launching,
        // The only intent ever recorded is `Stop`, on the exit of a program that
        // is not restarted.
        res.intent is Some <==> (!autorestart && phase == SupervisorPhase::Watching
            && event@ is Exited),
        res.intent is Some ==> res.intent == Some(Intent::Stop),
{
    let (phase, action, status, intent) = match (phase, event) {
        (SupervisorPhase::Idle, SupervisorEvent::Intent(i)) => {
            if i == Intent::Stop {
                (SupervisorPhase::Idle, SupervisorAction::Sleep(500), None, None)
            } else {
                (SupervisorPhase::Launching, SupervisorAction::Spawn, None, None)
            }
        },
        (SupervisorPhase::Launching, SupervisorEvent::Spawned(pid)) => {
            let pid = match pid {
                Some(p) => p,
                None => 0,
            };
            (SupervisorPhase::Watching, SupervisorAction::Wait, Some(Status::Running(pid)), None)
        },
        (SupervisorPhase::Launching, SupervisorEvent::SpawnFailed(reason)) => {
            (
                SupervisorPhase::Settling,
                SupervisorAction::Sleep(5000),
                Some(Status::Failed(reason)),
                None,
            )
        },
        (SupervisorPhase::Watching, SupervisorEvent::Exited(code)) => {
            let code = match code {
                Some(c) => c,
                None => -1,
            };
            let intent = if autorestart {
                None
            } else {
                Some(Intent::Stop)
            };
            (SupervisorPhase::Settling, SupervisorAction::CheckIntent, Some(Status::Exited(code)), intent)
        },
        (SupervisorPhase::Settling, SupervisorEvent::Intent(i)) => {
            if i == Intent::Stop || !autorestart {
                (SupervisorPhase::Holding, SupervisorAction::CheckIntent, None, None)
            } else {
                (SupervisorPhase::Idle, SupervisorAction::Sleep(500), None, None)
            }
        },
        (SupervisorPhase::Holding, SupervisorEvent::Intent(i)) => {
            if i != Intent::Run {
                (SupervisorPhase::Holding, SupervisorAction::Sleep(500), None, None)
            } else {
                (SupervisorPhase::Idle, SupervisorAction::CheckIntent, None, None)
            }
        },
        (SupervisorPhase::Holding, _) => (SupervisorPhase::Holding, SupervisorAction::CheckIntent, None, None),
        _ => (SupervisorPhase::Idle, SupervisorAction::CheckIntent, None, None),
    };
    SupervisorStep { phase: phase, action: action, status: status, intent: intent }
}

/// The table after recording a step's status and intent for `name` (the
/// status first, then the intent; a name that is not known is left out).
pub open spec fn recorded(
    m: Map<Seq<char>, ProcessView>,
    name: Seq<char>,
    status: Option<StatusView>,
    intent: Option<Intent>,
) -> Map<Seq<char>, ProcessView> {
    let after_status = match status {
        Some(s) => with_status(m, name, s),
        None => m,
    };
    match intent {
        Some(i) => with_intent(after_status, name, i),
        None => after_status,
    }
}

/// Records in the table what a step says of the program `name` (its status
/// and its intent, together), and gives back where the loop stands next and
/// what it is to do.
pub fn record_step(state: &mut AppState, name: &str, step: SupervisorStep) -> (next: (
    SupervisorPhase,
    SupervisorAction,
))
    ensures
        final(state)@ == recorded(old(state)@, name@, status_view_of(step.status), step.intent),
        next == (step.phase, step.action),
{
    let SupervisorStep { phase, action, status, intent } = step;
    match status {
        Some(s) => {
            state.set_status(name, s);
        },
        None => {},
    }
    match intent {
        Some(i) => {
            state.set_intent(name, i);
        },
        None => {},
    }
    (phase, action)
}

} // verus!
