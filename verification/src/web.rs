//! What the web dashboard shows and how it answers the actions it is sent.
use vstd::prelude::*;
use vstd::string::*;
use crate::config::{Config, ProgramConfig, distinct_names, first_named, unnamed};
use crate::ipc::{not_found_text, stop_signal};
use crate::names::{NameOrder, compare_names, name_less};
use crate::state::{
    AppState, Intent, ProcessState, ProcessView, Status, StatusView, names_sorted, with_intent,
};
use crate::text::{decimal, signed_decimal, u32_to_decimal, i32_to_decimal};

verus! {

/// One row of the dashboard's process list.
#[derive(Debug)]
pub struct ProcessStatusDto {
    pub name: String,
    pub status: String,
    pub intent: String,
}

/// The answer to a dashboard action.
#[derive(Debug)]
pub struct ActionResponse {
    pub success: bool,
    pub error: Option<String>,
}

/// How a status reads on the dashboard.
pub open spec fn dashboard_status(s: StatusView) -> Seq<char> {
    match s {
        StatusView::Stopped => "Stopped"@,
        StatusView::Running(pid) => "Running (pid "@ + decimal(pid as nat) + ")"@,
        StatusView::Exited(code) => "Exited (code "@ + signed_decimal(code as int) + ")"@,
        StatusView::Failed(reason) => "Failed: "@ + reason,
    }
}

/// How an intent reads on the dashboard.
pub open spec fn dashboard_intent(i: Intent) -> Seq<char> {
    match i {
        Intent::Run => "Run"@,
        Intent::Stop => "Stop"@,
    }
}

/// Row `row` shows the program `e`.
pub open spec fn shows(row: ProcessStatusDto, e: (Seq<char>, ProcessView)) -> bool {
    &&& row.name@ == e.0
    &&& row.status@ == dashboard_status(e.1.status)
    &&& row.intent@ == dashboard_intent(e.1.intent)
}

/// The error text for an action that is neither `start` nor `stop`.
pub open spec fn unknown_action_text() -> Seq<char> {
    "Unknown action"@
}

/// The table after a dashboard action and the process to be sent `SIGTERM`.
pub open spec fn action_effect(
    m: Map<Seq<char>, ProcessView>,
    action: Seq<char>,
    target: Seq<char>,
) -> (Map<Seq<char>, ProcessView>, Option<u32>) {
    if !m.contains_key(target) {
        (m, None)
    } else if action == "start"@ {
        (with_intent(m, target, Intent::Run), None)
    } else if action == "stop"@ {
        (with_intent(m, target, Intent::Stop), stop_signal(m, target))
    } else {
        (m, None)
    }
}

/// The answer to a dashboard action: success, or the reason it failed.
pub open spec fn action_reply(
    m: Map<Seq<char>, ProcessView>,
    action: Seq<char>,
    target: Seq<char>,
) -> (bool, Option<Seq<char>>) {
    if !m.contains_key(target) {
        (false, Some(not_found_text()))
    } else if action == "start"@ || action == "stop"@ {
        (true, None)
    } else {
        (false, Some(unknown_action_text()))
    }
}

/// Writes how a status reads on the dashboard.
pub fn dashboard_status_of(s: &Status) -> (res: String)
    ensures
        res@ == dashboard_status(s@),
{
    match s {
        Status::Stopped => String::from_str("Stopped"),
        Status::Running(pid) => {
            let mut res = String::from_str("Running (pid ");
            let n = u32_to_decimal(*pid);
            res.append(n.as_str());
            res.append(")");
            res
        },
        Status::Exited(code) => {
            let mut res = String::from_str("Exited (code ");
            let n = i32_to_decimal(*code);
            res.append(n.as_str());
            res.append(")");
            res
        },
        Status::Failed(reason) => {
            let mut res = String::from_str("Failed: ");
            res.append(reason.as_str());
            res
        },
    }
}

/// The dashboard's process list: one row per program, in order of name.
pub fn status_report(state: &AppState) -> (rows: Vec<ProcessStatusDto>)
    ensures
        rows@.len() == state.entries().len(),
        forall|i: int| 0 <= i < rows@.len() ==> shows(#[trigger] rows@[i], state.entries()[i]),
        forall|i: int, j: int|
            0 <= i < j < rows@.len() ==> name_less(#[trigger] rows@[i].name@, #[trigger] rows@[j].name@),
{
    let n = state.len();
    let ghost es = state.entries();
    let mut rows: Vec<ProcessStatusDto> = Vec::new();
    let mut i: usize = 0;
    while i < n
        invariant
            n == es.len(),
            es == state.entries(),
            names_sorted(es),
            i <= n,
            rows@.len() == i,
            forall|j: int| 0 <= j < i ==> shows(#[trigger] rows@[j], es[j]),
        decreases n - i,
    {
        let (name, ps) = state.entry_at(i);
        let status = dashboard_status_of(&ps.status);
        let intent = match ps.intent {
            Intent::Run => String::from_str("Run"),
            Intent::Stop => String::from_str("Stop"),
        };
        rows.push(ProcessStatusDto { name: name.clone(), status: status, intent: intent });
        i = i + 1;
    }
    assert forall|i: int, j: int| 0 <= i < j < rows@.len() implies name_less(
        #[trigger] rows@[i].name@,
        #[trigger] rows@[j].name@,
    ) by {
        assert(shows(rows@[i], es[i]));
        assert(shows(rows@[j], es[j]));
    }
    rows
}

/// Registers an uploaded program under `name`: adds its configuration (in
/// place of the first one of that name, if any) and records it in the table
/// as stopped and meant to run, replacing what was recorded for it.
pub fn register_program(
    config: &mut Config,
    state: &mut AppState,
    name: String,
    prog: ProgramConfig,
)
    ensures
        final(state)@ == old(state)@.insert(
            name@,
            ProcessView { intent: Intent::Run, status: StatusView::Stopped },
        ),
        final(config).supervisorr == old(config).supervisorr,
        (exists|i: int|
            first_named(old(config).program@, name@, i) && final(config).program@
                == old(config).program@.update(i, (name, prog))) || (unnamed(
            old(config).program@,
            name@,
        ) && final(config).program@ == old(config).program@.push((name, prog))),
        distinct_names(old(config).program@) ==> distinct_names(final(config).program@),
{
    let key = name.clone();
    config.add_program(name, prog);
    state.insert(key, ProcessState { intent: Intent::Run, status: Status::Stopped });
}

/// Carries out a dashboard action (`start` or `stop`) on the program it
/// targets. Also gives the process id to be sent `SIGTERM`, where a running
/// program is stopped.
pub fn apply_action(state: &mut AppState, action: &str, target: &str) -> (res: (
    ActionResponse,
    Option<u32>,
))
    ensures
        (final(state)@, res.1) == action_effect(old(state)@, action@, target@),
        (res.0.success, match res.0.error {
            Some(e) => Some(e@),
            None => None,
        }) == action_reply(old(state)@, action@, target@),
{
    let signal = match state.get(target) {
        None => {
            return (
                ActionResponse { success: false, error: Some(String::from_str("Process not found")) },
                None,
            );
        },
        Some(ps) => match ps.status {
            Status::Running(pid) => Some(pid),
            _ => None,
        },
    };
    if compare_names(action, "start") == NameOrder::Equal {
        state.set_intent(target, Intent::Run);
        (ActionResponse { success: true, error: None }, None)
    } else if compare_names(action, "stop") == NameOrder::Equal {
        state.set_intent(target, Intent::Stop);
        (ActionResponse { success: true, error: None }, signal)
    } else {
        (ActionResponse { success: false, error: Some(String::from_str("Unknown action")) }, None)
    }
}

} // verus!
