//! The control protocol spoken over the local socket: its requests, its
//! replies, and how the supervisor answers each request.
use vstd::prelude::*;
use vstd::string::*;
use crate::state::{
    AppState, Intent, ProcessState, ProcessView, Status, StatusView, with_intent,
};
use crate::text::{decimal, signed_decimal, u32_to_decimal, i32_to_decimal};

verus! {

/// A request of the control protocol.
#[derive(Debug)]
pub enum IpcRequest {
    /// List every program with its status and intent.
    Status,
    /// Mark a program as meant to run.
    Start { target: String },
    /// Mark a program as meant to stop, and stop it where it runs.
    Stop { target: String },
}

/// A reply of the control protocol.
#[derive(Debug)]
pub enum IpcResponse {
    /// Each program's name with a line that describes it.
    StatusData(Vec<(String, String)>),
    /// The request was carried out (sent as `Ok` on the wire).
    Accepted,
    /// The request was refused, for this reason.
    Error(String),
}

/// The mathematical value of an [`IpcRequest`].
pub enum IpcRequestView {
    Status,
    Start { target: Seq<char> },
    Stop { target: Seq<char> },
}

/// The mathematical value of an [`IpcResponse`].
pub enum IpcResponseView {
    StatusData(Seq<(Seq<char>, Seq<char>)>),
    Accepted,
    Error(Seq<char>),
}

impl View for IpcRequest {
    type V = IpcRequestView;

    open spec fn view(&self) -> IpcRequestView {
        match self {
            IpcRequest::Status => IpcRequestView::Status,
            IpcRequest::Start { target } => IpcRequestView::Start { target: target@ },
            IpcRequest::Stop { target } => IpcRequestView::Stop { target: target@ },
        }
    }
}

impl View for IpcResponse {
    type V = IpcResponseView;

    open spec fn view(&self) -> IpcResponseView {
        match self {
            IpcResponse::StatusData(d) => IpcResponseView::StatusData(
                d@.map_values(|e: (String, String)| (e.0@, e.1@)),
            ),
            IpcResponse::Accepted => IpcResponseView::Accepted,
            IpcResponse::Error(e) => IpcResponseView::Error(e@),
        }
    }
}

/// How a status reads in a reply to `Status`.
pub open spec fn status_word(s: StatusView) -> Seq<char> {
    match s {
        StatusView::Stopped => "STOPPED"@,
        StatusView::Running(pid) => "RUNNING (pid "@ + decimal(pid as nat) + ")"@,
        StatusView::Exited(code) => "EXITED (code "@ + signed_decimal(code as int) + ")"@,
        StatusView::Failed(reason) => "FAILED ("@ + reason + ")"@,
    }
}

/// How an intent reads in a reply to `Status`.
pub open spec fn intent_word(i: Intent) -> Seq<char> {
    match i {
        Intent::Run => "intended: RUN"@,
        Intent::Stop => "intended: STOP"@,
    }
}

/// The line that describes a program in a reply to `Status`.
pub open spec fn status_line(p: ProcessView) -> Seq<char> {
    status_word(p.status) + " ["@ + intent_word(p.intent) + "]"@
}

/// The reply to `Status`: each program, in order of name, with its line.
pub open spec fn status_listing(es: Seq<(Seq<char>, ProcessView)>) -> Seq<(Seq<char>, Seq<char>)> {
    es.map_values(|e: (Seq<char>, ProcessView)| (e.0, status_line(e.1)))
}

/// The error text for a request that names an unknown program.
pub open spec fn not_found_text() -> Seq<char> {
    "Process not found"@
}

/// The process to be sent `SIGTERM` when `name` is stopped: its process id,
/// where it is known to be running.
pub open spec fn stop_signal(m: Map<Seq<char>, ProcessView>, name: Seq<char>) -> Option<u32> {
    if m.contains_key(name) {
        match m[name].status {
            StatusView::Running(pid) => Some(pid),
            _ => None,
        }
    } else {
        None
    }
}

/// The table after a request and the process to be sent `SIGTERM`.
pub open spec fn request_effect(
    m: Map<Seq<char>, ProcessView>,
    req: IpcRequestView,
) -> (Map<Seq<char>, ProcessView>, Option<u32>) {
    match req {
        IpcRequestView::Status => (m, None),
        IpcRequestView::Start { target } => (with_intent(m, target, Intent::Run), None),
        IpcRequestView::Stop { target } => (with_intent(m, target, Intent::Stop), stop_signal(m, target)),
    }
}

/// The reply to a request, given the programs in order of name.
pub open spec fn request_reply(
    es: Seq<(Seq<char>, ProcessView)>,
    m: Map<Seq<char>, ProcessView>,
    req: IpcRequestView,
) -> IpcResponseView {
    match req {
        IpcRequestView::Status => IpcResponseView::StatusData(status_listing(es)),
        IpcRequestView::Start { target } | IpcRequestView::Stop { target } => if m.contains_key(
            target,
        ) {
            IpcResponseView::Accepted
        } else {
            IpcResponseView::Error(not_found_text())
        },
    }
}

/// Writes how a status reads in a reply to `Status`.
pub fn status_word_of(s: &Status) -> (res: String)
    ensures
        res@ == status_word(s@),
{
    match s {
        Status::Stopped => String::from_str("STOPPED"),
        Status::Running(pid) => {
            let mut res = String::from_str("RUNNING (pid ");
            let n = u32_to_decimal(*pid);
            res.append(n.as_str());
            res.append(")");
            res
        },
        Status::Exited(code) => {
            let mut res = String::from_str("EXITED (code ");
            let n = i32_to_decimal(*code);
            res.append(n.as_str());
            res.append(")");
            res
        },
        Status::Failed(reason) => {
            let mut res = String::from_str("FAILED (");
            res.append(reason.as_str());
            res.append(")");
            res
        },
    }
}

/// Writes the line that describes a program in a reply to `Status`.
pub fn status_line_of(ps: &ProcessState) -> (res: String)
    ensures
        res@ == status_line(ps@),
{
    let mut res = status_word_of(&ps.status);
    res.append(" [");
    match ps.intent {
        Intent::Run => res.append("intended: RUN"),
        Intent::Stop => res.append("intended: STOP"),
    }
    res.append("]");
    res
}

/// Answers a control request: lists the programs, or sets the intent of the
/// one it names. Also gives the process id to be sent `SIGTERM`, where a
/// running program is stopped.
pub fn process_request(state: &mut AppState, req: IpcRequest) -> (res: (IpcResponse, Option<u32>))
    ensures
        (final(state)@, res.1) == request_effect(old(state)@, req@),
        res.0@ == request_reply(old(state).entries(), old(state)@, req@),
        req is Status ==> final(state).entries() == old(state).entries(),
{
    match req {
        IpcRequest::Status => {
            let n = state.len();
            let mut data: Vec<(String, String)> = Vec::new();
            let ghost es = state.entries();
            let mut i: usize = 0;
            while i < n
                invariant
                    n == es.len(),
                    es == state.entries(),
                    i <= n,
                    data@.len() == i,
                    data@.map_values(|e: (String, String)| (e.0@, e.1@)) =~= status_listing(
                        es.take(i as int),
                    ),
                decreases n - i,
            {
                let (name, ps) = state.entry_at(i);
                let line = status_line_of(ps);
                let ghost before = data@;
                data.push((name.clone(), line));
                proof {
                    let f = |e: (String, String)| (e.0@, e.1@);
                    let g = |e: (Seq<char>, ProcessView)| (e.0, status_line(e.1));
                    assert(es.take(i + 1) =~= es.take(i as int).push(es[i as int]));
                    assert(data@ =~= before.push(data@[i as int]));
                    assert(data@.map_values(f) =~= before.map_values(f).push(f(data@[i as int])));
                    assert(es.take(i + 1).map_values(g) =~= es.take(i as int).map_values(g).push(
                        g(es[i as int]),
                    ));
                }
                i = i + 1;
            }
            assert(es.take(n as int) =~= es);
            (IpcResponse::StatusData(data), None)
        },
        IpcRequest::Start { target } => {
            if state.set_intent(target.as_str(), Intent::Run) {
                (IpcResponse::Accepted, None)
            } else {
                (IpcResponse::Error(String::from_str("Process not found")), None)
            }
        },
        IpcRequest::Stop { target } => {
            let signal = match state.get(target.as_str()) {
                Some(ps) => match ps.status {
                    Status::Running(pid) => Some(pid),
                    _ => None,
                },
                None => None,
            };
            if state.set_intent(target.as_str(), Intent::Stop) {
                (IpcResponse::Accepted, signal)
            } else {
                (IpcResponse::Error(String::from_str("Process not found")), signal)
            }
        },
    }
}

} // verus!
