//! Properties that relate the supervisor's operations to one another.
use vstd::prelude::*;
use crate::client::{name_column, status_output};
use crate::config::{ProgramConfig, lemma_file_name_is_plain, path_file_name, upload_name};
use crate::ipc::{
    IpcRequestView, IpcResponseView, request_effect, request_reply, status_line, status_listing,
    status_word,
};
use crate::text::{
    decimal, lemma_decimal_injective, lemma_framed_equal, lemma_signed_decimal_injective,
    padded, signed_decimal,
};
use crate::state::{
    Intent, ProcessView, StatusView, entries_map, initial_intent, intent_or_stop,
    lemma_entries_map_at, names_sorted, registered,
};
use crate::supervisor::{
    SupervisorAction, SupervisorEventView, SupervisorPhase, poll_pause, recorded, step_spec,
};
use crate::web::{action_effect, action_reply, dashboard_status};

verus! {

/// The dashboard's `start` and `stop` actions change the table, and signal
/// processes, exactly as the control socket's `Start` and `Stop` requests do,
/// and succeed exactly when those requests are answered `Ok`.
pub proof fn lemma_dashboard_matches_socket(m: Map<Seq<char>, ProcessView>, target: Seq<char>)
    ensures
        action_effect(m, "start"@, target) == request_effect(
            m,
            IpcRequestView::Start { target: target },
        ),
        action_effect(m, "stop"@, target) == request_effect(m, IpcRequestView::Stop { target: target }),
        action_reply(m, "start"@, target).0 <==> request_reply(
            Seq::empty(),
            m,
            IpcRequestView::Start { target: target },
        ) == IpcResponseView::Accepted,
        action_reply(m, "stop"@, target).0 <==> request_reply(
            Seq::empty(),
            m,
            IpcRequestView::Stop { target: target },
        ) == IpcResponseView::Accepted,
{
    reveal_strlit("start");
    reveal_strlit("stop");
    assert("start"@ != "stop"@) by {
        assert("start"@.len() != "stop"@.len());
    }
}

/// `Start` and `Stop` change nothing but the intent of the program they name:
/// the same programs stay known, every status stays, and every other program
/// is left as it was.
pub proof fn lemma_control_changes_only_intent(m: Map<Seq<char>, ProcessView>, req: IpcRequestView)
    requires
        !(req is Status),
    ensures
        ({
            let target = match req {
                IpcRequestView::Start { target } => target,
                IpcRequestView::Stop { target } => target,
                IpcRequestView::Status => Seq::empty(),
            };
            let after = request_effect(m, req).0;
            &&& after.dom() == m.dom()
            &&& forall|k: Seq<char>| #[trigger] after.contains_key(k) ==> after[k].status == m[k].status
            &&& forall|k: Seq<char>| k != target && #[trigger] m.contains_key(k) ==> after[k] == m[k]
            &&& m.contains_key(target) ==> after[target].intent == (if req is Start {
                Intent::Run
            } else {
                Intent::Stop
            })
        }),
{
    let after = request_effect(m, req).0;
    assert(after.dom() =~= m.dom());
}

/// Asking for the status changes nothing, and lists every known program, in
/// order of name, with its own line.
pub proof fn lemma_status_lists_everything(es: Seq<(Seq<char>, ProcessView)>)
    requires
        names_sorted(es),
    ensures
        request_effect(entries_map(es), IpcRequestView::Status) == (entries_map(es), None::<u32>),
        ({
            let listing = status_listing(es);
            &&& listing.len() == es.len()
            &&& forall|i: int|
                0 <= i < listing.len() ==> entries_map(es).contains_key(#[trigger] listing[i].0)
                    && listing[i].1 == status_line(entries_map(es)[listing[i].0])
            &&& forall|k: Seq<char>| #[trigger]
                entries_map(es).contains_key(k) ==> exists|i: int|
                    0 <= i < listing.len() && #[trigger] listing[i].0 == k
        }),
{
    let listing = status_listing(es);
    assert forall|i: int| 0 <= i < listing.len() implies entries_map(es).contains_key(
        #[trigger] listing[i].0,
    ) && listing[i].1 == status_line(entries_map(es)[listing[i].0]) by {
        lemma_entries_map_at(es, i);
    }
    assert forall|k: Seq<char>| #[trigger] entries_map(es).contains_key(k) implies exists|i: int|
        0 <= i < listing.len() && #[trigger] listing[i].0 == k by {
        let i = choose|i: int| 0 <= i < es.len() && #[trigger] es[i].0 == k;
        assert(listing[i].0 == k);
    }
}

/// Starting a program twice has the effect of starting it once, and so has
/// stopping it and then starting it: the intent is `Run` and the status is
/// what it was.
pub proof fn lemma_start_is_idempotent(m: Map<Seq<char>, ProcessView>, target: Seq<char>)
    ensures
        request_effect(
            request_effect(m, IpcRequestView::Start { target: target }).0,
            IpcRequestView::Start { target: target },
        ) == request_effect(m, IpcRequestView::Start { target: target }),
        request_effect(
            request_effect(m, IpcRequestView::Stop { target: target }).0,
            IpcRequestView::Start { target: target },
        ).0 == request_effect(m, IpcRequestView::Start { target: target }).0,
{
    let once = request_effect(m, IpcRequestView::Start { target: target }).0;
    let twice = request_effect(once, IpcRequestView::Start { target: target }).0;
    assert(twice =~= once);
    let stopped = request_effect(m, IpcRequestView::Stop { target: target }).0;
    let restarted = request_effect(stopped, IpcRequestView::Start { target: target }).0;
    assert(restarted =~= once);
}

/// Stopping a program twice has the effect of stopping it once, and the
/// second stop signals the same process as the first (a stop leaves the
/// status as it was).
pub proof fn lemma_stop_is_idempotent(m: Map<Seq<char>, ProcessView>, target: Seq<char>)
    ensures
        request_effect(
            request_effect(m, IpcRequestView::Stop { target: target }).0,
            IpcRequestView::Stop { target: target },
        ) == request_effect(m, IpcRequestView::Stop { target: target }),
{
    let once = request_effect(m, IpcRequestView::Stop { target: target }).0;
    let twice = request_effect(once, IpcRequestView::Stop { target: target }).0;
    assert(twice =~= once);
}

/// Every configured program is known after registration, stopped, with the
/// intent that its `autostart` setting gives (the last entry of a name
/// counts); no other program is known.
pub proof fn lemma_registered(progs: Seq<(String, ProgramConfig)>, name: Seq<char>)
    ensures
        registered(progs).contains_key(name) <==> exists|i: int|
            0 <= i < progs.len() && #[trigger] progs[i].0@ == name,
        registered(progs).contains_key(name) ==> registered(progs)[name].status
            == StatusView::Stopped,
        forall|i: int|
            0 <= i < progs.len() && (#[trigger] progs[i]).0@ == name && (forall|j: int|
                i < j < progs.len() ==> (#[trigger] progs[j]).0@ != name) ==> registered(
                progs,
            )[name].intent == initial_intent(progs[i].1.autostart),
    decreases progs.len(),
{
    if progs.len() > 0 {
        let rest = progs.drop_last();
        lemma_registered(rest, name);
        if registered(progs).contains_key(name) && progs.last().0@ != name {
            let i = choose|i: int| 0 <= i < rest.len() && #[trigger] rest[i].0@ == name;
            assert(progs[i].0@ == name);
        }
        if exists|i: int| 0 <= i < progs.len() && #[trigger] progs[i].0@ == name {
            let i = choose|i: int| 0 <= i < progs.len() && #[trigger] progs[i].0@ == name;
            if i < rest.len() {
                assert(rest[i].0@ == name);
            }
        }
        assert forall|i: int|
            0 <= i < progs.len() && (#[trigger] progs[i]).0@ == name && (forall|j: int|
                i < j < progs.len() ==> (#[trigger] progs[j]).0@ != name) implies registered(
            progs,
        )[name].intent == initial_intent(progs[i].1.autostart) by {
            if i < rest.len() {
                assert(progs[progs.len() - 1].0@ != name);
                assert(rest[i] == progs[i]);
                assert forall|j: int| i < j < rest.len() implies (#[trigger] rest[j]).0@ != name by {
                    assert(rest[j] == progs[j]);
                }
            }
        }
    }
}

/// A program that is restarted after it exits, and is still meant to run, is
/// started again: after its exit the loop pauses once and then starts it.
pub proof fn lemma_restart_after_exit(code: Option<i32>)
    ensures
        ({
            let after_exit = step_spec(
                SupervisorPhase::Watching,
                true,
                SupervisorEventView::Exited(code),
            );
            let settled = step_spec(after_exit.0, true, SupervisorEventView::Intent(Intent::Run));
            let next = step_spec(settled.0, true, SupervisorEventView::Intent(Intent::Run));
            &&& after_exit.0 == SupervisorPhase::Settling
            &&& settled.1 == SupervisorAction::Sleep(poll_pause())
            &&& next.1 == SupervisorAction::Spawn
        }),
{
}

/// A program that is not restarted after it exits stays down until it is
/// started again: its exit records the status `Exited` together with the
/// intent `Stop`, and as long as the intent then reads `Stop`, however many
/// times the loop reads it, the program is not started.
pub proof fn lemma_no_restart_without_start(code: Option<i32>, n: nat)
    ensures
        ({
            let after_exit = step_spec(
                SupervisorPhase::Watching,
                false,
                SupervisorEventView::Exited(code),
            );
            &&& after_exit.2 == Some(
                StatusView::Exited(
                    match code {
                        Some(c) => c,
                        None => -1i32,
                    },
                ),
            )
            &&& after_exit.3 == Some(Intent::Stop)
            &&& after_exit.1 != SupervisorAction::Spawn
            &&& stop_run(after_exit.0, false, n) != SupervisorAction::Spawn
        }),
{
    lemma_stopped_program_is_not_started(SupervisorPhase::Settling, false, n);
}

/// A program meant to stop is never started: however many times the loop
/// reads the intent as `Stop`, from any phase, it does not start the program.
pub proof fn lemma_stopped_program_is_not_started(
    phase: SupervisorPhase,
    autorestart: bool,
    n: nat,
)
    ensures
        step_spec(phase, autorestart, SupervisorEventView::Intent(Intent::Stop)).1
            != SupervisorAction::Spawn,
        stop_run(phase, autorestart, n) != SupervisorAction::Spawn,
    decreases n,
{
    if n > 0 {
        lemma_stopped_program_is_not_started(
            step_spec(phase, autorestart, SupervisorEventView::Intent(Intent::Stop)).0,
            autorestart,
            (n - 1) as nat,
        );
    }
}

/// Once the exit of a program that is not restarted has been recorded, the
/// program reads as exited and meant to stop, and only a `Start` request for
/// it makes it meant to run again: no status request, and no request about
/// another program or to stop it, does.
pub proof fn lemma_exit_keeps_program_down(
    m: Map<Seq<char>, ProcessView>,
    name: Seq<char>,
    code: i32,
    req: IpcRequestView,
)
    requires
        m.contains_key(name),
    ensures
        ({
            let after = recorded(m, name, Some(StatusView::Exited(code)), Some(Intent::Stop));
            &&& after[name] == ProcessView { intent: Intent::Stop, status: StatusView::Exited(code) }
            &&& intent_or_stop(request_effect(after, req).0, name) == Intent::Run ==> req
                == IpcRequestView::Start { target: name }
        }),
{
}

/// An upload is stored under a plain name (not empty, free of `/`, neither
/// `.` nor `..`), so it lands in the working directory, wherever the name it
/// carries has a file name (`uploaded_bin` where it carries none). A name
/// without a file name, such as `..`, is kept as it is.
pub proof fn lemma_upload_name_is_plain(raw: Option<Seq<char>>)
    ensures
        ({
            let r = match raw {
                Some(r) => r,
                None => "uploaded_bin"@,
            };
            path_file_name(r) is Some ==> {
                let n = upload_name(raw);
                &&& n.len() > 0
                &&& !n.contains('/')
                &&& n != seq!['.']
                &&& n != seq!['.', '.']
            }
        }),
{
    let r = match raw {
        Some(r) => r,
        None => "uploaded_bin"@,
    };
    lemma_file_name_is_plain(r);
}

/// Only a stop signals a process, and only one recorded as running, with the
/// process id recorded for it: a `Start` request, like the dashboard's
/// `start` action, never signals anything.
pub proof fn lemma_only_stop_signals(
    m: Map<Seq<char>, ProcessView>,
    req: IpcRequestView,
    action: Seq<char>,
    target: Seq<char>,
)
    ensures
        request_effect(m, req).1 matches Some(pid) ==> (req matches IpcRequestView::Stop {
            target: t,
        } && m.contains_key(t) && m[t].status == StatusView::Running(pid)),
        request_effect(m, IpcRequestView::Start { target: target }).1 is None,
        action_effect(m, action, target).1 matches Some(pid) ==> action == "stop"@
            && m.contains_key(target) && m[target].status == StatusView::Running(pid),
        action_effect(m, "start"@, target).1 is None,
{
}

/// Recording a step for a known program sets its status to the step's status
/// and its intent to the step's intent, each only where the step carries one
/// and independently of the other; no other program changes, and recording
/// for an unknown name changes nothing.
pub proof fn lemma_recording_a_step(
    m: Map<Seq<char>, ProcessView>,
    name: Seq<char>,
    status: Option<StatusView>,
    intent: Option<Intent>,
)
    ensures
        ({
            let r = recorded(m, name, status, intent);
            &&& r.dom() == m.dom()
            &&& forall|k: Seq<char>| k != name && #[trigger] m.contains_key(k) ==> r[k] == m[k]
            &&& m.contains_key(name) ==> r[name].status == (match status {
                Some(s) => s,
                None => m[name].status,
            })
            &&& m.contains_key(name) ==> r[name].intent == (match intent {
                Some(i) => i,
                None => m[name].intent,
            })
            &&& !m.contains_key(name) ==> r == m
        }),
{
    let r = recorded(m, name, status, intent);
    assert(r.dom() =~= m.dom());
}

/// A reply to `Status` never describes two different statuses alike: in
/// particular a program that exited, with whatever code, never reads as
/// stopped, running or failed, and two exit codes never read alike.
pub proof fn lemma_status_words_differ(a: StatusView, b: StatusView)
    requires
        status_word(a) == status_word(b),
    ensures
        a == b,
{
    reveal_strlit("STOPPED");
    reveal_strlit("RUNNING (pid ");
    reveal_strlit("EXITED (code ");
    reveal_strlit("FAILED (");
    reveal_strlit(")");
    let w = status_word(a);
    assert(w[0] == status_word(b)[0]);
    match (a, b) {
        (StatusView::Running(x), StatusView::Running(y)) => {
            lemma_framed_equal("RUNNING (pid "@, decimal(x as nat), decimal(y as nat), ")"@);
            lemma_decimal_injective(x as nat, y as nat);
        },
        (StatusView::Exited(x), StatusView::Exited(y)) => {
            lemma_framed_equal(
                "EXITED (code "@,
                signed_decimal(x as int),
                signed_decimal(y as int),
                ")"@,
            );
            lemma_signed_decimal_injective(x as int, y as int);
        },
        (StatusView::Failed(x), StatusView::Failed(y)) => {
            lemma_framed_equal("FAILED ("@, x, y, ")"@);
        },
        _ => {},
    }
}

/// The dashboard never shows two different statuses alike: in particular a
/// program that exited, with whatever code, never shows as stopped, running
/// or failed, and two exit codes never show alike.
pub proof fn lemma_dashboard_statuses_differ(a: StatusView, b: StatusView)
    requires
        dashboard_status(a) == dashboard_status(b),
    ensures
        a == b,
{
    reveal_strlit("Stopped");
    reveal_strlit("Running (pid ");
    reveal_strlit("Exited (code ");
    reveal_strlit("Failed: ");
    reveal_strlit(")");
    let w = dashboard_status(a);
    assert(w[0] == dashboard_status(b)[0]);
    match (a, b) {
        (StatusView::Running(x), StatusView::Running(y)) => {
            lemma_framed_equal("Running (pid "@, decimal(x as nat), decimal(y as nat), ")"@);
            lemma_decimal_injective(x as nat, y as nat);
        },
        (StatusView::Exited(x), StatusView::Exited(y)) => {
            lemma_framed_equal(
                "Exited (code "@,
                signed_decimal(x as int),
                signed_decimal(y as int),
                ")"@,
            );
            lemma_signed_decimal_injective(x as int, y as int);
        },
        (StatusView::Failed(x), StatusView::Failed(y)) => {
            assert("Failed: "@ + x =~= "Failed: "@ + x + Seq::<char>::empty());
            assert("Failed: "@ + y =~= "Failed: "@ + y + Seq::<char>::empty());
            lemma_framed_equal("Failed: "@, x, y, Seq::<char>::empty());
        },
        _ => {},
    }
}

/// For a listing of programs, `status` prints one line per program, in the
/// listing's order: each line begins with the program's name and ends with
/// its description; a name that fits the name column is padded to it, so the
/// description starts right after the column and a blank.
pub proof fn lemma_status_prints_every_program(d: Seq<(Seq<char>, Seq<char>)>)
    requires
        d.len() > 0,
    ensures
        ({
            let out = status_output(IpcResponseView::StatusData(d));
            &&& out.len() == d.len()
            &&& forall|i: int|
                0 <= i < d.len() ==> {
                    let line = #[trigger] out[i];
                    &&& line.len() >= d[i].0.len() + 1 + d[i].1.len()
                    &&& line.take(d[i].0.len() as int) == d[i].0
                    &&& line.skip(line.len() - d[i].1.len()) == d[i].1
                    &&& line[line.len() - d[i].1.len() - 1] == ' '
                    &&& d[i].0.len() <= name_column() ==> line.len() == name_column() + 1
                        + d[i].1.len()
                }
        }),
{
    reveal_strlit(" ");
    let out = status_output(IpcResponseView::StatusData(d));
    assert forall|i: int| 0 <= i < d.len() implies {
        let line = #[trigger] out[i];
        &&& line.len() >= d[i].0.len() + 1 + d[i].1.len()
        &&& line.take(d[i].0.len() as int) == d[i].0
        &&& line.skip(line.len() - d[i].1.len()) == d[i].1
        &&& line[line.len() - d[i].1.len() - 1] == ' '
        &&& d[i].0.len() <= name_column() ==> line.len() == name_column() + 1 + d[i].1.len()
    } by {
        let name = d[i].0;
        let desc = d[i].1;
        let pad = padded(name, name_column());
        let line = out[i];
        assert(line == pad + " "@ + desc);
        assert(pad.len() >= name.len());
        assert(pad.take(name.len() as int) =~= name);
        assert(line.take(name.len() as int) =~= name);
        assert(line.skip(line.len() - desc.len()) =~= desc);
        assert(line[line.len() - desc.len() - 1] == ' ');
    }
}

/// The action after the loop, starting in `phase`, has read the intent as
/// `Stop` `n + 1` times in a row.
pub open spec fn stop_run(phase: SupervisorPhase, autorestart: bool, n: nat) -> SupervisorAction
    decreases n,
{
    let s = step_spec(phase, autorestart, SupervisorEventView::Intent(Intent::Stop));
    if n == 0 {
        s.1
    } else {
        stop_run(s.0, autorestart, (n - 1) as nat)
    }
}

} // verus!
