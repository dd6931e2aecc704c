use supervisorr::client::{start_line, status_lines, stop_line};
use supervisorr::config::{
    default_true, upload_file_name, uploaded_program, Config, ProgramConfig, SupervisorrConfig,
};
use supervisorr::ipc::{process_request, status_line_of, IpcRequest, IpcResponse};
use supervisorr::names::{compare_names, NameOrder};
use supervisorr::state::{AppState, Intent, ProcessState, Status};
use supervisorr::supervisor::{
    record_step, supervise_step, SupervisorAction, SupervisorEvent, SupervisorPhase,
};
use supervisorr::text::{i32_to_decimal, pad_right, u32_to_decimal};
use supervisorr::web::{apply_action, register_program, status_report};

fn program(autostart: bool) -> ProgramConfig {
    ProgramConfig {
        command: "sleep 1".to_string(),
        directory: None,
        autostart,
        autorestart: true,
        environment: None,
        stdout_logfile: None,
        stderr_logfile: None,
    }
}

fn table() -> AppState {
    let mut s = AppState::new();
    s.insert(
        "web".to_string(),
        ProcessState { intent: Intent::Run, status: Status::Running(42) },
    );
    s.insert(
        "db".to_string(),
        ProcessState { intent: Intent::Stop, status: Status::Exited(-1) },
    );
    s.insert(
        "api".to_string(),
        ProcessState { intent: Intent::Run, status: Status::Failed("no such file".to_string()) },
    );
    s
}

#[test]
fn decimal_rendering() {
    assert_eq!(u32_to_decimal(0), "0");
    assert_eq!(u32_to_decimal(7), "7");
    assert_eq!(u32_to_decimal(1234), "1234");
    assert_eq!(u32_to_decimal(u32::MAX), "4294967295");
    assert_eq!(i32_to_decimal(0), "0");
    assert_eq!(i32_to_decimal(-1), "-1");
    assert_eq!(i32_to_decimal(i32::MIN), "-2147483648");
    assert_eq!(i32_to_decimal(i32::MAX), "2147483647");
}

#[test]
fn padding_matches_format() {
    assert_eq!(pad_right("web", 20), format!("{:<20}", "web"));
    assert_eq!(pad_right("", 3), "   ");
    let long = "a-very-long-program-name";
    assert_eq!(pad_right(long, 20), long);
    assert_eq!(pad_right("é", 3), format!("{:<3}", "é"));
}

#[test]
fn name_order_matches_str_order() {
    assert_eq!(compare_names("a", "b"), NameOrder::Less);
    assert_eq!(compare_names("b", "a"), NameOrder::Greater);
    assert_eq!(compare_names("ab", "ab"), NameOrder::Equal);
    assert_eq!(compare_names("ab", "abc"), NameOrder::Less);
    assert_eq!(compare_names("", ""), NameOrder::Equal);
    assert_eq!(compare_names("Z", "a"), NameOrder::Less);
}

#[test]
fn table_keeps_names_in_order() {
    let s = table();
    assert_eq!(s.len(), 3);
    let names: Vec<String> = (0..s.len()).map(|i| s.entry_at(i).0.clone()).collect();
    assert_eq!(names, vec!["api", "db", "web"]);
}

#[test]
fn insert_replaces_existing_entry() {
    let mut s = table();
    s.insert("db".to_string(), ProcessState { intent: Intent::Run, status: Status::Stopped });
    assert_eq!(s.len(), 3);
    let ps = s.get("db").unwrap();
    assert_eq!(ps.intent, Intent::Run);
    assert_eq!(ps.status, Status::Stopped);
}

#[test]
fn intent_of_unknown_is_stop() {
    let s = table();
    assert_eq!(s.intent_of("web"), Intent::Run);
    assert_eq!(s.intent_of("db"), Intent::Stop);
    assert_eq!(s.intent_of("nothing"), Intent::Stop);
}

#[test]
fn set_status_only_on_known_names() {
    let mut s = table();
    assert!(s.set_status("db", Status::Running(9)));
    assert_eq!(s.get("db").unwrap().status, Status::Running(9));
    assert_eq!(s.get("db").unwrap().intent, Intent::Stop);
    assert!(!s.set_status("ghost", Status::Running(1)));
    assert!(s.get("ghost").is_none());
    assert_eq!(s.len(), 3);
}

#[test]
fn status_request_lists_every_program() {
    let mut s = table();
    let (resp, signal) = process_request(&mut s, IpcRequest::Status);
    assert_eq!(signal, None);
    match resp {
        IpcResponse::StatusData(data) => {
            assert_eq!(
                data,
                vec![
                    ("api".to_string(), "FAILED (no such file) [intended: RUN]".to_string()),
                    ("db".to_string(), "EXITED (code -1) [intended: STOP]".to_string()),
                    ("web".to_string(), "RUNNING (pid 42) [intended: RUN]".to_string()),
                ]
            );
        }
        other => panic!("unexpected reply {:?}", other),
    }
}

#[test]
fn status_line_of_stopped_program() {
    let ps = ProcessState { intent: Intent::Stop, status: Status::Stopped };
    assert_eq!(status_line_of(&ps), "STOPPED [intended: STOP]");
}

#[test]
fn start_request_sets_intent() {
    let mut s = table();
    let (resp, signal) = process_request(&mut s, IpcRequest::Start { target: "db".to_string() });
    assert!(matches!(resp, IpcResponse::Accepted));
    assert_eq!(signal, None);
    assert_eq!(s.intent_of("db"), Intent::Run);
    assert_eq!(s.get("db").unwrap().status, Status::Exited(-1));
}

#[test]
fn stop_request_signals_running_program() {
    let mut s = table();
    let (resp, signal) = process_request(&mut s, IpcRequest::Stop { target: "web".to_string() });
    assert!(matches!(resp, IpcResponse::Accepted));
    assert_eq!(signal, Some(42));
    assert_eq!(s.intent_of("web"), Intent::Stop);
    let (_, again) = process_request(&mut s, IpcRequest::Stop { target: "web".to_string() });
    assert_eq!(again, Some(42));
}

#[test]
fn stop_request_without_running_process_sends_nothing() {
    let mut s = table();
    let (resp, signal) = process_request(&mut s, IpcRequest::Stop { target: "db".to_string() });
    assert!(matches!(resp, IpcResponse::Accepted));
    assert_eq!(signal, None);
}

#[test]
fn request_for_unknown_program_is_refused() {
    let mut s = table();
    for req in [
        IpcRequest::Start { target: "nope".to_string() },
        IpcRequest::Stop { target: "nope".to_string() },
    ] {
        let (resp, signal) = process_request(&mut s, req);
        match resp {
            IpcResponse::Error(e) => assert_eq!(e, "Process not found"),
            other => panic!("unexpected reply {:?}", other),
        }
        assert_eq!(signal, None);
    }
    assert_eq!(s.len(), 3);
}

#[test]
fn dashboard_rows_sorted_by_name() {
    let s = table();
    let rows = status_report(&s);
    let got: Vec<(String, String, String)> =
        rows.into_iter().map(|r| (r.name, r.status, r.intent)).collect();
    assert_eq!(
        got,
        vec![
            ("api".to_string(), "Failed: no such file".to_string(), "Run".to_string()),
            ("db".to_string(), "Exited (code -1)".to_string(), "Stop".to_string()),
            ("web".to_string(), "Running (pid 42)".to_string(), "Run".to_string()),
        ]
    );
}

#[test]
fn dashboard_row_for_stopped_program() {
    let mut s = AppState::new();
    s.insert("x".to_string(), ProcessState { intent: Intent::Run, status: Status::Stopped });
    let rows = status_report(&s);
    assert_eq!(rows.len(), 1);
    assert_eq!(rows[0].status, "Stopped");
}

#[test]
fn dashboard_start_and_stop() {
    let mut s = table();
    let (resp, signal) = apply_action(&mut s, "start", "db");
    assert!(resp.success);
    assert_eq!(resp.error, None);
    assert_eq!(signal, None);
    assert_eq!(s.intent_of("db"), Intent::Run);
    let (resp, signal) = apply_action(&mut s, "stop", "web");
    assert!(resp.success);
    assert_eq!(signal, Some(42));
    assert_eq!(s.intent_of("web"), Intent::Stop);
}

#[test]
fn dashboard_errors() {
    let mut s = table();
    let (resp, signal) = apply_action(&mut s, "restart", "web");
    assert!(!resp.success);
    assert_eq!(resp.error.as_deref(), Some("Unknown action"));
    assert_eq!(signal, None);
    assert_eq!(s.intent_of("web"), Intent::Run);
    let (resp, _) = apply_action(&mut s, "restart", "nope");
    assert_eq!(resp.error.as_deref(), Some("Process not found"));
    let (resp, _) = apply_action(&mut s, "start", "nope");
    assert!(!resp.success);
    assert_eq!(resp.error.as_deref(), Some("Process not found"));
}

#[test]
fn dashboard_and_socket_agree() {
    let mut a = table();
    let mut b = table();
    let (_, sa) = apply_action(&mut a, "stop", "web");
    let (_, sb) = process_request(&mut b, IpcRequest::Stop { target: "web".to_string() });
    assert_eq!(sa, sb);
    assert_eq!(a.intent_of("web"), b.intent_of("web"));
}

#[test]
fn start_twice_is_start_once() {
    let mut s = table();
    process_request(&mut s, IpcRequest::Start { target: "db".to_string() });
    process_request(&mut s, IpcRequest::Start { target: "db".to_string() });
    assert_eq!(s.intent_of("db"), Intent::Run);
    assert_eq!(s.len(), 3);
}

#[test]
fn registration_from_config() {
    let config = Config {
        supervisorr: None,
        program: vec![("b".to_string(), program(true)), ("a".to_string(), program(false))],
    };
    let s = AppState::from_config(&config);
    assert_eq!(s.len(), 2);
    assert_eq!(s.get("a").unwrap().intent, Intent::Stop);
    assert_eq!(s.get("b").unwrap().intent, Intent::Run);
    assert_eq!(s.get("b").unwrap().status, Status::Stopped);
}

#[test]
fn default_settings() {
    assert!(default_true());
    let none = Config { supervisorr: None, program: vec![] };
    assert_eq!(none.socket_path(), "/tmp/supervisorr.sock");
    assert_eq!(none.web_bind(), "0.0.0.0:3000");
    let partial = Config {
        supervisorr: Some(SupervisorrConfig { socket_file: None, web_bind: Some("0.0.0.0:8080".to_string()) }),
        program: vec![],
    };
    assert_eq!(partial.socket_path(), "/tmp/supervisorr.sock");
    assert_eq!(partial.web_bind(), "0.0.0.0:8080");
    let full = Config {
        supervisorr: Some(SupervisorrConfig { socket_file: Some("/run/s.sock".to_string()), web_bind: None }),
        program: vec![],
    };
    assert_eq!(full.socket_path(), "/run/s.sock");
    assert_eq!(full.web_bind(), "0.0.0.0:3000");
}

#[test]
fn add_program_replaces_or_appends() {
    let mut c = Config { supervisorr: None, program: vec![("a".to_string(), program(true))] };
    c.add_program("b".to_string(), program(false));
    assert_eq!(c.program.len(), 2);
    assert_eq!(c.program[1].0, "b");
    c.add_program("a".to_string(), program(false));
    assert_eq!(c.program.len(), 2);
    assert!(!c.program[0].1.autostart);
}

#[test]
fn upload_names() {
    assert_eq!(upload_file_name(Some("tool")), "tool");
    assert_eq!(upload_file_name(Some("../../etc/evil")), "evil");
    assert_eq!(upload_file_name(Some("dir/sub/")), "sub");
    assert_eq!(upload_file_name(None), "uploaded_bin");
    assert_eq!(upload_file_name(Some("..")), "..");
}

#[test]
fn uploaded_program_layout() {
    let p = uploaded_program("/srv/up", "tool");
    assert_eq!(p.command, "/srv/up/tool");
    assert_eq!(p.directory.as_deref(), Some("/srv/up"));
    assert!(p.autostart);
    assert!(p.autorestart);
    assert!(p.environment.is_none());
    assert_eq!(p.stdout_logfile.as_deref(), Some("/srv/up/tool.log"));
    assert_eq!(p.stderr_logfile.as_deref(), Some("/srv/up/tool.err"));
}

#[test]
fn supervisor_starts_only_when_meant_to_run() {
    let s = supervise_step(SupervisorPhase::Idle, true, SupervisorEvent::Intent(Intent::Stop));
    assert_eq!(s.phase, SupervisorPhase::Idle);
    assert_eq!(s.action, SupervisorAction::Sleep(500));
    let s = supervise_step(SupervisorPhase::Idle, true, SupervisorEvent::Intent(Intent::Run));
    assert_eq!(s.phase, SupervisorPhase::Launching);
    assert_eq!(s.action, SupervisorAction::Spawn);
    assert!(s.status.is_none());
}

#[test]
fn supervisor_records_start_failure_and_exit() {
    let s = supervise_step(SupervisorPhase::Launching, true, SupervisorEvent::Spawned(Some(77)));
    assert_eq!(s.phase, SupervisorPhase::Watching);
    assert_eq!(s.action, SupervisorAction::Wait);
    assert_eq!(s.status, Some(Status::Running(77)));
    let s = supervise_step(SupervisorPhase::Launching, true, SupervisorEvent::Spawned(None));
    assert_eq!(s.status, Some(Status::Running(0)));
    let s = supervise_step(
        SupervisorPhase::Launching,
        true,
        SupervisorEvent::SpawnFailed("denied".to_string()),
    );
    assert_eq!(s.phase, SupervisorPhase::Settling);
    assert_eq!(s.action, SupervisorAction::Sleep(5000));
    assert_eq!(s.status, Some(Status::Failed("denied".to_string())));
    let s = supervise_step(SupervisorPhase::Watching, true, SupervisorEvent::Exited(Some(3)));
    assert_eq!(s.phase, SupervisorPhase::Settling);
    assert_eq!(s.action, SupervisorAction::CheckIntent);
    assert_eq!(s.status, Some(Status::Exited(3)));
    let s = supervise_step(SupervisorPhase::Watching, true, SupervisorEvent::Exited(None));
    assert_eq!(s.status, Some(Status::Exited(-1)));
}

#[test]
fn supervisor_restarts_or_holds() {
    let s = supervise_step(SupervisorPhase::Settling, true, SupervisorEvent::Intent(Intent::Run));
    assert_eq!(s.phase, SupervisorPhase::Idle);
    assert_eq!(s.action, SupervisorAction::Sleep(500));
    let s = supervise_step(SupervisorPhase::Settling, false, SupervisorEvent::Intent(Intent::Run));
    assert_eq!(s.phase, SupervisorPhase::Holding);
    let s = supervise_step(SupervisorPhase::Settling, true, SupervisorEvent::Intent(Intent::Stop));
    assert_eq!(s.phase, SupervisorPhase::Holding);
    assert_eq!(s.action, SupervisorAction::CheckIntent);
    let s = supervise_step(SupervisorPhase::Holding, true, SupervisorEvent::Intent(Intent::Stop));
    assert_eq!(s.phase, SupervisorPhase::Holding);
    assert_eq!(s.action, SupervisorAction::Sleep(500));
    let s = supervise_step(SupervisorPhase::Holding, true, SupervisorEvent::Intent(Intent::Run));
    assert_eq!(s.phase, SupervisorPhase::Idle);
    assert_eq!(s.action, SupervisorAction::CheckIntent);
}

#[test]
fn supervisor_recovers_from_unexpected_event() {
    let s = supervise_step(SupervisorPhase::Launching, true, SupervisorEvent::Intent(Intent::Run));
    assert_eq!(s.phase, SupervisorPhase::Idle);
    assert_eq!(s.action, SupervisorAction::CheckIntent);
    let s = supervise_step(SupervisorPhase::Holding, true, SupervisorEvent::Exited(Some(0)));
    assert_eq!(s.phase, SupervisorPhase::Holding);
}

#[test]
fn client_status_output() {
    let empty = status_lines(&IpcResponse::StatusData(vec![]));
    assert_eq!(empty, vec!["No processes configured."]);
    let lines = status_lines(&IpcResponse::StatusData(vec![(
        "web".to_string(),
        "STOPPED [intended: STOP]".to_string(),
    )]));
    assert_eq!(lines, vec![format!("{:<20} {}", "web", "STOPPED [intended: STOP]")]);
    assert_eq!(status_lines(&IpcResponse::Error("boom".to_string())), vec!["Error: boom"]);
    assert_eq!(status_lines(&IpcResponse::Accepted), vec!["Unexpected response"]);
}

#[test]
fn client_control_output() {
    assert_eq!(start_line("web", &IpcResponse::Accepted), "Started web");
    assert_eq!(stop_line("web", &IpcResponse::Accepted), "Stopped web");
    assert_eq!(start_line("web", &IpcResponse::Error("Process not found".to_string())), "Error: Process not found");
    assert_eq!(stop_line("web", &IpcResponse::StatusData(vec![])), "Unexpected response");
}

#[test]
fn exit_without_autorestart_keeps_program_down() {
    let mut s = AppState::new();
    s.insert("job".to_string(), ProcessState { intent: Intent::Run, status: Status::Running(5) });
    let step = supervise_step(SupervisorPhase::Watching, false, SupervisorEvent::Exited(Some(2)));
    assert_eq!(step.intent, Some(Intent::Stop));
    let (phase, action) = record_step(&mut s, "job", step);
    assert_eq!(s.get("job").unwrap().status, Status::Exited(2));
    assert_eq!(s.intent_of("job"), Intent::Stop);
    assert_eq!(action, SupervisorAction::CheckIntent);
    let step = supervise_step(phase, false, SupervisorEvent::Intent(s.intent_of("job")));
    assert_eq!(step.phase, SupervisorPhase::Holding);
    let (phase, _) = record_step(&mut s, "job", step);
    for _ in 0..3 {
        let step = supervise_step(phase, false, SupervisorEvent::Intent(s.intent_of("job")));
        assert_eq!(step.phase, SupervisorPhase::Holding);
        assert_ne!(step.action, SupervisorAction::Spawn);
    }
    process_request(&mut s, IpcRequest::Start { target: "job".to_string() });
    let step = supervise_step(phase, false, SupervisorEvent::Intent(s.intent_of("job")));
    assert_eq!(step.phase, SupervisorPhase::Idle);
    let step = supervise_step(step.phase, false, SupervisorEvent::Intent(s.intent_of("job")));
    assert_eq!(step.action, SupervisorAction::Spawn);
    assert_eq!(s.get("job").unwrap().status, Status::Exited(2));
}

#[test]
fn exit_with_autorestart_keeps_intent() {
    let step = supervise_step(SupervisorPhase::Watching, true, SupervisorEvent::Exited(Some(0)));
    assert_eq!(step.intent, None);
    assert_eq!(step.status, Some(Status::Exited(0)));
}

#[test]
fn running_pids_for_shutdown() {
    let mut s = table();
    s.insert("zeta".to_string(), ProcessState { intent: Intent::Run, status: Status::Running(9) });
    assert_eq!(s.running_pids(), vec![42, 9]);
    assert_eq!(AppState::new().running_pids(), Vec::<u32>::new());
}

#[test]
fn upload_registration_ties_config_and_table() {
    let mut c = Config { supervisorr: None, program: vec![] };
    let mut s = table();
    register_program(&mut c, &mut s, "tool".to_string(), uploaded_program("/srv", "tool"));
    assert_eq!(c.program.len(), 1);
    assert_eq!(c.program[0].0, "tool");
    assert_eq!(c.program[0].1.command, "/srv/tool");
    let ps = s.get("tool").unwrap();
    assert_eq!(ps.intent, Intent::Run);
    assert_eq!(ps.status, Status::Stopped);
    register_program(&mut c, &mut s, "web".to_string(), uploaded_program("/srv", "web"));
    assert_eq!(c.program.len(), 2);
    assert_eq!(s.get("web").unwrap().status, Status::Stopped);
    assert_eq!(s.len(), 4);
}

#[test]
fn path_join_cases() {
    assert_eq!(uploaded_program("/", "tool").command, "/tool");
    assert_eq!(uploaded_program("/srv/", "tool").command, "/srv/tool");
    assert_eq!(uploaded_program("", "tool").command, "tool");
    assert_eq!(uploaded_program("/srv", "/abs/tool").command, "/abs/tool");
    assert_eq!(uploaded_program("/srv", "").command, "/srv/");
}

#[test]
fn add_program_keeps_names_distinct() {
    let mut c = Config { supervisorr: None, program: vec![] };
    c.add_program("a".to_string(), program(true));
    c.add_program("b".to_string(), program(true));
    c.add_program("a".to_string(), program(false));
    let names: Vec<&str> = c.program.iter().map(|(n, _)| n.as_str()).collect();
    assert_eq!(names, vec!["a", "b"]);
}
