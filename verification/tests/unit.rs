// Unit tests for the data model, the builders, and the error taxonomy.

use process_orchestrator::config::is_config_file_name;
use process_orchestrator::errors::{service_start_disposition, OrchestratorError};
use process_orchestrator::event_pump::{Event, EventPump, OsAction};
use process_orchestrator::stateful_process::{
    build_command_line, build_environment_block, create_process_id, elapsed_millis,
    memory_kib_from_bytes, PollSample, StatefulProcess, StatefulProcessConfig,
    StatefulProcessStopMethod,
};

fn bare_config(name: &str) -> StatefulProcessConfig {
    StatefulProcessConfig {
        name: name.to_string(),
        executable: format!("{}.exe", name),
        arguments: None,
        working_directory: None,
        log_file: None,
        stop_method: None,
        environment_variables: None,
        recycle_on_memory_kib: None,
        recycle_on_duration_millis: None,
    }
}

fn live_handle(name: &str, pid: u64) -> StatefulProcess {
    StatefulProcess {
        id: format!("{}-12345", name),
        config: bare_config(name),
        has_os_process: true,
        pid: Some(pid),
        has_log_file_handle: false,
        has_exit_registration: true,
        memory_usage_kib: None,
        uptime_millis: None,
    }
}

#[test]
fn recycle_threshold_is_strict_on_memory() {
    let mut p = live_handle("A", 7);
    p.config.recycle_on_memory_kib = Some(100_000);
    p.memory_usage_kib = Some(100_000);
    assert!(!p.is_recycle_required());
    p.memory_usage_kib = Some(100_001);
    assert!(p.is_recycle_required());
    p.memory_usage_kib = None;
    assert!(!p.is_recycle_required());
}

#[test]
fn recycle_threshold_is_strict_on_duration() {
    let mut p = live_handle("A", 7);
    p.config.recycle_on_duration_millis = Some(5_000);
    p.uptime_millis = Some(5_000);
    assert!(!p.is_recycle_required());
    p.uptime_millis = Some(5_001);
    assert!(p.is_recycle_required());
}

#[test]
fn recycle_never_fires_without_thresholds() {
    let mut p = live_handle("A", 7);
    p.memory_usage_kib = Some(u64::MAX);
    p.uptime_millis = Some(u64::MAX);
    assert!(!p.is_recycle_required());
}

#[test]
fn poll_records_fresh_metrics_and_keeps_old_on_failure() {
    let mut p = live_handle("A", 7);
    p.poll(&PollSample {
        is_running: true,
        memory_usage_kib: Some(10),
        uptime_millis: Some(20),
    });
    assert_eq!(p.memory_usage_kib, Some(10));
    assert_eq!(p.uptime_millis, Some(20));
    // A failed query leaves the previous value in place.
    p.poll(&PollSample { is_running: true, memory_usage_kib: None, uptime_millis: Some(30) });
    assert_eq!(p.memory_usage_kib, Some(10));
    assert_eq!(p.uptime_millis, Some(30));
}

#[test]
fn poll_without_os_process_records_nothing() {
    let mut p = StatefulProcess::new(bare_config("A"));
    p.poll(&PollSample {
        is_running: true,
        memory_usage_kib: Some(10),
        uptime_millis: Some(20),
    });
    assert_eq!(p.memory_usage_kib, None);
    assert_eq!(p.uptime_millis, None);
}

#[test]
fn process_id_has_name_dash_and_five_symbol_suffix() {
    let alphabet = "1234567890abcdef";
    for _ in 0..20 {
        let id = create_process_id(&"web".to_string());
        assert_eq!(id.len(), "web".len() + 6);
        assert!(id.starts_with("web-"));
        let suffix = &id["web-".len()..];
        assert_eq!(suffix.len(), 5);
        assert!(suffix.chars().all(|c| alphabet.contains(c)));
    }
}

#[test]
fn fresh_handle_owns_no_os_state() {
    let p = StatefulProcess::new(bare_config("A"));
    assert!(!p.has_os_process);
    assert_eq!(p.pid, None);
    assert!(!p.has_exit_registration);
    assert!(!p.has_log_file_handle);
    assert_eq!(p.memory_usage_kib, None);
    assert_eq!(p.uptime_millis, None);
}

#[test]
fn spec_file_names_must_end_in_yml() {
    assert!(is_config_file_name("web.yml"));
    assert!(is_config_file_name(".yml"));
    assert!(is_config_file_name("a.b.yml"));
    assert!(!is_config_file_name("web.yaml"));
    assert!(!is_config_file_name("web.yml.bak"));
    assert!(!is_config_file_name("yml"));
    assert!(!is_config_file_name(""));
}

#[test]
fn stop_dispatch_follows_configured_method() {
    let mut p = live_handle("A", 42);
    assert_eq!(p.request_stop(), Some(OsAction::Terminate(p.id.clone())));
    p.config.stop_method = Some(StatefulProcessStopMethod::Terminate);
    assert_eq!(p.request_stop(), Some(OsAction::Terminate(p.id.clone())));
    p.config.stop_method = Some(StatefulProcessStopMethod::CtrlC);
    assert_eq!(p.request_stop(), Some(OsAction::SignalCtrlC(42)));
    // A handle with no attached OS process has nothing to stop.
    let fresh = StatefulProcess::new(bare_config("A"));
    assert_eq!(fresh.request_stop(), None);
}

#[test]
fn release_operations_come_in_order_and_only_for_held_resources() {
    let mut p = live_handle("A", 42);
    p.has_log_file_handle = true;
    assert_eq!(
        p.on_stopped(),
        vec![
            OsAction::UnregisterExitWait(p.id.clone()),
            OsAction::CloseProcessHandle(p.id.clone()),
            OsAction::CloseLogFile(p.id.clone()),
        ]
    );
    p.has_log_file_handle = false;
    assert_eq!(
        p.on_stopped(),
        vec![
            OsAction::UnregisterExitWait(p.id.clone()),
            OsAction::CloseProcessHandle(p.id.clone()),
        ]
    );
    let fresh = StatefulProcess::new(bare_config("A"));
    assert_eq!(fresh.on_stopped(), vec![]);
}

#[test]
fn command_line_quotes_each_argument() {
    let mut c = bare_config("run");
    c.executable = "run.exe".to_string();
    assert_eq!(build_command_line(&c), "run.exe");
    c.arguments = Some(vec!["a b".to_string(), "c".to_string()]);
    assert_eq!(build_command_line(&c), "run.exe \"a b\" \"c\"");
    // An argument list that is present but empty still appends the joiner.
    c.arguments = Some(vec![]);
    assert_eq!(build_command_line(&c), "run.exe ");
}

#[test]
fn environment_block_is_nul_delimited_and_nul_closed() {
    let pairs = vec![
        ("A".to_string(), "1".to_string()),
        ("PATH".to_string(), "/bin".to_string()),
    ];
    assert_eq!(build_environment_block(&pairs), "A=1\0PATH=/bin\0\0");
    assert_eq!(build_environment_block(&vec![]), "\0");
}

#[test]
fn metric_conversions() {
    assert_eq!(memory_kib_from_bytes(104_857_600), 102_400);
    assert_eq!(memory_kib_from_bytes(1_023), 0);
    assert_eq!(elapsed_millis(1_000, 6_000), 5_000);
    assert_eq!(elapsed_millis(6_000, 1_000), 0);
    assert_eq!(elapsed_millis(0, 0), 0);
}

#[test]
fn error_messages_render_their_payloads() {
    let e = OrchestratorError::ConfigLoadFailed("c:\\x.yml".to_string(), "bad field".to_string());
    assert_eq!(e.message(), "Could not load config file [c:\\x.yml]: bad field");
    let e = OrchestratorError::ServiceStartFailed("access denied".to_string());
    assert_eq!(e.message(), "Windows service failed to start: access denied");
    let e = OrchestratorError::ServiceControllerNotPresent();
    assert_eq!(e.message(), "Windows service controller not present");
    let e = OrchestratorError::ProcessNotificationRegistrationFailed();
    assert_eq!(
        e.message(),
        "Registration of the process notification handler has failed"
    );
}

#[test]
fn service_start_disposition_runs_standalone_on_code_1063() {
    assert!(service_start_disposition(false, false, None, String::new()).is_ok());
    match service_start_disposition(true, true, Some(1063), String::new()) {
        Err(OrchestratorError::ServiceControllerNotPresent()) => {}
        other => panic!("unexpected disposition: {:?}", other.is_ok()),
    }
    // Any other platform error code is tolerated.
    assert!(service_start_disposition(true, true, Some(5), String::new()).is_ok());
    match service_start_disposition(true, false, None, "boom".to_string()) {
        Err(OrchestratorError::ServiceStartFailed(m)) => assert_eq!(m, "boom"),
        _ => panic!("expected a service start failure"),
    }
}

#[test]
fn loading_a_spec_twice_replaces_it() {
    let mut pump = EventPump::new();
    let out = pump.on_process_config_loaded(bare_config("A"));
    assert_eq!(out.events, vec![Event::ProcessRequestStart("A".to_string())]);
    let mut replacement = bare_config("A");
    replacement.executable = "newer.exe".to_string();
    pump.on_process_config_loaded(replacement);
    assert_eq!(pump.configs.len(), 1);
    assert_eq!(pump.configs[0].executable, "newer.exe");
}

#[test]
fn no_start_request_is_issued_while_stopping() {
    let mut pump = EventPump::new();
    pump.on_orchestrator_request_stop();
    let out = pump.on_process_config_loaded(bare_config("A"));
    assert!(out.events.is_empty());
    let out = pump.on_process_start("A".to_string());
    assert!(out.actions.is_empty());
    assert!(pump.pending_spawn.is_none());
}

#[test]
fn cloning_a_spec_preserves_every_field() {
    let mut c = bare_config("A");
    c.arguments = Some(vec!["x".to_string()]);
    c.working_directory = Some("/srv".to_string());
    c.log_file = Some("a.log".to_string());
    c.stop_method = Some(StatefulProcessStopMethod::CtrlC);
    c.environment_variables = Some(vec![("K".to_string(), "V".to_string())]);
    c.recycle_on_memory_kib = Some(1);
    c.recycle_on_duration_millis = Some(2);
    assert_eq!(c.clone(), c);
}
