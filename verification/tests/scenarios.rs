// End-to-end scenarios: the engine driven over a queue by a fake OS adapter.

use std::collections::VecDeque;

use process_orchestrator::event_pump::{Dispatch, EngineOutput, Event, EventPump, OsAction};
use process_orchestrator::stateful_process::{
    PollSample, StatefulProcessConfig, StatefulProcessStopMethod,
};

fn spec(name: &str) -> StatefulProcessConfig {
    StatefulProcessConfig {
        name: name.to_string(),
        executable: format!("{}.exe", name),
        arguments: None,
        working_directory: None,
        log_file: None,
        stop_method: None,
        environment_variables: None,
        recycle_on_memory_kib: None,
        recycle_on_duration_millis: None,
    }
}

struct FakeChild {
    id: String,
    pid: u64,
    running: bool,
    memory_kib: Option<u64>,
    uptime_millis: Option<u64>,
}

struct Harness {
    pump: EventPump,
    queue: VecDeque<Event>,
    loader_result: Vec<StatefulProcessConfig>,
    children: Vec<FakeChild>,
    next_pid: u64,
    fail_next_spawn: bool,
    spawned: Vec<(String, String)>,
    ctrl_c_signals: Vec<u64>,
    terminations: Vec<String>,
    unregistered: Vec<String>,
    closed_processes: Vec<String>,
    closed_log_files: Vec<String>,
    trace: Vec<String>,
}

fn render(event: &Event) -> String {
    match event {
        Event::OrchestratorStarting() => "Starting".to_string(),
        Event::OrchestratorTick() => "Tick".to_string(),
        Event::OrchestratorRequestStop() => "RequestStop".to_string(),
        Event::OrchestratorStopping() => "Stopping".to_string(),
        Event::ProcessConfigLoaded(c) => format!("ConfigLoaded({})", c.name),
        Event::ProcessRequestStart(n) => format!("RequestStart({})", n),
        Event::ProcessRequestPoll(id) => format!("RequestPoll({})", id),
        Event::ProcessRequestStop(id) => format!("RequestStopProcess({})", id),
        Event::ProcessStopped(id) => format!("ProcessStopped({})", id),
    }
}

impl Harness {
    fn new(loader_result: Vec<StatefulProcessConfig>) -> Self {
        let pump = EventPump::new();
        let mut queue = VecDeque::new();
        queue.push_back(Event::OrchestratorStarting());
        Harness {
            pump,
            queue,
            loader_result,
            children: Vec::new(),
            next_pid: 100,
            fail_next_spawn: false,
            spawned: Vec::new(),
            ctrl_c_signals: Vec::new(),
            terminations: Vec::new(),
            unregistered: Vec::new(),
            closed_processes: Vec::new(),
            closed_log_files: Vec::new(),
            trace: Vec::new(),
        }
    }

    fn child_mut(&mut self, id: &str) -> Option<&mut FakeChild> {
        self.children.iter_mut().find(|c| c.id == id)
    }

    fn sample_for(&self, id: &str) -> PollSample {
        match self.children.iter().find(|c| c.id == id) {
            None => PollSample { is_running: false, memory_usage_kib: None, uptime_millis: None },
            Some(c) => PollSample {
                is_running: c.running,
                memory_usage_kib: c.memory_kib,
                uptime_millis: c.uptime_millis,
            },
        }
    }

    // The fake exit notifier: the one-shot callback enqueues a poll request
    // for the exited child.
    fn fire_exit_notifier(&mut self, id: &str) {
        self.queue.push_back(Event::ProcessRequestPoll(id.to_string()));
    }

    fn exit_child(&mut self, id: &str) {
        if let Some(c) = self.child_mut(id) {
            c.running = false;
        }
        self.fire_exit_notifier(id);
    }

    fn apply(&mut self, out: EngineOutput) {
        for e in out.events {
            self.queue.push_back(e);
        }
        for a in out.actions {
            self.perform(a);
        }
    }

    fn perform(&mut self, action: OsAction) {
        match action {
            OsAction::InstallStopHandler() => {}
            OsAction::StartTickSource() => {}
            OsAction::Spawn(id, config) => {
                if self.fail_next_spawn {
                    self.fail_next_spawn = false;
                    let out = self.pump.on_spawn_result(None);
                    self.apply(out);
                } else {
                    let pid = self.next_pid;
                    self.next_pid += 1;
                    self.children.push(FakeChild {
                        id: id.clone(),
                        pid,
                        running: true,
                        memory_kib: None,
                        uptime_millis: None,
                    });
                    self.spawned.push((id, config.name.clone()));
                    let out = self.pump.on_spawn_result(Some(pid));
                    self.apply(out);
                }
            }
            OsAction::SignalCtrlC(pid) => {
                self.ctrl_c_signals.push(pid);
                let exited: Vec<String> = self
                    .children
                    .iter()
                    .filter(|c| c.pid == pid && c.running)
                    .map(|c| c.id.clone())
                    .collect();
                for id in exited {
                    self.exit_child(&id);
                }
            }
            OsAction::Terminate(id) => {
                self.terminations.push(id.clone());
                self.exit_child(&id);
            }
            OsAction::UnregisterExitWait(id) => self.unregistered.push(id),
            OsAction::CloseProcessHandle(id) => self.closed_processes.push(id),
            OsAction::CloseLogFile(id) => self.closed_log_files.push(id),
        }
    }

    fn step(&mut self) -> bool {
        if self.pump.is_stopped {
            return false;
        }
        let event = match self.queue.pop_front() {
            None => return false,
            Some(e) => e,
        };
        self.trace.push(render(&event));
        match self.pump.process_message(event) {
            Dispatch::Handled(out) => self.apply(out),
            Dispatch::NeedsLoadedConfigs => {
                let loaded: Vec<StatefulProcessConfig> =
                    self.loader_result.iter().map(|c| c.clone()).collect();
                let out = self.pump.on_orchestrator_starting(loaded);
                self.apply(out);
            }
            Dispatch::NeedsTickSamples => {
                let samples: Vec<(String, PollSample)> = self
                    .pump
                    .processes
                    .iter()
                    .map(|p| (p.id.clone(), self.sample_for(&p.id)))
                    .collect();
                let out = self.pump.on_orchestrator_tick(&samples);
                self.apply(out);
            }
            Dispatch::NeedsPollSample(id) => {
                let sample = self.sample_for(&id);
                let out = self.pump.on_request_process_poll(id, sample);
                self.apply(out);
            }
        }
        true
    }

    fn run_until_idle(&mut self) {
        let mut guard = 0;
        while self.step() {
            guard += 1;
            assert!(guard < 10_000, "engine loop did not quiesce");
        }
    }

    fn live_ids(&self) -> Vec<String> {
        self.pump.processes.iter().map(|p| p.id.clone()).collect()
    }
}

#[test]
fn cold_start_two_specs_clean_shutdown() {
    let mut h = Harness::new(vec![spec("A"), spec("B")]);
    h.run_until_idle();
    assert_eq!(
        h.trace,
        vec![
            "Starting",
            "ConfigLoaded(A)",
            "ConfigLoaded(B)",
            "RequestStart(A)",
            "RequestStart(B)"
        ]
    );
    assert_eq!(h.pump.processes.len(), 2);
    let id_a = h.pump.processes[0].id.clone();
    let id_b = h.pump.processes[1].id.clone();
    assert!(id_a.starts_with("A-"));
    assert!(id_b.starts_with("B-"));

    h.queue.push_back(Event::OrchestratorRequestStop());
    h.run_until_idle();
    let expected_tail = vec![
        "RequestStop".to_string(),
        format!("RequestStopProcess({})", id_a),
        format!("RequestStopProcess({})", id_b),
        format!("RequestPoll({})", id_a),
        format!("RequestPoll({})", id_b),
        format!("ProcessStopped({})", id_a),
        format!("ProcessStopped({})", id_b),
        "Stopping".to_string(),
    ];
    assert_eq!(h.trace[5..], expected_tail[..]);
    assert!(h.pump.processes.is_empty());
    assert!(h.pump.is_stopped);
    // Each child's resources were released exactly once.
    assert_eq!(h.unregistered, vec![id_a.clone(), id_b.clone()]);
    assert_eq!(h.closed_processes, vec![id_a, id_b]);
}

#[test]
fn crash_restart_draws_new_id() {
    let mut h = Harness::new(vec![spec("A")]);
    h.run_until_idle();
    assert_eq!(h.pump.processes.len(), 1);
    let first_id = h.pump.processes[0].id.clone();

    // The child crashes: the fake adapter fires the exit notifier
    // unsolicited.
    h.exit_child(&first_id);
    h.run_until_idle();

    let expected_tail = vec![
        format!("RequestPoll({})", first_id),
        format!("ProcessStopped({})", first_id),
        "RequestStart(A)".to_string(),
    ];
    assert_eq!(h.trace[h.trace.len() - 3..], expected_tail[..]);
    assert_eq!(h.pump.processes.len(), 1);
    let second_id = h.pump.processes[0].id.clone();
    assert_ne!(second_id, first_id);
    assert!(second_id.starts_with("A-"));
}

#[test]
fn memory_recycle_fires_strictly_above_threshold() {
    let mut config = spec("A");
    // 100 mebibytes.
    config.recycle_on_memory_kib = Some(102_400);
    let mut h = Harness::new(vec![config]);
    h.run_until_idle();
    let first_id = h.pump.processes[0].id.clone();

    // Tick N: just below the threshold — no recycle.
    h.child_mut(&first_id).unwrap().memory_kib = Some(102_297);
    h.queue.push_back(Event::OrchestratorTick());
    h.run_until_idle();
    assert_eq!(h.live_ids(), vec![first_id.clone()]);
    assert!(h.terminations.is_empty());

    // Tick N+1: above the threshold — stop, reap, restart under a new id.
    h.child_mut(&first_id).unwrap().memory_kib = Some(102_502);
    h.queue.push_back(Event::OrchestratorTick());
    h.run_until_idle();
    assert_eq!(h.terminations, vec![first_id.clone()]);
    assert_eq!(h.pump.processes.len(), 1);
    let second_id = h.pump.processes[0].id.clone();
    assert_ne!(second_id, first_id);
}

#[test]
fn duration_recycle_fires_on_tick_six() {
    let mut config = spec("A");
    // Five seconds.
    config.recycle_on_duration_millis = Some(5_000);
    let mut h = Harness::new(vec![config]);
    h.run_until_idle();
    let first_id = h.pump.processes[0].id.clone();

    // Ticks 1..=5 report uptimes up to exactly the threshold: no recycle.
    for tick in 1..=5u64 {
        h.child_mut(&first_id).unwrap().uptime_millis = Some(tick * 1_000);
        h.queue.push_back(Event::OrchestratorTick());
        h.run_until_idle();
        assert_eq!(h.live_ids(), vec![first_id.clone()], "tick {}", tick);
    }

    // Tick 6 crosses 5.0 seconds strictly: recycle fires now.
    h.child_mut(&first_id).unwrap().uptime_millis = Some(6_000);
    h.queue.push_back(Event::OrchestratorTick());
    h.run_until_idle();
    assert_eq!(h.terminations, vec![first_id.clone()]);
    assert_eq!(h.pump.processes.len(), 1);
    assert_ne!(h.pump.processes[0].id, first_id);
}

#[test]
fn graceful_stop_signals_interrupt_only() {
    let mut config = spec("A");
    config.stop_method = Some(StatefulProcessStopMethod::CtrlC);
    let mut h = Harness::new(vec![config]);
    h.run_until_idle();
    let pid = h.pump.processes[0].pid.unwrap();

    h.queue.push_back(Event::OrchestratorRequestStop());
    h.run_until_idle();
    assert_eq!(h.ctrl_c_signals, vec![pid]);
    assert!(h.terminations.is_empty());
    assert!(h.pump.is_stopped);
}

#[test]
fn forcible_stop_terminates_only() {
    let mut config = spec("A");
    config.stop_method = Some(StatefulProcessStopMethod::Terminate);
    let mut h = Harness::new(vec![config]);
    h.run_until_idle();
    let id = h.pump.processes[0].id.clone();

    h.queue.push_back(Event::OrchestratorRequestStop());
    h.run_until_idle();
    assert_eq!(h.terminations, vec![id]);
    assert!(h.ctrl_c_signals.is_empty());
    assert!(h.pump.is_stopped);
}

#[test]
fn shutdown_before_any_start_is_processed() {
    let mut h = Harness::new(vec![spec("A"), spec("B")]);
    // Process Starting and both ConfigLoaded events, no further.
    for _ in 0..3 {
        assert!(h.step());
    }
    assert_eq!(
        h.queue.iter().map(render).collect::<Vec<_>>(),
        vec!["RequestStart(A)", "RequestStart(B)"]
    );
    // The control source injects the stop request ahead of the pending
    // start requests.
    h.queue.push_front(Event::OrchestratorRequestStop());
    h.run_until_idle();

    // The stop latched with nothing live, so Stopping was enqueued at once;
    // the pending start requests were skipped; nothing was ever spawned and
    // no start request was enqueued after the latch.
    assert_eq!(
        h.trace[3..],
        vec![
            "RequestStop".to_string(),
            "RequestStart(A)".to_string(),
            "RequestStart(B)".to_string(),
            "Stopping".to_string()
        ][..]
    );
    assert!(h.spawned.is_empty());
    assert!(h.pump.processes.is_empty());
    assert!(h.pump.is_stopped);
    assert!(h.queue.is_empty());
}

#[test]
fn second_stop_request_is_idempotent() {
    let mut h = Harness::new(vec![spec("A")]);
    h.run_until_idle();
    let id = h.pump.processes[0].id.clone();

    // First request latches and begins the drain; process only that event.
    h.queue.push_back(Event::OrchestratorRequestStop());
    assert!(h.step());
    assert!(h.pump.is_stop_requested);
    assert_eq!(
        h.queue.iter().map(render).collect::<Vec<_>>(),
        vec![format!("RequestStopProcess({})", id)]
    );

    // A second request while the drain is under way enqueues nothing more.
    let before: Vec<String> = h.queue.iter().map(render).collect();
    h.queue.push_front(Event::OrchestratorRequestStop());
    assert!(h.step());
    let after: Vec<String> = h.queue.iter().map(render).collect();
    assert_eq!(before, after);
    assert_eq!(h.pump.processes.len(), 1);

    h.run_until_idle();
    assert!(h.pump.is_stopped);
    assert!(h.pump.processes.is_empty());
}

#[test]
fn spawn_failure_leaves_spec_dormant_until_next_start() {
    let mut h = Harness::new(vec![spec("A")]);
    h.fail_next_spawn = true;
    h.run_until_idle();
    // The spawn failed: no handle was inserted, nothing was recorded as
    // spawned, and the engine is idle rather than crashed.
    assert!(h.pump.processes.is_empty());
    assert!(h.spawned.is_empty());
    assert!(!h.pump.is_stopped);

    // A later start request for the same spec tries again.
    h.queue.push_back(Event::ProcessRequestStart("A".to_string()));
    h.run_until_idle();
    assert_eq!(h.pump.processes.len(), 1);
}

#[test]
fn duplicate_start_request_keeps_one_live_handle() {
    let mut h = Harness::new(vec![spec("A")]);
    h.run_until_idle();
    assert_eq!(h.pump.processes.len(), 1);
    let id = h.pump.processes[0].id.clone();

    // A redundant start request for a spec that already has a live handle
    // spawns nothing.
    h.queue.push_back(Event::ProcessRequestStart("A".to_string()));
    h.run_until_idle();
    assert_eq!(h.live_ids(), vec![id]);
    assert_eq!(h.spawned.len(), 1);
}

#[test]
fn stale_events_for_unknown_ids_are_ignored() {
    let mut h = Harness::new(vec![spec("A")]);
    h.run_until_idle();
    let live_before = h.live_ids();
    h.queue.push_back(Event::ProcessRequestPoll("A-zzzzz".to_string()));
    h.queue.push_back(Event::ProcessRequestStop("A-zzzzz".to_string()));
    h.queue.push_back(Event::ProcessStopped("A-zzzzz".to_string()));
    h.run_until_idle();
    assert_eq!(h.live_ids(), live_before);
    assert!(h.terminations.is_empty());
    assert!(h.unregistered.is_empty());
}

#[test]
fn log_file_handle_released_on_reap() {
    let mut config = spec("A");
    config.log_file = Some("a.log".to_string());
    let mut h = Harness::new(vec![config]);
    h.run_until_idle();
    let id = h.pump.processes[0].id.clone();
    assert!(h.pump.processes[0].has_log_file_handle);

    h.queue.push_back(Event::OrchestratorRequestStop());
    h.run_until_idle();
    assert_eq!(h.unregistered, vec![id.clone()]);
    assert_eq!(h.closed_processes, vec![id.clone()]);
    assert_eq!(h.closed_log_files, vec![id]);
}
