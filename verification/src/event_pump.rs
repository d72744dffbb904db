use vstd::prelude::*;

use crate::stateful_process::{
    PollSample, StatefulProcess, StatefulProcessConfig, lemma_id_determines_name, polled,
    recycle_required, release_actions, spawn_completed, stop_action,
};

verus! {

/// The engine's event alphabet. Producers (the tick source, the exit
/// notifier, the control source, and the engine itself) enqueue these; the
/// engine consumes them one at a time, so every state mutation is serialized.
#[derive(Debug, PartialEq)]
pub enum Event {
    /// Seed event: engine initialization.
    OrchestratorStarting(),
    /// Periodic poll trigger.
    OrchestratorTick(),
    /// Begin shutdown.
    OrchestratorRequestStop(),
    /// Shutdown complete; terminal.
    OrchestratorStopping(),
    /// A spec is available; the engine should start it.
    ProcessConfigLoaded(StatefulProcessConfig),
    /// Spawn the child for the named spec.
    ProcessRequestStart(String),
    /// Reevaluate the live handle with this id.
    ProcessRequestPoll(String),
    /// Stop the live handle with this id.
    ProcessRequestStop(String),
    /// The live handle with this id has exited and may be reaped.
    ProcessStopped(String),
}

/// An operation the engine asks the host to perform against the operating
/// system. The engine never touches the platform itself; it emits these, and
/// the host owns the corresponding OS resources, keyed by handle id.
#[derive(Debug, PartialEq)]
pub enum OsAction {
    /// Install the interactive-interrupt handler; on interrupt it enqueues
    /// `OrchestratorRequestStop`.
    InstallStopHandler(),
    /// Start the 1 Hz producer of `OrchestratorTick`.
    StartTickSource(),
    /// Spawn a child for the given spec under the given handle id, redirect
    /// its output per the spec, and register the one-shot exit wait; then
    /// report the outcome through `EventPump::on_spawn_result`.
    Spawn(String, StatefulProcessConfig),
    /// Deliver the platform's polite interrupt to the given OS process id.
    SignalCtrlC(u64),
    /// Forcibly terminate the child of the given handle id. The handle is
    /// reaped only once the exit notification arrives.
    Terminate(String),
    /// Unregister the one-shot exit wait of the given handle id. Performed
    /// before the handle's resources are released.
    UnregisterExitWait(String),
    /// Close the OS process handle of the given handle id.
    CloseProcessHandle(String),
    /// Close the log-file handle of the given handle id.
    CloseLogFile(String),
}

/// What one processed event produces: events the host must enqueue back onto
/// the engine's own queue, in order, and OS operations the host must perform,
/// in order.
#[derive(Debug)]
pub struct EngineOutput {
    pub events: Vec<Event>,
    pub actions: Vec<OsAction>,
}

/// No start request stands among these events.
pub open spec fn no_request_start_events(events: Seq<Event>) -> bool {
    forall|k: int| 0 <= k < events.len() ==> !(#[trigger] events[k] is ProcessRequestStart)
}

/// Some `OrchestratorStopping` stands among these events.
pub open spec fn contains_orchestrator_stopping(events: Seq<Event>) -> bool {
    exists|k: int| 0 <= k < events.len() && #[trigger] events[k] is OrchestratorStopping
}

/// The supervisor engine: the single consumer of the event queue. It owns
/// the loaded specs and the live handles; all mutation happens in its
/// per-event handlers.
#[derive(Debug)]
pub struct EventPump {
    /// The loaded specs; names pairwise distinct.
    pub configs: Vec<StatefulProcessConfig>,
    /// The live handles; at most one per spec name.
    pub processes: Vec<StatefulProcess>,
    /// The handle prepared by the latest start decision, awaiting the host's
    /// spawn outcome. Inserted into the live set only on success.
    pub pending_spawn: Option<StatefulProcess>,
    /// Latched by the first stop request; never resets.
    pub is_stop_requested: bool,
    /// Set by `OrchestratorStopping`; the host's loop exits when it sees it.
    pub is_stopped: bool,
}

impl EventPump {
    /// Engine-state invariant: every handle well formed, at most one live
    /// handle per spec name, spec names distinct, and a pending handle (if
    /// any) not yet attached to an OS process.
    pub open spec fn inv(self) -> bool {
        &&& forall|i: int|
            0 <= i < self.processes@.len() ==> (#[trigger] self.processes@[i]).wf()
        &&& forall|i: int, j: int|
            0 <= i < j < self.processes@.len() ==> (#[trigger] self.processes@[i]).config.name@
                != (#[trigger] self.processes@[j]).config.name@
        &&& forall|i: int, j: int|
            0 <= i < j < self.configs@.len() ==> (#[trigger] self.configs@[i]).name@
                != (#[trigger] self.configs@[j]).name@
        &&& self.pending_spawn matches Some(p) ==> p.wf() && !p.has_os_process
    }

    /// A spec with this name is loaded.
    pub open spec fn has_config(self, name: Seq<char>) -> bool {
        exists|i: int| 0 <= i < self.configs@.len() && (#[trigger] self.configs@[i]).name@ == name
    }

    /// The index of the loaded spec with this name (unique under `inv`).
    pub open spec fn config_index(self, name: Seq<char>) -> int {
        choose|i: int| 0 <= i < self.configs@.len() && (#[trigger] self.configs@[i]).name@ == name
    }

    /// Some live handle supervises the spec with this name.
    pub open spec fn has_live(self, name: Seq<char>) -> bool {
        exists|i: int|
            0 <= i < self.processes@.len() && (#[trigger] self.processes@[i]).config.name@ == name
    }

    /// Some live handle carries this id.
    pub open spec fn has_live_id(self, id: Seq<char>) -> bool {
        exists|i: int| 0 <= i < self.processes@.len() && (#[trigger] self.processes@[i]).id@ == id
    }

    /// The index of the live handle with this id (unique under `inv`).
    pub open spec fn live_index(self, id: Seq<char>) -> int {
        choose|i: int| 0 <= i < self.processes@.len() && (#[trigger] self.processes@[i]).id@ == id
    }
}

/// Under the invariant, live handles carry pairwise distinct ids: an id
/// embeds its spec's name, and at most one live handle exists per name.
pub proof fn lemma_live_ids_distinct(pump: EventPump, i: int, j: int)
    requires
        pump.inv(),
        0 <= i < pump.processes@.len(),
        0 <= j < pump.processes@.len(),
        pump.processes@[i].id@ == pump.processes@[j].id@,
    ensures
        i == j,
{
    if i != j {
        lemma_id_determines_name(
            pump.processes@[i].id@,
            pump.processes@[i].config.name@,
            pump.processes@[j].config.name@,
        );
    }
}

impl EventPump {
    /// A fresh engine: nothing loaded, nothing live, no shutdown in
    /// progress. The host seeds the queue with `OrchestratorStarting`.
    pub fn new() -> (r: Self)
        ensures
            r.inv(),
            r.configs@.len() == 0,
            r.processes@.len() == 0,
            r.pending_spawn is None,
            !r.is_stop_requested,
            !r.is_stopped,
    {
        EventPump {
            configs: Vec::new(),
            processes: Vec::new(),
            pending_spawn: Option::None,
            is_stop_requested: false,
            is_stopped: false,
        }
    }

    /// First index of the loaded spec with this name.
    fn find_config_index(&self, name: &String) -> (r: Option<usize>)
        ensures
            match r {
                Some(i) => i < self.configs@.len() && self.configs@[i as int].name@ == name@,
                None => !self.has_config(name@),
            },
    {
        let mut i: usize = 0;
        while i < self.configs.len()
            invariant
                i <= self.configs@.len(),
                forall|k: int| 0 <= k < i ==> (#[trigger] self.configs@[k]).name@ != name@,
            decreases self.configs@.len() - i,
        {
            if self.configs[i].name == *name {
                return Some(i);
            }
            i = i + 1;
        }
        None
    }

    /// First index of the live handle with this id.
    fn find_process_by_process_id(&self, id: &String) -> (r: Option<usize>)
        ensures
            match r {
                Some(i) => i < self.processes@.len() && self.processes@[i as int].id@ == id@,
                None => !self.has_live_id(id@),
            },
    {
        let mut i: usize = 0;
        while i < self.processes.len()
            invariant
                i <= self.processes@.len(),
                forall|k: int| 0 <= k < i ==> (#[trigger] self.processes@[k]).id@ != id@,
            decreases self.processes@.len() - i,
        {
            if self.processes[i].id == *id {
                return Some(i);
            }
            i = i + 1;
        }
        None
    }

    /// First observation among `samples` addressed to handle id `id`.
    fn find_sample_for(samples: &Vec<(String, PollSample)>, id: &String) -> (r: Option<PollSample>)
        ensures
            r == find_sample(samples@, id@),
    {
        let mut j: usize = 0;
        while j < samples.len()
            invariant
                j <= samples@.len(),
                forall|k: int| 0 <= k < j ==> (#[trigger] samples@[k]).0@ != id@,
            decreases samples@.len() - j,
        {
            if samples[j].0 == *id {
                proof {
                    lemma_find_sample_skip(samples@, id@, j as int);
                    assert(samples@.skip(j as int)[0] == samples@[j as int]);
                }
                return Option::Some(samples[j].1);
            }
            j = j + 1;
        }
        proof {
            lemma_find_sample_skip(samples@, id@, samples@.len() as int);
        }
        Option::None
    }

    /// Whether some live handle supervises this spec name.
    fn has_live_handle_for(&self, name: &String) -> (b: bool)
        ensures
            b == self.has_live(name@),
    {
        let mut i: usize = 0;
        while i < self.processes.len()
            invariant
                i <= self.processes@.len(),
                forall|k: int| 0 <= k < i ==> (#[trigger] self.processes@[k]).config.name@ != name@,
            decreases self.processes@.len() - i,
        {
            if self.processes[i].config.name == *name {
                return true;
            }
            i = i + 1;
        }
        false
    }
}

/// Transition for `OrchestratorStarting`: the engine asks the host to
/// install the interrupt handler and start the tick source, and turns every
/// loaded spec into a `ProcessConfigLoaded` event, in load order. The state
/// does not change; specs are stored one by one as their events arrive.
pub open spec fn starting_transition(
    pre: EventPump,
    post: EventPump,
    loaded: Seq<StatefulProcessConfig>,
    events: Seq<Event>,
    actions: Seq<OsAction>,
) -> bool {
    &&& post == pre
    &&& events == loaded.map_values(|c: StatefulProcessConfig| Event::ProcessConfigLoaded(c))
    &&& actions == seq![OsAction::InstallStopHandler(), OsAction::StartTickSource()]
}

/// Transition for `ProcessConfigLoaded`: the spec is stored (replacing a
/// previously loaded spec of the same name), and — unless shutdown is in
/// progress — a start request for it is enqueued.
pub open spec fn config_loaded_transition(
    pre: EventPump,
    post: EventPump,
    config: StatefulProcessConfig,
    events: Seq<Event>,
    actions: Seq<OsAction>,
) -> bool {
    &&& post.processes == pre.processes
    &&& post.pending_spawn == pre.pending_spawn
    &&& post.is_stop_requested == pre.is_stop_requested
    &&& post.is_stopped == pre.is_stopped
    &&& if pre.has_config(config.name@) {
        post.configs@ == pre.configs@.update(pre.config_index(config.name@), config)
    } else {
        post.configs@ == pre.configs@.push(config)
    }
    &&& events == if pre.is_stop_requested {
        Seq::<Event>::empty()
    } else {
        seq![Event::ProcessRequestStart(config.name)]
    }
    &&& actions == Seq::<OsAction>::empty()
}

/// Transition for `ProcessRequestStart`: when the name is loaded, nothing
/// live supervises it, and shutdown is not in progress, a fresh handle is
/// prepared and the host is asked to spawn it; otherwise nothing happens.
/// The handle becomes live only once the host reports spawn success.
pub open spec fn start_transition(
    pre: EventPump,
    post: EventPump,
    name: Seq<char>,
    events: Seq<Event>,
    actions: Seq<OsAction>,
) -> bool {
    &&& post.configs == pre.configs
    &&& post.processes == pre.processes
    &&& post.is_stop_requested == pre.is_stop_requested
    &&& post.is_stopped == pre.is_stopped
    &&& events == Seq::<Event>::empty()
    &&& if !pre.is_stop_requested && pre.has_config(name) && !pre.has_live(name) {
        &&& post.pending_spawn matches Some(p)
        &&& p.wf()
        &&& !p.has_os_process
        &&& p.config@ == pre.configs@[pre.config_index(name)]@
        &&& p.config.name@ == name
        &&& actions.len() == 1
        &&& (actions[0] matches OsAction::Spawn(id, cfg) && id@ == p.id@ && cfg@ == p.config@)
    } else {
        &&& post.pending_spawn is None
        &&& actions == Seq::<OsAction>::empty()
    }
}

/// Transition for the host's spawn report: on success the prepared handle,
/// now attached to its OS process, joins the live set — unless a live handle
/// for the same spec appeared meanwhile. On failure the prepared handle is
/// discarded and nothing is inserted; a later stop event for the spec's name
/// drives the retry.
pub open spec fn spawn_result_transition(
    pre: EventPump,
    post: EventPump,
    pid: Option<u64>,
    events: Seq<Event>,
    actions: Seq<OsAction>,
) -> bool {
    &&& post.configs == pre.configs
    &&& post.pending_spawn is None
    &&& post.is_stop_requested == pre.is_stop_requested
    &&& post.is_stopped == pre.is_stopped
    &&& events == Seq::<Event>::empty()
    &&& actions == Seq::<OsAction>::empty()
    &&& match (pre.pending_spawn, pid) {
        (Some(p), Some(d)) => if !pre.has_live(p.config.name@) {
            post.processes@ == pre.processes@.push(spawn_completed(p, d))
        } else {
            post.processes == pre.processes
        },
        _ => post.processes == pre.processes,
    }
}

/// Transition for `ProcessRequestStop`: the configured stop operation is
/// dispatched for the addressed live handle. Engine state does not change;
/// removal of the handle awaits `ProcessStopped`.
pub open spec fn stop_one_transition(
    pre: EventPump,
    post: EventPump,
    id: Seq<char>,
    events: Seq<Event>,
    actions: Seq<OsAction>,
) -> bool {
    &&& post == pre
    &&& events == Seq::<Event>::empty()
    &&& if pre.has_live_id(id) {
        actions == match stop_action(pre.processes@[pre.live_index(id)]) {
            Option::None => Seq::<OsAction>::empty(),
            Option::Some(a) => seq![a],
        }
    } else {
        actions == Seq::<OsAction>::empty()
    }
}

/// Transition for `ProcessRequestPoll`: the addressed handle records the
/// observation; if the child is no longer running, its reap is enqueued; if
/// it runs but the recycle policy fires on the fresh metrics, a stop request
/// is enqueued.
pub open spec fn poll_transition(
    pre: EventPump,
    post: EventPump,
    id: Seq<char>,
    sample: PollSample,
    events: Seq<Event>,
    actions: Seq<OsAction>,
) -> bool {
    &&& post.configs == pre.configs
    &&& post.pending_spawn == pre.pending_spawn
    &&& post.is_stop_requested == pre.is_stop_requested
    &&& post.is_stopped == pre.is_stopped
    &&& actions == Seq::<OsAction>::empty()
    &&& if pre.has_live_id(id) {
        let i = pre.live_index(id);
        let after = polled(pre.processes@[i], sample);
        &&& post.processes@ == pre.processes@.update(i, after)
        &&& if !(pre.processes@[i].has_os_process && sample.is_running) {
            events.len() == 1 && (events[0] matches Event::ProcessStopped(e) && e@ == id)
        } else if recycle_required(after) {
            events.len() == 1 && (events[0] matches Event::ProcessRequestStop(e) && e@ == id)
        } else {
            events == Seq::<Event>::empty()
        }
    } else {
        &&& post.processes == pre.processes
        &&& events == Seq::<Event>::empty()
    }
}

/// The first observation among `samples` addressed to the handle id `id`,
/// if any.
pub open spec fn find_sample(samples: Seq<(String, PollSample)>, id: Seq<char>) -> Option<
    PollSample,
>
    decreases samples.len(),
{
    if samples.len() == 0 {
        Option::None
    } else if samples[0].0@ == id {
        Option::Some(samples[0].1)
    } else {
        find_sample(samples.drop_first(), id)
    }
}

/// Skipping a prefix in which no observation addresses `id` does not change
/// which observation is found.
pub proof fn lemma_find_sample_skip(samples: Seq<(String, PollSample)>, id: Seq<char>, n: int)
    requires
        0 <= n <= samples.len(),
        forall|k: int| 0 <= k < n ==> (#[trigger] samples[k]).0@ != id,
    ensures
        find_sample(samples, id) == find_sample(samples.skip(n), id),
    decreases n,
{
    if n > 0 {
        assert(samples.skip(0) =~= samples);
        lemma_find_sample_skip(samples.drop_first(), id, n - 1);
        assert(samples.drop_first().skip(n - 1) =~= samples.skip(n));
    } else {
        assert(samples.skip(0) =~= samples);
    }
}

/// The handle after a tick delivered these observations: the one addressed
/// to it is recorded; a handle no observation addresses is untouched.
pub open spec fn tick_polled(
    p: StatefulProcess,
    samples: Seq<(String, PollSample)>,
) -> StatefulProcess {
    match find_sample(samples, p.id@) {
        Option::None => p,
        Option::Some(s) => polled(p, s),
    }
}

/// The stop requests a tick enqueues: one per live handle whose fresh
/// metrics exceed a recycle threshold, in live-set order.
pub open spec fn recycle_stop_events(ps: Seq<StatefulProcess>) -> Seq<Event>
    decreases ps.len(),
{
    if ps.len() == 0 {
        Seq::<Event>::empty()
    } else {
        let rest = recycle_stop_events(ps.drop_last());
        if recycle_required(ps.last()) {
            rest.push(Event::ProcessRequestStop(ps.last().id))
        } else {
            rest
        }
    }
}

/// A tick enqueues nothing but stop requests.
pub proof fn lemma_recycle_stop_events_only_stops(ps: Seq<StatefulProcess>)
    ensures
        forall|k: int|
            0 <= k < recycle_stop_events(ps).len() ==> (#[trigger] recycle_stop_events(ps)[k])
                is ProcessRequestStop,
    decreases ps.len(),
{
    if ps.len() > 0 {
        lemma_recycle_stop_events_only_stops(ps.drop_last());
    }
}

/// Transition for `OrchestratorTick`: every live handle records the
/// observation addressed to it, and then — against the freshly updated
/// metrics of the whole live set — one stop request is enqueued per handle
/// the recycle policy fires on. Poll and decision are two passes, so every
/// decision sees fresh metrics.
pub open spec fn tick_transition(
    pre: EventPump,
    post: EventPump,
    samples: Seq<(String, PollSample)>,
    events: Seq<Event>,
    actions: Seq<OsAction>,
) -> bool {
    &&& post.configs == pre.configs
    &&& post.pending_spawn == pre.pending_spawn
    &&& post.is_stop_requested == pre.is_stop_requested
    &&& post.is_stopped == pre.is_stopped
    &&& post.processes@.len() == pre.processes@.len()
    &&& forall|i: int|
        0 <= i < pre.processes@.len() ==> post.processes@[i] == tick_polled(
            #[trigger] pre.processes@[i],
            samples,
        )
    &&& events == recycle_stop_events(post.processes@)
    &&& actions == Seq::<OsAction>::empty()
}

/// Transition for `ProcessStopped`: the addressed handle leaves the live set
/// and its OS resources are released, exactly once. Then: with shutdown not
/// in progress, exactly one restart request for its spec is enqueued; with
/// shutdown in progress, `OrchestratorStopping` is enqueued exactly when the
/// last live handle just left.
pub open spec fn stopped_transition(
    pre: EventPump,
    post: EventPump,
    id: Seq<char>,
    events: Seq<Event>,
    actions: Seq<OsAction>,
) -> bool {
    &&& post.configs == pre.configs
    &&& post.pending_spawn == pre.pending_spawn
    &&& post.is_stop_requested == pre.is_stop_requested
    &&& post.is_stopped == pre.is_stopped
    &&& if pre.has_live_id(id) {
        let i = pre.live_index(id);
        let p = pre.processes@[i];
        &&& post.processes@ == pre.processes@.remove(i)
        &&& actions == release_actions(p)
        &&& events == if !pre.is_stop_requested {
            seq![Event::ProcessRequestStart(p.config.name)]
        } else if post.processes@.len() == 0 {
            seq![Event::OrchestratorStopping()]
        } else {
            Seq::<Event>::empty()
        }
    } else {
        &&& post.processes == pre.processes
        &&& events == Seq::<Event>::empty()
        &&& actions == Seq::<OsAction>::empty()
    }
}

/// Transition for `OrchestratorRequestStop`: the first request latches the
/// stop flag and begins the drain — one stop request per live handle, or
/// `OrchestratorStopping` at once when nothing is live. A repeated request
/// changes nothing and enqueues nothing.
pub open spec fn stop_requested_transition(
    pre: EventPump,
    post: EventPump,
    events: Seq<Event>,
    actions: Seq<OsAction>,
) -> bool {
    &&& actions == Seq::<OsAction>::empty()
    &&& if pre.is_stop_requested {
        &&& post == pre
        &&& events == Seq::<Event>::empty()
    } else {
        &&& post == EventPump { is_stop_requested: true, ..pre }
        &&& events == if pre.processes@.len() == 0 {
            seq![Event::OrchestratorStopping()]
        } else {
            pre.processes@.map_values(|p: StatefulProcess| Event::ProcessRequestStop(p.id))
        }
    }
}

/// Transition for `OrchestratorStopping`: the engine marks itself stopped;
/// the host's loop exits before taking another event.
pub open spec fn stopping_transition(
    pre: EventPump,
    post: EventPump,
    events: Seq<Event>,
    actions: Seq<OsAction>,
) -> bool {
    &&& post == EventPump { is_stopped: true, ..pre }
    &&& events == Seq::<Event>::empty()
    &&& actions == Seq::<OsAction>::empty()
}

impl EventPump {
    /// Handles `OrchestratorStarting`. The host calls the external spec
    /// loader first and hands its result in; a loader failure aborts startup
    /// before this point.
    pub fn on_orchestrator_starting(&self, loaded: Vec<StatefulProcessConfig>) -> (out:
        EngineOutput)
        requires
            self.inv(),
        ensures
            starting_transition(*self, *self, loaded@, out.events@, out.actions@),
    {
        let ghost orig = loaded@;
        let mut actions: Vec<OsAction> = Vec::new();
        actions.push(OsAction::InstallStopHandler());
        actions.push(OsAction::StartTickSource());
        let mut events: Vec<Event> = Vec::new();
        let mut rest = loaded;
        while rest.len() > 0
            invariant
                events@.len() + rest@.len() == orig.len(),
                rest@ == orig.skip(events@.len() as int),
                forall|k: int|
                    0 <= k < events@.len() ==> events@[k] == Event::ProcessConfigLoaded(orig[k]),
            decreases rest@.len(),
        {
            let ghost k = events@.len() as int;
            let c = rest.remove(0);
            proof {
                assert(c == orig[k]);
                assert(rest@ =~= orig.skip(k + 1));
            }
            events.push(Event::ProcessConfigLoaded(c));
        }
        proof {
            assert(events@ =~= orig.map_values(
                |c: StatefulProcessConfig| Event::ProcessConfigLoaded(c),
            ));
            assert(actions@ =~= seq![OsAction::InstallStopHandler(), OsAction::StartTickSource()]);
        }
        EngineOutput { events, actions }
    }

    /// Handles `ProcessConfigLoaded`.
    pub fn on_process_config_loaded(&mut self, config: StatefulProcessConfig) -> (out:
        EngineOutput)
        requires
            old(self).inv(),
        ensures
            final(self).inv(),
            config_loaded_transition(*old(self), *final(self), config, out.events@, out.actions@),
    {
        let ghost cfg = config;
        let name = config.name.clone();
        match self.find_config_index(&name) {
            Option::Some(i) => {
                proof {
                    let j = self.config_index(config.name@);
                    assert(self.configs@[j].name@ == config.name@);
                    assert(j == i);
                }
                let _previous = self.configs.remove(i);
                self.configs.insert(i, config);
                proof {
                    assert(self.configs@ =~= old(self).configs@.update(
                        old(self).config_index(name@),
                        self.configs@[i as int],
                    ));
                }
            },
            Option::None => {
                self.configs.push(config);
            },
        }
        let mut events: Vec<Event> = Vec::new();
        if !self.is_stop_requested {
            events.push(Event::ProcessRequestStart(name));
        }
        proof {
            if !self.is_stop_requested {
                assert(events@ =~= seq![Event::ProcessRequestStart(cfg.name)]);
            }
        }
        EngineOutput { events, actions: Vec::new() }
    }

    /// Handles `ProcessRequestStart`: decides whether a spawn is due and, if
    /// so, prepares the handle and asks the host to spawn. The host performs
    /// the `Spawn` action and then reports through `on_spawn_result`.
    pub fn on_process_start(&mut self, name: String) -> (out: EngineOutput)
        requires
            old(self).inv(),
        ensures
            final(self).inv(),
            start_transition(*old(self), *final(self), name@, out.events@, out.actions@),
    {
        if self.is_stop_requested {
            self.pending_spawn = Option::None;
            return EngineOutput { events: Vec::new(), actions: Vec::new() };
        }
        let config_index = match self.find_config_index(&name) {
            Option::None => {
                self.pending_spawn = Option::None;
                return EngineOutput { events: Vec::new(), actions: Vec::new() };
            },
            Option::Some(i) => i,
        };
        if self.has_live_handle_for(&name) {
            self.pending_spawn = Option::None;
            return EngineOutput { events: Vec::new(), actions: Vec::new() };
        }
        proof {
            let j = self.config_index(name@);
            assert(self.configs@[j].name@ == name@);
            assert(j == config_index);
        }
        let config = self.configs[config_index].clone();
        let handle = StatefulProcess::new(config);
        let action_id = handle.id.clone();
        let action_config = handle.config.clone();
        let mut actions: Vec<OsAction> = Vec::new();
        actions.push(OsAction::Spawn(action_id, action_config));
        self.pending_spawn = Option::Some(handle);
        EngineOutput { events: Vec::new(), actions }
    }

    /// Handles the host's report of the `Spawn` action it was asked to
    /// perform: the spawned child's OS process id on success, nothing on
    /// failure (including a failed exit-wait registration, which the host
    /// reports as spawn failure).
    pub fn on_spawn_result(&mut self, pid: Option<u64>) -> (out: EngineOutput)
        requires
            old(self).inv(),
        ensures
            final(self).inv(),
            spawn_result_transition(*old(self), *final(self), pid, out.events@, out.actions@),
    {
        let pending = self.pending_spawn.take();
        match (pending, pid) {
            (Option::Some(mut p), Option::Some(d)) => {
                if !self.has_live_handle_for(&p.config.name) {
                    let ghost prepared = p;
                    let has_log = p.config.log_file.is_some();
                    p.has_os_process = true;
                    p.pid = Option::Some(d);
                    p.has_exit_registration = true;
                    p.has_log_file_handle = has_log;
                    proof {
                        assert(p == spawn_completed(prepared, d));
                    }
                    self.processes.push(p);
                }
            },
            _ => {},
        }
        EngineOutput { events: Vec::new(), actions: Vec::new() }
    }

    /// Handles `OrchestratorRequestStop`.
    pub fn on_orchestrator_request_stop(&mut self) -> (out: EngineOutput)
        requires
            old(self).inv(),
        ensures
            final(self).inv(),
            stop_requested_transition(*old(self), *final(self), out.events@, out.actions@),
    {
        let mut events: Vec<Event> = Vec::new();
        if self.is_stop_requested {
            return EngineOutput { events, actions: Vec::new() };
        }
        self.is_stop_requested = true;
        if self.processes.len() == 0 {
            events.push(Event::OrchestratorStopping());
        } else {
            let ghost f = |p: StatefulProcess| Event::ProcessRequestStop(p.id);
            let mut i: usize = 0;
            while i < self.processes.len()
                invariant
                    i <= self.processes@.len(),
                    events@ == self.processes@.take(i as int).map_values(f),
                    f == (|p: StatefulProcess| Event::ProcessRequestStop(p.id)),
                decreases self.processes@.len() - i,
            {
                events.push(Event::ProcessRequestStop(self.processes[i].id.clone()));
                proof {
                    assert(events@ =~= self.processes@.take(i as int + 1).map_values(f));
                }
                i = i + 1;
            }
            proof {
                assert(self.processes@.take(self.processes@.len() as int) =~= self.processes@);
            }
        }
        EngineOutput { events, actions: Vec::new() }
    }

    /// Handles `OrchestratorTick`: the host has already queried the
    /// operating system once per live handle and hands in the observations,
    /// each addressed to a handle id.
    pub fn on_orchestrator_tick(&mut self, samples: &Vec<(String, PollSample)>) -> (out:
        EngineOutput)
        requires
            old(self).inv(),
        ensures
            final(self).inv(),
            tick_transition(*old(self), *final(self), samples@, out.events@, out.actions@),
    {
        let ghost orig = self.processes@;
        let mut updated: Vec<StatefulProcess> = Vec::new();
        while self.processes.len() > 0
            invariant
                self.configs == old(self).configs,
                self.pending_spawn == old(self).pending_spawn,
                self.is_stop_requested == old(self).is_stop_requested,
                self.is_stopped == old(self).is_stopped,
                orig == old(self).processes@,
                old(self).inv(),
                updated@.len() + self.processes@.len() == orig.len(),
                self.processes@ == orig.skip(updated@.len() as int),
                forall|k: int|
                    0 <= k < updated@.len() ==> updated@[k] == tick_polled(orig[k], samples@),
            decreases self.processes@.len(),
        {
            let ghost k = updated@.len() as int;
            proof {
                assert(orig.skip(k)[0] == orig[k]);
            }
            let mut p = self.processes.remove(0);
            proof {
                assert(self.processes@ =~= orig.skip(k + 1));
            }
            match Self::find_sample_for(samples, &p.id) {
                Option::None => {},
                Option::Some(s) => {
                    p.poll(&s);
                },
            }
            updated.push(p);
        }
        self.processes = updated;
        proof {
            assert(orig =~= old(self).processes@);
            assert forall|i: int| 0 <= i < self.processes@.len() implies {
                &&& (#[trigger] self.processes@[i]).wf()
                &&& self.processes@[i].config == orig[i].config
                &&& self.processes@[i].id == orig[i].id
            } by {
                assert(orig[i].wf());
                assert(self.processes@[i] == tick_polled(orig[i], samples@));
            }
        }
        let ghost snap = *self;
        let mut events: Vec<Event> = Vec::new();
        let mut i: usize = 0;
        while i < self.processes.len()
            invariant
                *self == snap,
                i <= self.processes@.len(),
                events@ == recycle_stop_events(self.processes@.take(i as int)),
            decreases self.processes@.len() - i,
        {
            if self.processes[i].is_recycle_required() {
                events.push(Event::ProcessRequestStop(self.processes[i].id.clone()));
            }
            proof {
                let t = self.processes@.take(i as int + 1);
                assert(t.drop_last() =~= self.processes@.take(i as int));
                assert(t.last() == self.processes@[i as int]);
                assert(events@ =~= recycle_stop_events(t));
            }
            i = i + 1;
        }
        proof {
            assert(self.processes@.take(self.processes@.len() as int) =~= self.processes@);
        }
        EngineOutput { events, actions: Vec::new() }
    }

    /// Handles `ProcessRequestPoll`: the host has already queried the
    /// operating system about the addressed child and hands the observation
    /// in. A request for an id that is no longer live is ignored.
    pub fn on_request_process_poll(&mut self, id: String, sample: PollSample) -> (out:
        EngineOutput)
        requires
            old(self).inv(),
        ensures
            final(self).inv(),
            poll_transition(*old(self), *final(self), id@, sample, out.events@, out.actions@),
    {
        let i = match self.find_process_by_process_id(&id) {
            Option::None => {
                return EngineOutput { events: Vec::new(), actions: Vec::new() };
            },
            Option::Some(i) => i,
        };
        proof {
            let j = self.live_index(id@);
            assert(self.processes@[j].id@ == id@);
            lemma_live_ids_distinct(*self, j, i as int);
        }
        let mut p = self.processes.remove(i);
        let was_running = p.has_os_process && sample.is_running;
        p.poll(&sample);
        let recycle = p.is_recycle_required();
        self.processes.insert(i, p);
        proof {
            assert(self.processes@ =~= old(self).processes@.update(
                i as int,
                polled(old(self).processes@[i as int], sample),
            ));
        }
        let mut events: Vec<Event> = Vec::new();
        if !was_running {
            events.push(Event::ProcessStopped(id));
        } else if recycle {
            events.push(Event::ProcessRequestStop(id));
        }
        EngineOutput { events, actions: Vec::new() }
    }

    /// Handles `ProcessRequestStop`: dispatches the configured stop method
    /// for the addressed live handle. A request for an id that is no longer
    /// live is ignored.
    pub fn on_request_process_stop(&self, id: String) -> (out: EngineOutput)
        requires
            self.inv(),
        ensures
            stop_one_transition(*self, *self, id@, out.events@, out.actions@),
    {
        let i = match self.find_process_by_process_id(&id) {
            Option::None => {
                return EngineOutput { events: Vec::new(), actions: Vec::new() };
            },
            Option::Some(i) => i,
        };
        proof {
            let j = self.live_index(id@);
            assert(self.processes@[j].id@ == id@);
            lemma_live_ids_distinct(*self, j, i as int);
        }
        let mut actions: Vec<OsAction> = Vec::new();
        match self.processes[i].request_stop() {
            Option::None => {},
            Option::Some(a) => {
                actions.push(a);
            },
        }
        proof {
            match stop_action(self.processes@[self.live_index(id@)]) {
                Option::None => {
                    assert(actions@ =~= Seq::<OsAction>::empty());
                },
                Option::Some(a) => {
                    assert(actions@ =~= seq![a]);
                },
            }
        }
        EngineOutput { events: Vec::new(), actions }
    }

    /// Handles `ProcessStopped`: reaps the addressed handle — releases its
    /// OS resources exactly once, removes it from the live set — and then
    /// either restarts its spec or, during shutdown, reports the drain
    /// complete once nothing is live. A repeated report for the same id finds
    /// nothing live and is ignored.
    pub fn on_process_stopped(&mut self, id: String) -> (out: EngineOutput)
        requires
            old(self).inv(),
        ensures
            final(self).inv(),
            stopped_transition(*old(self), *final(self), id@, out.events@, out.actions@),
    {
        let i = match self.find_process_by_process_id(&id) {
            Option::None => {
                return EngineOutput { events: Vec::new(), actions: Vec::new() };
            },
            Option::Some(i) => i,
        };
        proof {
            let j = self.live_index(id@);
            assert(self.processes@[j].id@ == id@);
            lemma_live_ids_distinct(*self, j, i as int);
        }
        let p = self.processes.remove(i);
        let actions = p.on_stopped();
        let mut events: Vec<Event> = Vec::new();
        if !self.is_stop_requested {
            events.push(Event::ProcessRequestStart(p.config.name.clone()));
            proof {
                assert(events@ =~= seq![Event::ProcessRequestStart(p.config.name)]);
            }
        } else if self.processes.len() == 0 {
            events.push(Event::OrchestratorStopping());
            proof {
                assert(events@ =~= seq![Event::OrchestratorStopping()]);
            }
        }
        EngineOutput { events, actions }
    }

    /// Handles `OrchestratorStopping`.
    pub fn on_orchestrator_stopping(&mut self) -> (out: EngineOutput)
        requires
            old(self).inv(),
        ensures
            final(self).inv(),
            stopping_transition(*old(self), *final(self), out.events@, out.actions@),
    {
        self.is_stopped = true;
        EngineOutput { events: Vec::new(), actions: Vec::new() }
    }

    /// Dispatches one dequeued event. Events that need nothing from the
    /// operating system are processed at once; for the three that do, the
    /// host is told which query to make and which handler to call with the
    /// answer.
    pub fn process_message(&mut self, message: Event) -> (r: Dispatch)
        requires
            old(self).inv(),
        ensures
            final(self).inv(),
            match message {
                Event::OrchestratorStarting() => r is NeedsLoadedConfigs && *final(self) == *old(
                    self,
                ),
                Event::OrchestratorTick() => r is NeedsTickSamples && *final(self) == *old(self),
                Event::ProcessRequestPoll(id) => (r matches Dispatch::NeedsPollSample(rid) && rid
                    == id) && *final(self) == *old(self),
                Event::OrchestratorRequestStop() => r matches Dispatch::Handled(out)
                    && stop_requested_transition(
                    *old(self),
                    *final(self),
                    out.events@,
                    out.actions@,
                ),
                Event::OrchestratorStopping() => r matches Dispatch::Handled(out)
                    && stopping_transition(*old(self), *final(self), out.events@, out.actions@),
                Event::ProcessConfigLoaded(config) => r matches Dispatch::Handled(out)
                    && config_loaded_transition(
                    *old(self),
                    *final(self),
                    config,
                    out.events@,
                    out.actions@,
                ),
                Event::ProcessRequestStart(name) => r matches Dispatch::Handled(out)
                    && start_transition(*old(self), *final(self), name@, out.events@, out.actions@),
                Event::ProcessRequestStop(id) => r matches Dispatch::Handled(out)
                    && stop_one_transition(
                    *old(self),
                    *final(self),
                    id@,
                    out.events@,
                    out.actions@,
                ),
                Event::ProcessStopped(id) => r matches Dispatch::Handled(out)
                    && stopped_transition(*old(self), *final(self), id@, out.events@, out.actions@),
            },
    {
        match message {
            Event::OrchestratorStarting() => Dispatch::NeedsLoadedConfigs,
            Event::OrchestratorTick() => Dispatch::NeedsTickSamples,
            Event::ProcessRequestPoll(id) => Dispatch::NeedsPollSample(id),
            Event::OrchestratorRequestStop() => Dispatch::Handled(
                self.on_orchestrator_request_stop(),
            ),
            Event::OrchestratorStopping() => Dispatch::Handled(self.on_orchestrator_stopping()),
            Event::ProcessConfigLoaded(config) => Dispatch::Handled(
                self.on_process_config_loaded(config),
            ),
            Event::ProcessRequestStart(name) => Dispatch::Handled(self.on_process_start(name)),
            Event::ProcessRequestStop(id) => Dispatch::Handled(self.on_request_process_stop(id)),
            Event::ProcessStopped(id) => Dispatch::Handled(self.on_process_stopped(id)),
        }
    }
}

/// What the engine needs in order to process one dequeued event.
#[derive(Debug)]
pub enum Dispatch {
    /// The event was processed: enqueue these events, perform these actions.
    Handled(EngineOutput),
    /// `OrchestratorStarting`: run the external spec loader and hand its
    /// result to `on_orchestrator_starting` (a loader failure aborts
    /// startup instead).
    NeedsLoadedConfigs,
    /// `OrchestratorTick`: query the OS once per live handle and hand the
    /// observations to `on_orchestrator_tick`.
    NeedsTickSamples,
    /// `ProcessRequestPoll`: query the OS about this handle id and hand the
    /// observation to `on_request_process_poll`.
    NeedsPollSample(String),
}

/// LAW (one live handle per spec name): under the engine invariant, any two
/// live handles supervising the same spec name are the same handle — for
/// every name, at every time, the live count for it is zero or one.
pub proof fn lemma_at_most_one_live_per_name(pump: EventPump, name: Seq<char>, i: int, j: int)
    requires
        pump.inv(),
        0 <= i < pump.processes@.len(),
        0 <= j < pump.processes@.len(),
        pump.processes@[i].config.name@ == name,
        pump.processes@[j].config.name@ == name,
    ensures
        i == j,
{
}

/// LAW (an unattached handle retains nothing): a well-formed handle with no
/// attached OS process has no pid, no metrics, no outstanding exit-wait
/// registration and no open log-file handle. Every handle the engine holds
/// is well formed, so this holds of the whole live set at every time.
pub proof fn lemma_absent_process_retains_nothing(p: StatefulProcess)
    requires
        p.wf(),
        !p.has_os_process,
    ensures
        p.pid is None,
        p.memory_usage_kib is None,
        p.uptime_millis is None,
        !p.has_exit_registration,
        !p.has_log_file_handle,
{
}

/// LAW (stop idempotence): a stop request processed while stop is already
/// requested changes no engine state and enqueues nothing — in particular,
/// no additional stop requests.
pub proof fn lemma_stop_request_idempotent(
    pre: EventPump,
    post: EventPump,
    events: Seq<Event>,
    actions: Seq<OsAction>,
)
    requires
        pre.is_stop_requested,
        stop_requested_transition(pre, post, events, actions),
    ensures
        post == pre,
        events == Seq::<Event>::empty(),
        actions == Seq::<OsAction>::empty(),
{
}

/// LAW (restart): when shutdown is not in progress and a live handle is
/// reaped, exactly one start request is enqueued, and it names the reaped
/// handle's spec.
pub proof fn lemma_restart_after_exit(
    pre: EventPump,
    post: EventPump,
    id: Seq<char>,
    events: Seq<Event>,
    actions: Seq<OsAction>,
)
    requires
        !pre.is_stop_requested,
        pre.has_live_id(id),
        stopped_transition(pre, post, id, events, actions),
    ensures
        events.len() == 1,
        events[0] matches Event::ProcessRequestStart(n) && n@ == pre.processes@[pre.live_index(
            id,
        )].config.name@,
{
}

/// LAW (reap exactly once): reaping a live id removes exactly that handle
/// and emits its release operations once; a second `ProcessStopped` for the
/// same id finds nothing live under it, changes nothing, and releases
/// nothing again.
pub proof fn lemma_reap_exactly_once(
    pre: EventPump,
    mid: EventPump,
    post: EventPump,
    id: Seq<char>,
    events_a: Seq<Event>,
    actions_a: Seq<OsAction>,
    events_b: Seq<Event>,
    actions_b: Seq<OsAction>,
)
    requires
        pre.inv(),
        pre.has_live_id(id),
        stopped_transition(pre, mid, id, events_a, actions_a),
        stopped_transition(mid, post, id, events_b, actions_b),
    ensures
        mid.processes@.len() == pre.processes@.len() - 1,
        !mid.has_live_id(id),
        actions_a == release_actions(pre.processes@[pre.live_index(id)]),
        post.processes == mid.processes,
        actions_b == Seq::<OsAction>::empty(),
{
    let i = pre.live_index(id);
    assert(pre.processes@[i].id@ == id);
    assert forall|j: int| 0 <= j < mid.processes@.len() implies (#[trigger] mid.processes@[j]).id@
        != id by {
        let j_pre: int = if j < i {
            j
        } else {
            j + 1
        };
        assert(mid.processes@[j] == pre.processes@[j_pre]);
        if mid.processes@[j].id@ == id {
            lemma_live_ids_distinct(pre, i, j_pre);
        }
    }
}

/// Any single engine step: some event, with whatever inputs the host handed
/// in, took the engine from `pre` to `post`, emitting `events` and
/// `actions`.
pub open spec fn engine_step(
    pre: EventPump,
    post: EventPump,
    events: Seq<Event>,
    actions: Seq<OsAction>,
) -> bool {
    ||| exists|loaded: Seq<StatefulProcessConfig>|
        starting_transition(pre, post, loaded, events, actions)
    ||| exists|config: StatefulProcessConfig|
        config_loaded_transition(pre, post, config, events, actions)
    ||| exists|name: Seq<char>| start_transition(pre, post, name, events, actions)
    ||| exists|pid: Option<u64>| spawn_result_transition(pre, post, pid, events, actions)
    ||| exists|samples: Seq<(String, PollSample)>|
        tick_transition(pre, post, samples, events, actions)
    ||| exists|id: Seq<char>, sample: PollSample|
        poll_transition(pre, post, id, sample, events, actions)
    ||| exists|id: Seq<char>| stop_one_transition(pre, post, id, events, actions)
    ||| exists|id: Seq<char>| stopped_transition(pre, post, id, events, actions)
    ||| stop_requested_transition(pre, post, events, actions)
    ||| stopping_transition(pre, post, events, actions)
}

/// LAW (drain, step level): a step taken while stop is requested keeps it
/// requested and enqueues no start request.
pub proof fn lemma_no_start_after_stop_step(
    pre: EventPump,
    post: EventPump,
    events: Seq<Event>,
    actions: Seq<OsAction>,
)
    requires
        pre.is_stop_requested,
        engine_step(pre, post, events, actions),
    ensures
        post.is_stop_requested,
        no_request_start_events(events),
{
    if exists|loaded: Seq<StatefulProcessConfig>|
        starting_transition(pre, post, loaded, events, actions) {
        let loaded = choose|loaded: Seq<StatefulProcessConfig>|
            starting_transition(pre, post, loaded, events, actions);
        assert forall|k: int| 0 <= k < events.len() implies !(#[trigger] events[k]
            is ProcessRequestStart) by {
            assert(events[k] == Event::ProcessConfigLoaded(loaded[k]));
        }
    } else if exists|samples: Seq<(String, PollSample)>|
        tick_transition(pre, post, samples, events, actions) {
        lemma_recycle_stop_events_only_stops(post.processes@);
    }
}

/// An execution fragment: `outputs.len()` consecutive engine steps through
/// the given states.
pub open spec fn engine_run(
    states: Seq<EventPump>,
    outputs: Seq<(Seq<Event>, Seq<OsAction>)>,
) -> bool {
    &&& states.len() == outputs.len() + 1
    &&& forall|k: int|
        0 <= k < outputs.len() ==> engine_step(
            states[k],
            states[k + 1],
            (#[trigger] outputs[k]).0,
            outputs[k].1,
        )
}

/// LAW (drain, run level): in any run, once stop is requested it stays
/// requested, and from that step on no start request is ever enqueued.
pub proof fn lemma_no_start_after_stop_run(
    states: Seq<EventPump>,
    outputs: Seq<(Seq<Event>, Seq<OsAction>)>,
    k: int,
    m: int,
)
    requires
        engine_run(states, outputs),
        0 <= k <= m < outputs.len(),
        states[k].is_stop_requested,
    ensures
        states[m + 1].is_stop_requested,
        no_request_start_events(outputs[m].0),
    decreases m - k,
{
    if m == k {
        lemma_no_start_after_stop_step(states[k], states[k + 1], outputs[k].0, outputs[k].1);
    } else {
        lemma_no_start_after_stop_run(states, outputs, k, m - 1);
        lemma_no_start_after_stop_step(states[m], states[m + 1], outputs[m].0, outputs[m].1);
    }
}

proof fn lemma_config_loaded_preserves_inv(
    pre: EventPump,
    post: EventPump,
    config: StatefulProcessConfig,
    events: Seq<Event>,
    actions: Seq<OsAction>,
)
    requires
        pre.inv(),
        config_loaded_transition(pre, post, config, events, actions),
    ensures
        post.inv(),
{
    if pre.has_config(config.name@) {
        let idx = pre.config_index(config.name@);
        assert(pre.configs@[idx].name@ == config.name@);
        assert forall|i: int, j: int|
            0 <= i < j < post.configs@.len() implies (#[trigger] post.configs@[i]).name@ != (
        #[trigger] post.configs@[j]).name@ by {
            assert(pre.configs@[i].name@ != pre.configs@[j].name@);
        }
    }
}

proof fn lemma_spawn_result_preserves_inv(
    pre: EventPump,
    post: EventPump,
    pid: Option<u64>,
    events: Seq<Event>,
    actions: Seq<OsAction>,
)
    requires
        pre.inv(),
        spawn_result_transition(pre, post, pid, events, actions),
    ensures
        post.inv(),
{
    match (pre.pending_spawn, pid) {
        (Some(p), Some(d)) => {
            if !pre.has_live(p.config.name@) {
                let completed = spawn_completed(p, d);
                assert(completed.wf());
                assert forall|i: int|
                    0 <= i < post.processes@.len() implies (
                #[trigger] post.processes@[i]).wf() by {
                    if i < pre.processes@.len() {
                        assert(post.processes@[i] == pre.processes@[i]);
                    }
                }
            }
        },
        _ => {},
    }
}

proof fn lemma_tick_preserves_inv(
    pre: EventPump,
    post: EventPump,
    samples: Seq<(String, PollSample)>,
    events: Seq<Event>,
    actions: Seq<OsAction>,
)
    requires
        pre.inv(),
        tick_transition(pre, post, samples, events, actions),
    ensures
        post.inv(),
{
    assert forall|i: int| 0 <= i < post.processes@.len() implies {
        &&& (#[trigger] post.processes@[i]).wf()
        &&& post.processes@[i].config == pre.processes@[i].config
    } by {
        assert(pre.processes@[i].wf());
        assert(post.processes@[i] == tick_polled(pre.processes@[i], samples));
    }
}

proof fn lemma_poll_preserves_inv(
    pre: EventPump,
    post: EventPump,
    id: Seq<char>,
    sample: PollSample,
    events: Seq<Event>,
    actions: Seq<OsAction>,
)
    requires
        pre.inv(),
        poll_transition(pre, post, id, sample, events, actions),
    ensures
        post.inv(),
{
    if pre.has_live_id(id) {
        let i = pre.live_index(id);
        assert(pre.processes@[i].wf());
        assert forall|k: int| 0 <= k < post.processes@.len() implies {
            &&& (#[trigger] post.processes@[k]).wf()
            &&& post.processes@[k].config == pre.processes@[k].config
        } by {
            assert(pre.processes@[k].wf());
            if k != i {
                assert(post.processes@[k] == pre.processes@[k]);
            }
        }
    }
}

proof fn lemma_stopped_preserves_inv(
    pre: EventPump,
    post: EventPump,
    id: Seq<char>,
    events: Seq<Event>,
    actions: Seq<OsAction>,
)
    requires
        pre.inv(),
        stopped_transition(pre, post, id, events, actions),
    ensures
        post.inv(),
{
    if pre.has_live_id(id) {
        let i = pre.live_index(id);
        assert forall|j: int|
            0 <= j < post.processes@.len() implies #[trigger] post.processes@[j]
                == if j < i {
                pre.processes@[j]
            } else {
                pre.processes@[j + 1]
            } by {
            assert(post.processes@ == pre.processes@.remove(i));
        }
    }
}

/// LAW (the invariant holds at every time, step level): any engine step
/// taken in a state satisfying the engine invariant ends in a state
/// satisfying it.
pub proof fn lemma_step_preserves_inv(
    pre: EventPump,
    post: EventPump,
    events: Seq<Event>,
    actions: Seq<OsAction>,
)
    requires
        pre.inv(),
        engine_step(pre, post, events, actions),
    ensures
        post.inv(),
{
    if exists|config: StatefulProcessConfig|
        config_loaded_transition(pre, post, config, events, actions) {
        let config = choose|config: StatefulProcessConfig|
            config_loaded_transition(pre, post, config, events, actions);
        lemma_config_loaded_preserves_inv(pre, post, config, events, actions);
    } else if exists|pid: Option<u64>| spawn_result_transition(pre, post, pid, events, actions) {
        let pid = choose|pid: Option<u64>| spawn_result_transition(pre, post, pid, events, actions);
        lemma_spawn_result_preserves_inv(pre, post, pid, events, actions);
    } else if exists|samples: Seq<(String, PollSample)>|
        tick_transition(pre, post, samples, events, actions) {
        let samples = choose|samples: Seq<(String, PollSample)>|
            tick_transition(pre, post, samples, events, actions);
        lemma_tick_preserves_inv(pre, post, samples, events, actions);
    } else if exists|id: Seq<char>, sample: PollSample|
        poll_transition(pre, post, id, sample, events, actions) {
        let (id, sample) = choose|id: Seq<char>, sample: PollSample|
            poll_transition(pre, post, id, sample, events, actions);
        lemma_poll_preserves_inv(pre, post, id, sample, events, actions);
    } else if exists|id: Seq<char>| stopped_transition(pre, post, id, events, actions) {
        let id = choose|id: Seq<char>| stopped_transition(pre, post, id, events, actions);
        lemma_stopped_preserves_inv(pre, post, id, events, actions);
    }
}

/// LAW (the invariant holds at every time, run level): in any run that
/// begins in a state satisfying the engine invariant — a fresh engine does —
/// every state satisfies it: in particular, at every time each spec name has
/// at most one live handle, and a handle with no attached OS process retains
/// no pid, no metrics, no registration and no log handle.
pub proof fn lemma_inv_holds_over_run(
    states: Seq<EventPump>,
    outputs: Seq<(Seq<Event>, Seq<OsAction>)>,
    m: int,
)
    requires
        engine_run(states, outputs),
        states[0].inv(),
        0 <= m < states.len(),
    ensures
        states[m].inv(),
    decreases m,
{
    if m > 0 {
        lemma_inv_holds_over_run(states, outputs, m - 1);
        lemma_step_preserves_inv(states[m - 1], states[m], outputs[m - 1].0, outputs[m - 1].1);
    }
}

/// LAW (drain begins): the stop request that latches the flag enqueues
/// `OrchestratorStopping` exactly when nothing is live — otherwise it
/// enqueues exactly one stop request per live handle, in order.
pub proof fn lemma_stop_request_drains(
    pre: EventPump,
    post: EventPump,
    events: Seq<Event>,
    actions: Seq<OsAction>,
)
    requires
        !pre.is_stop_requested,
        stop_requested_transition(pre, post, events, actions),
    ensures
        contains_orchestrator_stopping(events) <==> pre.processes@.len() == 0,
        pre.processes@.len() > 0 ==> events.len() == pre.processes@.len() && forall|k: int|
            0 <= k < events.len() ==> ((#[trigger] events[k]) matches Event::ProcessRequestStop(e)
                && e@ == pre.processes@[k].id@),
{
    if pre.processes@.len() == 0 {
        assert(events[0] is OrchestratorStopping);
    }
}

/// LAW (drain completes): while stop is requested, a reap enqueues
/// `OrchestratorStopping` exactly when it removed the last live handle.
pub proof fn lemma_drain_completion(
    pre: EventPump,
    post: EventPump,
    id: Seq<char>,
    events: Seq<Event>,
    actions: Seq<OsAction>,
)
    requires
        pre.is_stop_requested,
        stopped_transition(pre, post, id, events, actions),
    ensures
        contains_orchestrator_stopping(events) <==> (pre.has_live_id(id) && post.processes@.len()
            == 0),
{
    if pre.has_live_id(id) && post.processes@.len() == 0 {
        assert(events[0] is OrchestratorStopping);
    }
}

} // verus!
