use vstd::prelude::*;

use crate::event_pump::OsAction;

verus! {

/// How a child is asked to stop: a polite console interrupt that lets the
/// child shut down on its own, or an immediate forcible termination. The
/// default, when a spec names no method, is forcible termination.
#[derive(Debug, Clone, Copy, PartialEq, Eq)]
pub enum StatefulProcessStopMethod {
    CtrlC,
    Terminate,
}

/// The immutable declaration of one managed process, loaded from a spec
/// document.
///
/// Memory quantities are stored in whole kibibytes and durations in whole
/// milliseconds, so that the recycle thresholds and the polled metrics
/// compare exactly.
#[derive(Debug, PartialEq)]
pub struct StatefulProcessConfig {
    /// Unique human identifier; lookup key and id prefix.
    pub name: String,
    /// Path or command to invoke.
    pub executable: String,
    /// Ordered arguments, possibly absent.
    pub arguments: Option<Vec<String>>,
    /// Working directory for the child, if any.
    pub working_directory: Option<String>,
    /// If present, child stdout and stderr append to this file.
    pub log_file: Option<String>,
    /// Stop method; absent means forcible termination.
    pub stop_method: Option<StatefulProcessStopMethod>,
    /// If present, these pairs form the child's complete environment.
    pub environment_variables: Option<Vec<(String, String)>>,
    /// Recycle when the resident set exceeds this many kibibytes.
    pub recycle_on_memory_kib: Option<u64>,
    /// Recycle when the wall-clock uptime exceeds this many milliseconds.
    pub recycle_on_duration_millis: Option<u64>,
}

/// The mathematical content of a process spec: every string as a sequence of
/// characters.
pub struct StatefulProcessConfigView {
    pub name: Seq<char>,
    pub executable: Seq<char>,
    pub arguments: Option<Seq<Seq<char>>>,
    pub working_directory: Option<Seq<char>>,
    pub log_file: Option<Seq<char>>,
    pub stop_method: Option<StatefulProcessStopMethod>,
    pub environment_variables: Option<Seq<(Seq<char>, Seq<char>)>>,
    pub recycle_on_memory_kib: Option<u64>,
    pub recycle_on_duration_millis: Option<u64>,
}

impl View for StatefulProcessConfig {
    type V = StatefulProcessConfigView;

    open spec fn view(&self) -> StatefulProcessConfigView {
        StatefulProcessConfigView {
            name: self.name@,
            executable: self.executable@,
            arguments: self.arguments.deep_view(),
            working_directory: self.working_directory.deep_view(),
            log_file: self.log_file.deep_view(),
            stop_method: self.stop_method,
            environment_variables: self.environment_variables.deep_view(),
            recycle_on_memory_kib: self.recycle_on_memory_kib,
            recycle_on_duration_millis: self.recycle_on_duration_millis,
        }
    }
}

fn clone_string_vec(v: &Vec<String>) -> (r: Vec<String>)
    ensures
        r@ == v@,
{
    let mut r: Vec<String> = Vec::new();
    let mut i: usize = 0;
    while i < v.len()
        invariant
            i <= v.len(),
            r@ =~= v@.take(i as int),
        decreases v.len() - i,
    {
        r.push(v[i].clone());
        i = i + 1;
    }
    assert(r@ =~= v@);
    r
}

fn clone_pair_vec(v: &Vec<(String, String)>) -> (r: Vec<(String, String)>)
    ensures
        r@ == v@,
{
    let mut r: Vec<(String, String)> = Vec::new();
    let mut i: usize = 0;
    while i < v.len()
        invariant
            i <= v.len(),
            r@ =~= v@.take(i as int),
        decreases v.len() - i,
    {
        r.push((v[i].0.clone(), v[i].1.clone()));
        i = i + 1;
    }
    assert(r@ =~= v@);
    r
}

fn clone_opt_string(o: &Option<String>) -> (r: Option<String>)
    ensures
        r == *o,
{
    match o {
        Option::None => Option::None,
        Option::Some(s) => Option::Some(s.clone()),
    }
}

impl Clone for StatefulProcessConfig {
    /// Cloning a spec preserves its entire content.
    fn clone(&self) -> (r: Self)
        ensures
            r@ == self@,
    {
        let r = StatefulProcessConfig {
            name: self.name.clone(),
            executable: self.executable.clone(),
            arguments: match &self.arguments {
                Option::None => Option::None,
                Option::Some(v) => Option::Some(clone_string_vec(v)),
            },
            working_directory: clone_opt_string(&self.working_directory),
            log_file: clone_opt_string(&self.log_file),
            stop_method: self.stop_method,
            environment_variables: match &self.environment_variables {
                Option::None => Option::None,
                Option::Some(v) => Option::Some(clone_pair_vec(v)),
            },
            recycle_on_memory_kib: self.recycle_on_memory_kib,
            recycle_on_duration_millis: self.recycle_on_duration_millis,
        };
        assert(r.arguments.deep_view() =~~= self.arguments.deep_view());
        assert(r.environment_variables.deep_view() =~~= self.environment_variables.deep_view());
        assert(r.working_directory.deep_view() =~~= self.working_directory.deep_view());
        assert(r.log_file.deep_view() =~~= self.log_file.deep_view());
        r
    }
}

/// The sixteen symbols a process-id suffix is drawn from.
pub open spec fn is_id_char(c: char) -> bool {
    ||| c == '1'
    ||| c == '2'
    ||| c == '3'
    ||| c == '4'
    ||| c == '5'
    ||| c == '6'
    ||| c == '7'
    ||| c == '8'
    ||| c == '9'
    ||| c == '0'
    ||| c == 'a'
    ||| c == 'b'
    ||| c == 'c'
    ||| c == 'd'
    ||| c == 'e'
    ||| c == 'f'
}

/// A process-id suffix: exactly five symbols from the id alphabet.
pub open spec fn is_id_suffix(s: Seq<char>) -> bool {
    &&& s.len() == 5
    &&& forall|i: int| 0 <= i < s.len() ==> is_id_char(#[trigger] s[i])
}

/// The shape of a process-handle id: the spec's name, a dash, and a five
/// symbol random suffix. A new id is drawn for every spawn attempt.
pub open spec fn is_process_id_for(id: Seq<char>, name: Seq<char>) -> bool {
    &&& id.len() == name.len() + 6
    &&& id.subrange(0, name.len() as int) == name
    &&& id[name.len() as int] == '-'
    &&& is_id_suffix(id.subrange(name.len() as int + 1, id.len() as int))
}

/// Two handles whose ids coincide supervise the same spec: the name is
/// readable from the id alone.
pub proof fn lemma_id_determines_name(id: Seq<char>, name_a: Seq<char>, name_b: Seq<char>)
    requires
        is_process_id_for(id, name_a),
        is_process_id_for(id, name_b),
    ensures
        name_a == name_b,
{
    assert(name_a.len() == name_b.len());
    assert(name_a =~= name_b);
}

/// Relies on nanoid::format driven by nanoid::rngs::default: with a
/// sixteen-symbol alphabet it takes the power-of-two path, drawing exactly
/// `size` symbols, each one element of `alphabet`.
#[verifier::external_body]
fn random_string_from(alphabet: &[char], size: usize) -> (r: String)
    requires
        alphabet@.len() == 16,
    ensures
        r@.len() == size,
        forall|i: int| 0 <= i < r@.len() ==> alphabet@.contains(#[trigger] r@[i]),
{
    nanoid::format(nanoid::rngs::default, alphabet, size)
}

/// Draws a fresh handle id for a spawn attempt: the spec's name, a dash, and
/// five random symbols from the id alphabet.
pub fn create_process_id(process_name: &String) -> (id: String)
    ensures
        is_process_id_for(id@, process_name@),
{
    let mut alphabet: Vec<char> = Vec::new();
    alphabet.push('1');
    alphabet.push('2');
    alphabet.push('3');
    alphabet.push('4');
    alphabet.push('5');
    alphabet.push('6');
    alphabet.push('7');
    alphabet.push('8');
    alphabet.push('9');
    alphabet.push('0');
    alphabet.push('a');
    alphabet.push('b');
    alphabet.push('c');
    alphabet.push('d');
    alphabet.push('e');
    alphabet.push('f');
    let suffix = random_string_from(alphabet.as_slice(), 5);
    proof {
        assert forall|i: int| 0 <= i < suffix@.len() implies is_id_char(#[trigger] suffix@[i]) by {
            assert(alphabet@.contains(suffix@[i]));
            let j = choose|j: int| 0 <= j < alphabet@.len() && alphabet@[j] == suffix@[i];
            assert(is_id_char(alphabet@[j]));
        }
    }
    let mut id = process_name.clone();
    id.append("-");
    id.append(suffix.as_str());
    proof {
        reveal_strlit("-");
        let n = process_name@.len() as int;
        assert(id@.subrange(0, n) =~= process_name@);
        assert(id@[n] == '-');
        assert(id@.subrange(n + 1, id@.len() as int) =~= suffix@);
    }
    id
}

/// One observation of a live child, as the operating system reported it: is
/// the child still active, its resident set in kibibytes, and its wall-clock
/// uptime in milliseconds. Either metric may be absent when its query failed.
#[derive(Debug, Clone, Copy, PartialEq)]
pub struct PollSample {
    pub is_running: bool,
    pub memory_usage_kib: Option<u64>,
    pub uptime_millis: Option<u64>,
}

/// The runtime state of one live attempt at a spec: the engine's record of
/// the child the operating system runs on its behalf.
///
/// The OS resources themselves (the process handle, the log-file handle, the
/// one-shot exit-wait registration) live with the host, keyed by `id`; the
/// handle records which of them exist.
#[derive(Debug)]
pub struct StatefulProcess {
    /// `{spec name}-{five random symbols}`; fresh per spawn attempt.
    pub id: String,
    /// The spec this handle supervises.
    pub config: StatefulProcessConfig,
    /// Whether an owned OS process handle exists for this child.
    pub has_os_process: bool,
    /// OS process id; present exactly while the process handle is.
    pub pid: Option<u64>,
    /// Whether an owned log-file handle is open for this child.
    pub has_log_file_handle: bool,
    /// Whether the one-shot exit-wait registration is outstanding. It must be
    /// unregistered exactly once, before the handle is dropped.
    pub has_exit_registration: bool,
    /// Latest polled resident set, in kibibytes; absent until first success.
    pub memory_usage_kib: Option<u64>,
    /// Latest polled uptime, in milliseconds; absent until first success.
    pub uptime_millis: Option<u64>,
}

impl StatefulProcess {
    /// Well-formedness: when no OS process is attached nothing OS-derived is
    /// retained, and the id carries the spec's name.
    pub open spec fn wf(self) -> bool {
        &&& self.has_os_process ==> self.pid is Some
        &&& !self.has_os_process ==> {
            &&& self.pid is None
            &&& self.memory_usage_kib is None
            &&& self.uptime_millis is None
            &&& !self.has_exit_registration
            &&& !self.has_log_file_handle
        }
        &&& self.has_log_file_handle ==> self.config@.log_file is Some
        &&& is_process_id_for(self.id@, self.config.name@)
    }

    /// Prepares a handle for a spawn attempt: a fresh id, no OS resources
    /// yet. The OS fields are filled in only once the spawn succeeded.
    pub fn new(config: StatefulProcessConfig) -> (p: Self)
        ensures
            p.wf(),
            !p.has_os_process,
            p.config == config,
            is_process_id_for(p.id@, config.name@),
    {
        let id = create_process_id(&config.name);
        StatefulProcess {
            id,
            config,
            has_os_process: false,
            pid: Option::None,
            has_log_file_handle: false,
            has_exit_registration: false,
            memory_usage_kib: Option::None,
            uptime_millis: Option::None,
        }
    }
}

/// The handle after one observation: each metric the query produced replaces
/// the stored one; a failed query keeps the previous value; a handle with no
/// attached OS process retains nothing.
pub open spec fn polled(p: StatefulProcess, s: PollSample) -> StatefulProcess {
    if p.has_os_process {
        StatefulProcess {
            memory_usage_kib: if s.memory_usage_kib is Some {
                s.memory_usage_kib
            } else {
                p.memory_usage_kib
            },
            uptime_millis: if s.uptime_millis is Some {
                s.uptime_millis
            } else {
                p.uptime_millis
            },
            ..p
        }
    } else {
        p
    }
}

/// A live handle requires recycling when a configured threshold is strictly
/// exceeded by the latest polled metric. An absent metric or an absent
/// threshold never triggers.
pub open spec fn recycle_required(p: StatefulProcess) -> bool {
    ||| {
        &&& p.config.recycle_on_memory_kib matches Some(limit)
        &&& p.memory_usage_kib matches Some(current)
        &&& current > limit
    }
    ||| {
        &&& p.config.recycle_on_duration_millis matches Some(limit)
        &&& p.uptime_millis matches Some(current)
        &&& current > limit
    }
}

impl StatefulProcess {
    /// Records one observation of the child.
    pub fn poll(&mut self, sample: &PollSample)
        ensures
            *final(self) == polled(*old(self), *sample),
    {
        if self.has_os_process {
            if self.memory_sample_present(sample) {
                self.memory_usage_kib = sample.memory_usage_kib;
            }
            if self.uptime_sample_present(sample) {
                self.uptime_millis = sample.uptime_millis;
            }
        }
    }

    fn memory_sample_present(&self, sample: &PollSample) -> (b: bool)
        ensures
            b == (sample.memory_usage_kib is Some),
    {
        sample.memory_usage_kib.is_some()
    }

    fn uptime_sample_present(&self, sample: &PollSample) -> (b: bool)
        ensures
            b == (sample.uptime_millis is Some),
    {
        sample.uptime_millis.is_some()
    }

    /// Whether the recycle policy asks this handle to be stopped (and, with
    /// shutdown not in progress, restarted).
    pub fn is_recycle_required(&self) -> (b: bool)
        ensures
            b == recycle_required(*self),
    {
        if let Option::Some(limit) = self.config.recycle_on_memory_kib {
            if let Option::Some(current) = self.memory_usage_kib {
                if current > limit {
                    return true;
                }
            }
        }
        if let Option::Some(limit) = self.config.recycle_on_duration_millis {
            if let Option::Some(current) = self.uptime_millis {
                if current > limit {
                    return true;
                }
            }
        }
        false
    }
}

/// The handle once the host reports a successful spawn: the OS process and
/// its id are attached, the exit wait is registered, and a log-file handle is
/// open exactly when the spec configures a log file.
pub open spec fn spawn_completed(p: StatefulProcess, pid: u64) -> StatefulProcess {
    StatefulProcess {
        has_os_process: true,
        pid: Some(pid),
        has_exit_registration: true,
        has_log_file_handle: p.config@.log_file is Some,
        ..p
    }
}

/// The OS operation a stop request translates to: nothing when no OS process
/// is attached; the polite interrupt when the spec asks for it; forcible
/// termination otherwise (also when the spec names no method).
pub open spec fn stop_action(p: StatefulProcess) -> Option<OsAction> {
    if !p.has_os_process || p.pid is None {
        Option::None
    } else if p.config.stop_method == Some(StatefulProcessStopMethod::CtrlC) {
        Option::Some(OsAction::SignalCtrlC(p.pid.unwrap()))
    } else {
        Option::Some(OsAction::Terminate(p.id))
    }
}

/// The on-exit cleanup a reaped handle owes, in order: unregister the exit
/// wait (before anything that could free the callback's context), then close
/// the process handle, then close the log-file handle — each exactly once,
/// and only when the resource exists.
pub open spec fn release_actions(p: StatefulProcess) -> Seq<OsAction> {
    let s0 = if p.has_exit_registration {
        seq![OsAction::UnregisterExitWait(p.id)]
    } else {
        Seq::<OsAction>::empty()
    };
    let s1 = if p.has_os_process {
        s0.push(OsAction::CloseProcessHandle(p.id))
    } else {
        s0
    };
    if p.has_log_file_handle {
        s1.push(OsAction::CloseLogFile(p.id))
    } else {
        s1
    }
}

impl StatefulProcess {
    /// Translates a stop request for this handle into the configured OS
    /// operation. The handle itself is left as it is: the engine reaps it
    /// only once the exit notification arrives.
    pub fn request_stop(&self) -> (a: Option<OsAction>)
        ensures
            a == stop_action(*self),
    {
        if !self.has_os_process {
            return Option::None;
        }
        let pid = match self.pid {
            Option::Some(p) => p,
            Option::None => {
                return Option::None;
            },
        };
        match self.config.stop_method {
            Option::Some(StatefulProcessStopMethod::CtrlC) => Option::Some(
                OsAction::SignalCtrlC(pid),
            ),
            _ => Option::Some(OsAction::Terminate(self.id.clone())),
        }
    }

    /// The on-exit cleanup for this handle, as the operations the host must
    /// perform, in order.
    pub fn on_stopped(&self) -> (acts: Vec<OsAction>)
        ensures
            acts@ == release_actions(*self),
    {
        let mut acts: Vec<OsAction> = Vec::new();
        if self.has_exit_registration {
            acts.push(OsAction::UnregisterExitWait(self.id.clone()));
        }
        if self.has_os_process {
            acts.push(OsAction::CloseProcessHandle(self.id.clone()));
        }
        if self.has_log_file_handle {
            acts.push(OsAction::CloseLogFile(self.id.clone()));
        }
        assert(acts@ =~= release_actions(*self));
        acts
    }
}

/// One argument as it stands on the child's command line: surrounded by
/// double quotes.
pub open spec fn quoted(arg: Seq<char>) -> Seq<char> {
    seq!['"'] + arg + seq!['"']
}

/// The quoted arguments joined with single spaces.
pub open spec fn joined_quoted_args(args: Seq<Seq<char>>) -> Seq<char>
    decreases args.len(),
{
    if args.len() == 0 {
        Seq::empty()
    } else if args.len() == 1 {
        quoted(args[0])
    } else {
        joined_quoted_args(args.drop_last()) + seq![' '] + quoted(args.last())
    }
}

/// The single command line handed to the platform's process-creation call:
/// the executable, and — when an argument list is present, even an empty
/// one — a space followed by the quoted arguments.
pub open spec fn command_line_spec(c: StatefulProcessConfigView) -> Seq<char> {
    match c.arguments {
        Option::None => c.executable,
        Option::Some(args) => c.executable + seq![' '] + joined_quoted_args(args),
    }
}

/// Builds the child's command line from its spec: each argument is
/// surrounded by double quotes and the pieces are joined with spaces after
/// the executable.
pub fn build_command_line(config: &StatefulProcessConfig) -> (r: String)
    ensures
        r@ == command_line_spec(config@),
{
    let mut line = config.executable.clone();
    match &config.arguments {
        Option::None => {},
        Option::Some(args) => {
            proof {
                reveal_strlit(" ");
                reveal_strlit("\"");
            }
            line.append(" ");
            let ghost dv: Seq<Seq<char>> = args.deep_view();
            proof {
                assert(config@.arguments == Option::Some(dv));
            }
            let mut i: usize = 0;
            while i < args.len()
                invariant
                    i <= args.len(),
                    dv == args.deep_view(),
                    dv.len() == args.len(),
                    forall|k: int| 0 <= k < args.len() ==> dv[k] == args@[k]@,
                    line@ == config.executable@ + seq![' '] + joined_quoted_args(dv.take(i as int)),
                decreases args.len() - i,
            {
                proof {
                    reveal_strlit(" ");
                    reveal_strlit("\"");
                }
                if i > 0 {
                    line.append(" ");
                }
                line.append("\"");
                line.append(args[i].as_str());
                line.append("\"");
                proof {
                    let t = dv.take(i as int + 1);
                    assert(t.drop_last() =~= dv.take(i as int));
                    assert(t.last() == dv[i as int]);
                    if i == 0 {
                        assert(line@ =~= config.executable@ + seq![' '] + joined_quoted_args(t));
                    } else {
                        assert(line@ =~= config.executable@ + seq![' '] + joined_quoted_args(t));
                    }
                }
                i = i + 1;
            }
            proof {
                assert(dv.take(args.len() as int) =~= dv);
            }
        },
    }
    line
}

/// One `NAME=VALUE` entry of the environment block, with its terminating NUL.
pub open spec fn env_entry(k: Seq<char>, v: Seq<char>) -> Seq<char> {
    k + seq!['='] + v + seq!['\u{0}']
}

/// The entries of the block, in the order the spec lists the pairs.
pub open spec fn env_entries(pairs: Seq<(Seq<char>, Seq<char>)>) -> Seq<char>
    decreases pairs.len(),
{
    if pairs.len() == 0 {
        Seq::empty()
    } else {
        env_entries(pairs.drop_last()) + env_entry(pairs.last().0, pairs.last().1)
    }
}

/// The platform environment block handed to process creation when a spec
/// pins the child's environment: every `NAME=VALUE` pair NUL-terminated, and
/// a final NUL closing the block. The spec's pairs replace the supervisor's
/// own environment entirely.
pub open spec fn environment_block_spec(pairs: Seq<(Seq<char>, Seq<char>)>) -> Seq<char> {
    env_entries(pairs) + seq!['\u{0}']
}

/// Builds the NUL-delimited environment block for the child.
pub fn build_environment_block(pairs: &Vec<(String, String)>) -> (r: String)
    ensures
        r@ == environment_block_spec(pairs.deep_view()),
{
    proof {
        reveal_strlit("=");
        reveal_strlit("\u{0}");
    }
    let ghost dv: Seq<(Seq<char>, Seq<char>)> = pairs.deep_view();
    let mut block = String::new();
    let mut i: usize = 0;
    while i < pairs.len()
        invariant
            i <= pairs.len(),
            dv == pairs.deep_view(),
            dv.len() == pairs.len(),
            forall|k: int|
                0 <= k < pairs.len() ==> dv[k] == (pairs@[k].0@, pairs@[k].1@),
            block@ == env_entries(dv.take(i as int)),
        decreases pairs.len() - i,
    {
        proof {
            reveal_strlit("=");
            reveal_strlit("\u{0}");
        }
        block.append(pairs[i].0.as_str());
        block.append("=");
        block.append(pairs[i].1.as_str());
        block.append("\u{0}");
        proof {
            let t = dv.take(i as int + 1);
            assert(t.drop_last() =~= dv.take(i as int));
            assert(t.last() == dv[i as int]);
            assert(block@ =~= env_entries(t));
        }
        i = i + 1;
    }
    proof {
        reveal_strlit("\u{0}");
        assert(dv.take(pairs.len() as int) =~= dv);
    }
    block.append("\u{0}");
    block
}

/// Converts a resident-set size reported by the operating system in bytes to
/// the whole kibibytes in which metrics and recycle thresholds are stored.
pub fn memory_kib_from_bytes(bytes: u64) -> (kib: u64)
    ensures
        kib == bytes / 1024,
{
    bytes / 1024
}

/// Wall-clock uptime between the child's recorded start and now, both as
/// millisecond timestamps; a start seemingly in the future yields zero.
pub fn elapsed_millis(started_ms: u64, now_ms: u64) -> (r: u64)
    ensures
        r == if now_ms >= started_ms {
            now_ms - started_ms
        } else {
            0
        },
{
    if now_ms >= started_ms {
        now_ms - started_ms
    } else {
        0
    }
}

} // verus!
