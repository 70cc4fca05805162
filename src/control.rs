//! The run configuration and the run controller: the start / stop state
//! machine, manual triggers, and which watched directories are due at a tick.
use vstd::prelude::*;

use crate::cron::{expression_matches, now_instant, Instant};

verus! {

/// One watched directory, its schedule expressions and whether its scan
/// descends into subdirectories.
pub struct PathConfig {
    pub directory: String,
    pub cron_expressions: Vec<String>,
    pub recursive: bool,
}

/// The server profile and the watched directories, replaced as a whole.
pub struct Config {
    pub server_url: String,
    pub api_key: String,
    pub paths: Vec<PathConfig>,
}

#[derive(Clone, Copy, Debug, PartialEq, Eq, Structural)]
pub enum ControlError {
    /// No configuration has been loaded.
    NoConfig,
    /// The scheduler is already running.
    AlreadyRunning,
}

impl ControlError {
    /// The text reported to the caller.
    pub fn message(&self) -> (r: String)
        ensures
            *self == ControlError::NoConfig ==> r@ == "No configuration loaded"@,
            *self == ControlError::AlreadyRunning ==> r@ == "Scheduler already running"@,
    {
        match self {
            ControlError::NoConfig => String::from_str("No configuration loaded"),
            ControlError::AlreadyRunning => String::from_str("Scheduler already running"),
        }
    }
}

/// What the background loop does at a tick.
#[derive(Clone, Copy, Debug, PartialEq, Eq, Structural)]
pub enum TickDecision {
    /// The controller was stopped: the loop ends.
    Stop,
    /// Still running: the due passes of the loaded configuration are run.
    Run,
}

/// The observable state of a controller.
pub ghost struct RunStatus {
    pub running: bool,
    pub configured: bool,
}

pub open spec fn start_result(s: RunStatus) -> Result<(), ControlError> {
    if !s.configured {
        Err(ControlError::NoConfig)
    } else if s.running {
        Err(ControlError::AlreadyRunning)
    } else {
        Ok(())
    }
}

pub open spec fn after_start(s: RunStatus) -> RunStatus {
    if start_result(s) is Ok {
        RunStatus { running: true, ..s }
    } else {
        s
    }
}

pub open spec fn after_stop(s: RunStatus) -> RunStatus {
    RunStatus { running: false, ..s }
}

/// The shared run state: whether the scheduler runs and the loaded
/// configuration. It runs only with a configuration loaded.
pub struct RunController {
    running: bool,
    config: Option<Config>,
}

impl RunController {
    pub closed spec fn view(&self) -> RunStatus {
        RunStatus { running: self.running, configured: self.config is Some }
    }

    pub closed spec fn wf(&self) -> bool {
        self.running ==> self.config is Some
    }

    pub closed spec fn loaded(&self) -> Option<Config> {
        self.config
    }

    /// A stopped controller with no configuration.
    pub fn new() -> (r: RunController)
        ensures
            r.wf(),
            r@ == (RunStatus { running: false, configured: false }),
    {
        RunController { running: false, config: None }
    }

    /// Replaces the configuration as a whole.
    pub fn set_config(&mut self, config: Config)
        requires
            old(self).wf(),
        ensures
            final(self).wf(),
            final(self)@ == (RunStatus { configured: true, ..old(self)@ }),
            final(self).loaded() == Some(config),
    {
        self.config = Some(config);
    }

    /// The loaded configuration, if any.
    pub fn config(&self) -> (r: Option<&Config>)
        ensures
            r matches Some(c) ==> self.loaded() == Some(*c),
            r is None <==> self.loaded() is None,
            r is Some <==> self@.configured,
    {
        match &self.config {
            Some(c) => Some(c),
            None => None,
        }
    }

    /// Whether the scheduler runs.
    pub fn is_running(&self) -> (r: bool)
        ensures
            r == self@.running,
    {
        self.running
    }

    /// Starts the scheduler: fails without a configuration, or when it
    /// already runs.
    pub fn start(&mut self) -> (r: Result<(), ControlError>)
        requires
            old(self).wf(),
        ensures
            final(self).wf(),
            r == start_result(old(self)@),
            final(self)@ == after_start(old(self)@),
            final(self).loaded() == old(self).loaded(),
    {
        if self.config.is_none() {
            return Err(ControlError::NoConfig);
        }
        if self.running {
            return Err(ControlError::AlreadyRunning);
        }
        self.running = true;
        Ok(())
    }

    /// Stops the scheduler; stopping a stopped scheduler changes nothing.
    pub fn stop(&mut self)
        requires
            old(self).wf(),
        ensures
            final(self).wf(),
            final(self)@ == after_stop(old(self)@),
            final(self).loaded() == old(self).loaded(),
    {
        self.running = false;
    }

    /// The decision at a tick of the background loop: it ends once the
    /// controller is stopped.
    pub fn tick(&self) -> (r: TickDecision)
        ensures
            r == (if self@.running { TickDecision::Run } else { TickDecision::Stop }),
    {
        if self.running {
            TickDecision::Run
        } else {
            TickDecision::Stop
        }
    }

    /// The watched directory of a manual trigger: the given directory and
    /// flag, with no schedule. Fails without a configuration.
    pub fn manual_trigger(&self, directory: String, recursive: bool) -> (r: Result<PathConfig, ControlError>)
        ensures
            !self@.configured ==> r == Err::<PathConfig, ControlError>(ControlError::NoConfig),
            self@.configured ==> r is Ok,
            self.loaded() is None ==> r == Err::<PathConfig, ControlError>(ControlError::NoConfig),
            self.loaded() is Some ==> (r matches Ok(p) && p.directory == directory
                && p.cron_expressions@.len() == 0 && p.recursive == recursive),
    {
        if self.config.is_none() {
            return Err(ControlError::NoConfig);
        }
        Ok(PathConfig { directory, cron_expressions: Vec::new(), recursive })
    }
}

/// Starting a running scheduler fails, stopping is idempotent, and starting
/// without a configuration fails.
pub proof fn lemma_start_stop(s: RunStatus)
    ensures
        s.configured ==> start_result(after_start(s)) == Err::<(), ControlError>(ControlError::AlreadyRunning),
        after_stop(after_stop(s)) == after_stop(s),
        !s.configured ==> start_result(s) == Err::<(), ControlError>(ControlError::NoConfig),
        !after_stop(s).running,
{
}

/// The passes that one directory's expressions call for at `t`: one for
/// each of its first `m` expressions that matches.
pub open spec fn passes_for(i: nat, es: Seq<String>, t: Instant, m: nat) -> Seq<nat>
    decreases m,
{
    if m == 0 {
        Seq::empty()
    } else {
        let p = passes_for(i, es, t, (m - 1) as nat);
        if expression_matches(es[m - 1]@, t) {
            p.push(i)
        } else {
            p
        }
    }
}

/// The passes due at `t` over the first `k` watched directories, in order:
/// the index of a directory once for every expression of it that matches.
pub open spec fn due_upto(paths: Seq<PathConfig>, t: Instant, k: nat) -> Seq<nat>
    decreases k,
{
    if k == 0 {
        Seq::empty()
    } else {
        due_upto(paths, t, (k - 1) as nat) + passes_for(
            (k - 1) as nat,
            paths[k - 1].cron_expressions@,
            t,
            paths[k - 1].cron_expressions@.len(),
        )
    }
}

/// The passes due at `t`: the index of each watched directory, once for
/// every one of its expressions that matches `t`.
pub fn due_passes(config: &Config, t: &Instant) -> (r: Vec<usize>)
    ensures
        r@.len() == due_upto(config.paths@, *t, config.paths@.len()).len(),
        forall|k: int| 0 <= k < r@.len() ==> #[trigger] r@[k] as nat == due_upto(config.paths@, *t, config.paths@.len())[k],
{
    let mut out: Vec<usize> = Vec::new();
    let mut i: usize = 0;
    while i < config.paths.len()
        invariant
            i <= config.paths@.len(),
            out@.len() == due_upto(config.paths@, *t, i as nat).len(),
            forall|k: int| 0 <= k < out@.len() ==> #[trigger] out@[k] as nat == due_upto(config.paths@, *t, i as nat)[k],
        decreases config.paths@.len() - i,
    {
        let es = &config.paths[i].cron_expressions;
        let ghost base = due_upto(config.paths@, *t, i as nat);
        let mut j: usize = 0;
        while j < es.len()
            invariant
                i < config.paths@.len(),
                *es == config.paths@[i as int].cron_expressions,
                j <= es@.len(),
                base == due_upto(config.paths@, *t, i as nat),
                out@.len() == (base + passes_for(i as nat, es@, *t, j as nat)).len(),
                forall|k: int| 0 <= k < out@.len() ==> #[trigger] out@[k] as nat == (base + passes_for(i as nat, es@, *t, j as nat))[k],
            decreases es@.len() - j,
        {
            let ghost before = base + passes_for(i as nat, es@, *t, j as nat);
            if crate::cron::matches(es[j].as_str(), t) {
                out.push(i);
                assert(base + passes_for(i as nat, es@, *t, (j + 1) as nat) =~= before.push(i as nat));
            } else {
                assert(base + passes_for(i as nat, es@, *t, (j + 1) as nat) =~= before);
            }
            j = j + 1;
        }
        assert(due_upto(config.paths@, *t, (i + 1) as nat) == base + passes_for(i as nat, es@, *t, es@.len()));
        i = i + 1;
    }
    out
}

/// The passes due now: the current UTC time is read once for the whole tick.
pub fn due_now(config: &Config) -> (r: Vec<usize>)
    ensures
        exists|t: Instant| {
            &&& t.wf()
            &&& r@.len() == due_upto(config.paths@, t, config.paths@.len()).len()
            &&& forall|k: int| 0 <= k < r@.len() ==> #[trigger] r@[k] as nat == due_upto(config.paths@, t, config.paths@.len())[k]
        },
{
    let t = now_instant();
    due_passes(config, &t)
}

} // verus!
