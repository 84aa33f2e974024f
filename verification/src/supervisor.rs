//! The supervisor's decisions: the order in which the daemon is put
//! together, what a failure on the way means, and how the daemon is taken
//! down.

use vstd::prelude::*;
use crate::clip::Clip;
use crate::history::HistoryError;

verus! {

/// What the supervisor is told on its control channel.
#[derive(Clone, Copy, Debug, PartialEq, Eq, Structural)]
pub enum CtlMessage {
    Shutdown,
}

/// One of the two workers that the supervisor starts and joins.
#[derive(Clone, Copy, Debug, PartialEq, Eq, Structural)]
pub enum Worker {
    Pipeline,
    Rpc,
}

/// Why the daemon could not start.
#[derive(Clone, Copy, Debug, PartialEq, Eq, Structural)]
pub enum StartError {
    /// The configuration is malformed or names a value out of range.
    ConfigInvalid,
    /// The windowing system cannot be reached.
    MonitorInit,
    /// The control socket cannot be bound.
    RpcBind,
}

/// The steps of starting the daemon, in their order.
#[derive(Clone, Copy, Debug, PartialEq, Eq, Structural)]
pub enum Stage {
    LoadHistory,
    CreateManager,
    CreateMonitor,
    StartWorkers,
    InstallSignals,
    Serve,
}

/// What follows a step.
#[derive(Clone, Copy, Debug, PartialEq, Eq, Structural)]
pub enum Advance {
    Next(Stage),
    Abort(StartError),
}

impl Stage {
    /// What follows a step that succeeded or failed. A history that cannot
    /// be loaded does not stop the daemon; a manager, a monitor or a control
    /// socket that cannot be had does.
    pub open spec fn spec_after(self, succeeded: bool) -> Advance {
        match self {
            Stage::LoadHistory => Advance::Next(Stage::CreateManager),
            Stage::CreateManager => if succeeded {
                Advance::Next(Stage::CreateMonitor)
            } else {
                Advance::Abort(StartError::ConfigInvalid)
            },
            Stage::CreateMonitor => if succeeded {
                Advance::Next(Stage::StartWorkers)
            } else {
                Advance::Abort(StartError::MonitorInit)
            },
            Stage::StartWorkers => if succeeded {
                Advance::Next(Stage::InstallSignals)
            } else {
                Advance::Abort(StartError::RpcBind)
            },
            Stage::InstallSignals => Advance::Next(Stage::Serve),
            Stage::Serve => Advance::Next(Stage::Serve),
        }
    }

    /// What follows a step that succeeded or failed.
    #[verifier::when_used_as_spec(spec_after)]
    pub fn after(self, succeeded: bool) -> (advance: Advance)
        ensures
            advance == self.spec_after(succeeded),
    {
        match self {
            Stage::LoadHistory => Advance::Next(Stage::CreateManager),
            Stage::CreateManager => if succeeded {
                Advance::Next(Stage::CreateMonitor)
            } else {
                Advance::Abort(StartError::ConfigInvalid)
            },
            Stage::CreateMonitor => if succeeded {
                Advance::Next(Stage::StartWorkers)
            } else {
                Advance::Abort(StartError::MonitorInit)
            },
            Stage::StartWorkers => if succeeded {
                Advance::Next(Stage::InstallSignals)
            } else {
                Advance::Abort(StartError::RpcBind)
            },
            Stage::InstallSignals => Advance::Next(Stage::Serve),
            Stage::Serve => Advance::Next(Stage::Serve),
        }
    }
}

/// The clips that the daemon starts with, and the warning to log: the clips
/// that were loaded, or none and the reason where loading failed.
pub fn initial_history(loaded: Result<Vec<Clip>, HistoryError>) -> (start: (
    Vec<Clip>,
    Option<HistoryError>,
))
    ensures
        match loaded {
            Ok(clips) => start.0 == clips && start.1 is None,
            Err(e) => start.0@.len() == 0 && start.1 == Some(e),
        },
{
    match loaded {
        Ok(clips) => (clips, None),
        Err(e) => (Vec::new(), Some(e)),
    }
}

/// The code that the daemon exits with: 0 after a clean shutdown, 1 where
/// it could not start.
pub fn exit_code(outcome: Result<(), StartError>) -> (code: u8)
    ensures
        code == 0 <==> outcome is Ok,
        outcome is Err ==> code == 1,
{
    match outcome {
        Ok(()) => 0,
        Err(_) => 1,
    }
}

/// Where the shutdown stands.
#[derive(Clone, Copy, Debug, PartialEq, Eq, Structural)]
pub struct Supervisor {
    /// The workers were told to stop.
    pub stopping: bool,
    pub pipeline_down: bool,
    pub rpc_down: bool,
}

impl Supervisor {
    /// A supervisor whose workers run.
    pub fn new() -> (supervisor: Supervisor)
        ensures
            supervisor == (Supervisor { stopping: false, pipeline_down: false, rpc_down: false }),
    {
        Supervisor { stopping: false, pipeline_down: false, rpc_down: false }
    }

    /// Whether the daemon is done: the workers were told to stop, and both
    /// are down.
    pub open spec fn spec_is_finished(self) -> bool {
        self.stopping && self.pipeline_down && self.rpc_down
    }

    /// Whether the daemon is done.
    #[verifier::when_used_as_spec(spec_is_finished)]
    pub fn is_finished(self) -> (finished: bool)
        ensures
            finished == self.spec_is_finished(),
    {
        self.stopping && self.pipeline_down && self.rpc_down
    }

    /// The supervisor after a worker went down.
    pub open spec fn with_down(self, worker: Worker) -> Supervisor {
        match worker {
            Worker::Pipeline => Supervisor { pipeline_down: true, ..self },
            Worker::Rpc => Supervisor { rpc_down: true, ..self },
        }
    }

    /// Takes a control message, and says whether the workers are to be told
    /// to stop now: the first request to shut down is handed on to both
    /// workers, a later one is not.
    pub fn on_message(&mut self, message: CtlMessage) -> (broadcast: bool)
        ensures
            *final(self) == (Supervisor { stopping: true, ..*old(self) }),
            broadcast == !old(self).stopping,
    {
        match message {
            CtlMessage::Shutdown => {
                let first = !self.stopping;
                self.stopping = true;
                first
            },
        }
    }

    /// Takes note that a worker went down, and says whether the daemon is
    /// done.
    pub fn on_worker_down(&mut self, worker: Worker) -> (finished: bool)
        ensures
            *final(self) == old(self).with_down(worker),
            finished == final(self).spec_is_finished(),
    {
        match worker {
            Worker::Pipeline => {
                self.pipeline_down = true;
            },
            Worker::Rpc => {
                self.rpc_down = true;
            },
        }
        self.is_finished()
    }
}

/// The daemon is done once the workers were told to stop and both went
/// down, in whatever order, and not before: not while a worker is up, and not
/// unless the workers were told to stop.
pub proof fn law_shutdown_joins_both(s: Supervisor, first: Worker, second: Worker)
    ensures
        first != second ==> (Supervisor { stopping: true, ..s }).with_down(first).with_down(
            second,
        ).spec_is_finished(),
        !s.pipeline_down && !s.rpc_down ==> !s.with_down(first).spec_is_finished(),
        !s.stopping ==> !s.with_down(first).with_down(second).spec_is_finished(),
{
}

} // verus!
