//! The pipeline worker's decisions: what an event of the monitor does to the
//! history, when the history is written out, and when a clip is mirrored to
//! the other selection.

use vstd::prelude::*;
use crate::clip::ClipboardKind;
use crate::config::LogLevel;
use crate::manager::laws::{lemma_insert_valid, lemma_mark_valid, law_inserted_is_head, lemma_position_of_data};
use crate::manager::model::ManagerView;
use crate::manager::{ClipboardManager, ManagerError};
use crate::monitor::{ClipboardMonitor, MonitorView};

verus! {

/// Where the writing of the history file stands. At most one write is under
/// way, and at most one more is asked for: whatever is inserted while a write
/// is under way goes out together in the next.
#[derive(Clone, Copy, Debug, PartialEq, Eq, Structural)]
pub enum SaveState {
    /// No write is under way.
    Idle,
    /// A write is under way.
    Saving,
    /// A write is under way, and another follows it.
    SavingQueued,
}

impl SaveState {
    /// The state after a write was asked for.
    pub open spec fn requested(self) -> SaveState {
        match self {
            SaveState::Idle => SaveState::Saving,
            SaveState::Saving => SaveState::SavingQueued,
            SaveState::SavingQueued => SaveState::SavingQueued,
        }
    }

    /// The state after the write under way ended.
    pub open spec fn completed(self) -> SaveState {
        match self {
            SaveState::Idle => SaveState::Idle,
            SaveState::Saving => SaveState::Idle,
            SaveState::SavingQueued => SaveState::Saving,
        }
    }
}

/// How far the worker is on its way out.
#[derive(Clone, Copy, Debug, PartialEq, Eq, Structural)]
pub enum Phase {
    /// Events are taken.
    Running,
    /// Shutdown was asked for; the write under way is awaited.
    Draining,
    /// The last snapshot is being written.
    Finalizing,
    /// The worker is done.
    Stopped,
}

/// What the worker does next.
#[derive(Clone, Copy, Debug, PartialEq, Eq, Structural)]
pub enum Step {
    /// Nothing: go on waiting.
    Wait,
    /// Start a write of the history as it is now.
    Save,
    /// Leave.
    Exit,
}

/// What an event came to.
#[derive(Clone, Copy, Debug, PartialEq, Eq, Structural)]
pub enum Reaction {
    /// The worker takes no events any more.
    Ignored,
    /// The manager refused the payload.
    Rejected(ManagerError),
    /// The payload is the head of the history under `id`. `inserted` says
    /// whether it was new, `save` whether a write of the history is to be
    /// started now, and `mirror` to which selection the payload is to be
    /// written.
    Recorded { id: u64, inserted: bool, save: bool, mirror: Option<ClipboardKind> },
}

impl Reaction {
    /// The level at which an event is logged: an insertion at info, a
    /// duplicate at debug; a refusal is a warning.
    pub open spec fn spec_log_level(self) -> Option<LogLevel> {
        match self {
            Reaction::Ignored => None,
            Reaction::Rejected(_) => Some(LogLevel::Warn),
            Reaction::Recorded { inserted, .. } => if inserted {
                Some(LogLevel::Info)
            } else {
                Some(LogLevel::Debug)
            },
        }
    }

    /// The level at which the event is logged, if it is.
    #[verifier::when_used_as_spec(spec_log_level)]
    pub fn log_level(self) -> (level: Option<LogLevel>)
        ensures
            level == self.spec_log_level(),
    {
        match self {
            Reaction::Ignored => None,
            Reaction::Rejected(_) => Some(LogLevel::Warn),
            Reaction::Recorded { id: _, inserted, save: _, mirror: _ } => if inserted {
                Some(LogLevel::Info)
            } else {
                Some(LogLevel::Debug)
            },
        }
    }
}

/// The worker's own state.
#[derive(Clone, Copy, Debug, PartialEq, Eq, Structural)]
pub struct PipelineWorker {
    pub phase: Phase,
    pub save: SaveState,
}

/// The worker together with the manager and the monitor that it works on.
pub struct PipelineView {
    pub worker: PipelineWorker,
    pub manager: ManagerView,
    pub monitor: MonitorView,
}

impl PipelineView {
    /// Whether a payload that the manager holds under `id` after an event on
    /// `kind` is mirrored: both selections are enabled, and the clip is not
    /// the current one of the other selection.
    pub open spec fn mirrors(recorded: ManagerView, monitor: MonitorView, kind: ClipboardKind, id: u64)
        -> bool {
        &&& monitor.enabled(ClipboardKind::Clipboard)
        &&& monitor.enabled(ClipboardKind::Primary)
        &&& recorded.current(kind.spec_other()) != Some(id)
    }

    /// What an event comes to.
    pub open spec fn reaction(self, kind: ClipboardKind, data: Seq<u8>, timestamp: u64) -> Reaction {
        if self.worker.phase != Phase::Running {
            Reaction::Ignored
        } else if let Some(e) = self.manager.insert_error(data) {
            Reaction::Rejected(e)
        } else {
            let id = self.manager.insert_id(data);
            let inserted = !self.manager.has_data(data);
            let recorded = self.manager.insert(kind, data, timestamp);
            Reaction::Recorded {
                id,
                inserted,
                save: inserted && self.worker.save == SaveState::Idle,
                mirror: if Self::mirrors(recorded, self.monitor, kind, id) {
                    Some(kind.spec_other())
                } else {
                    None
                },
            }
        }
    }

    /// The state after an event. A worker that is not running, and a payload
    /// that the manager refuses, change nothing. Else the payload is inserted;
    /// a new one asks for a write of the history; and a mirrored one is
    /// admitted by the monitor as a write to the other selection and becomes
    /// current there.
    pub open spec fn on_event(self, kind: ClipboardKind, data: Seq<u8>, timestamp: u64)
        -> PipelineView {
        match self.reaction(kind, data, timestamp) {
            Reaction::Ignored => self,
            Reaction::Rejected(_) => self,
            Reaction::Recorded { id, inserted, save, mirror } => {
                let recorded = self.manager.insert(kind, data, timestamp);
                PipelineView {
                    worker: PipelineWorker {
                        save: if inserted {
                            self.worker.save.requested()
                        } else {
                            self.worker.save
                        },
                        ..self.worker
                    },
                    manager: match mirror {
                        Some(other) => recorded.mark_as_current(id, other),
                        None => recorded,
                    },
                    monitor: match mirror {
                        Some(other) => self.monitor.publish(other, data),
                        None => self.monitor,
                    },
                }
            },
        }
    }
}

impl PipelineWorker {
    /// A worker that takes events, with no write under way.
    pub fn new() -> (worker: PipelineWorker)
        ensures
            worker == (PipelineWorker { phase: Phase::Running, save: SaveState::Idle }),
    {
        PipelineWorker { phase: Phase::Running, save: SaveState::Idle }
    }

    /// The worker after shutdown was asked for. A running worker with no
    /// write under way starts the last snapshot; one with a write under way
    /// awaits it first. A worker that is on its way out already stays as it
    /// is.
    pub open spec fn after_shutdown(self) -> PipelineWorker {
        match self.phase {
            Phase::Running => match self.save {
                SaveState::Idle => PipelineWorker {
                    phase: Phase::Finalizing,
                    save: SaveState::Saving,
                },
                _ => PipelineWorker { phase: Phase::Draining, save: self.save },
            },
            _ => self,
        }
    }

    /// What the worker does when shutdown is asked for.
    pub open spec fn shutdown_step(self) -> Step {
        match self.phase {
            Phase::Running => match self.save {
                SaveState::Idle => Step::Save,
                _ => Step::Wait,
            },
            Phase::Stopped => Step::Exit,
            _ => Step::Wait,
        }
    }

    /// The worker after a write ended. While running, the write that was
    /// asked for meanwhile starts. While draining, the last snapshot starts.
    /// Once the last snapshot is written the worker is done.
    pub open spec fn after_save(self) -> PipelineWorker {
        match self.phase {
            Phase::Running => PipelineWorker { phase: Phase::Running, save: self.save.completed() },
            Phase::Draining => PipelineWorker { phase: Phase::Finalizing, save: SaveState::Saving },
            Phase::Finalizing => PipelineWorker { phase: Phase::Stopped, save: SaveState::Idle },
            Phase::Stopped => self,
        }
    }

    /// What the worker does when a write ended.
    pub open spec fn save_step(self) -> Step {
        match self.phase {
            Phase::Running => match self.save {
                SaveState::SavingQueued => Step::Save,
                _ => Step::Wait,
            },
            Phase::Draining => Step::Save,
            Phase::Finalizing => Step::Exit,
            Phase::Stopped => Step::Exit,
        }
    }

    /// Takes an event of the monitor: inserts the payload into the history,
    /// asks for a write of the history where the payload was new, and mirrors
    /// the payload to the other selection where both selections are enabled
    /// and the clip is not current there already.
    pub fn on_event(
        &mut self,
        manager: &mut ClipboardManager,
        monitor: &mut ClipboardMonitor,
        kind: ClipboardKind,
        data: &[u8],
        timestamp: u64,
    ) -> (reaction: Reaction)
        requires
            old(manager).wf(),
        ensures
            final(manager).wf(),
            reaction == (PipelineView {
                worker: *old(self),
                manager: old(manager)@,
                monitor: old(monitor)@,
            }).reaction(kind, data@, timestamp),
            (PipelineView { worker: *final(self), manager: final(manager)@, monitor: final(monitor)@ })
                == (PipelineView {
                worker: *old(self),
                manager: old(manager)@,
                monitor: old(monitor)@,
            }).on_event(kind, data@, timestamp),
    {
        match self.phase {
            Phase::Running => {},
            _ => {
                return Reaction::Ignored;
            },
        }
        let (id, inserted) = match manager.insert(kind, data, timestamp) {
            Ok(done) => done,
            Err(e) => {
                return Reaction::Rejected(e);
            },
        };
        let mut save = false;
        if inserted {
            match self.save {
                SaveState::Idle => {
                    save = true;
                    self.save = SaveState::Saving;
                },
                _ => {
                    self.save = SaveState::SavingQueued;
                },
            }
        }
        let other = kind.other();
        let mut mirror: Option<ClipboardKind> = None;
        if monitor.is_enabled(ClipboardKind::Clipboard) && monitor.is_enabled(ClipboardKind::Primary) {
            let current = match manager.current(other) {
                Some(current) => current == id,
                None => false,
            };
            if !current {
                proof {
                    law_inserted_is_head(old(manager)@, kind, data@, timestamp);
                }
                let _admitted = monitor.publish(other, data);
                let _marked = manager.mark_as_current(id, other);
                mirror = Some(other);
            }
        }
        Reaction::Recorded { id, inserted, save, mirror }
    }

    /// Takes the request to shut down, and says what to do next: start the
    /// last snapshot, or await the write under way.
    pub fn on_shutdown(&mut self) -> (step: Step)
        ensures
            *final(self) == old(self).after_shutdown(),
            step == old(self).shutdown_step(),
    {
        match self.phase {
            Phase::Running => match self.save {
                SaveState::Idle => {
                    self.phase = Phase::Finalizing;
                    self.save = SaveState::Saving;
                    Step::Save
                },
                _ => {
                    self.phase = Phase::Draining;
                    Step::Wait
                },
            },
            Phase::Stopped => Step::Exit,
            _ => Step::Wait,
        }
    }

    /// Takes note that the write under way ended, and says what to do next.
    pub fn on_save_completed(&mut self) -> (step: Step)
        ensures
            *final(self) == old(self).after_save(),
            step == old(self).save_step(),
    {
        match self.phase {
            Phase::Running => match self.save {
                SaveState::SavingQueued => {
                    self.save = SaveState::Saving;
                    Step::Save
                },
                _ => {
                    self.save = SaveState::Idle;
                    Step::Wait
                },
            },
            Phase::Draining => {
                self.phase = Phase::Finalizing;
                self.save = SaveState::Saving;
                Step::Save
            },
            Phase::Finalizing => {
                self.phase = Phase::Stopped;
                self.save = SaveState::Idle;
                Step::Exit
            },
            Phase::Stopped => Step::Exit,
        }
    }
}

/// An event keeps the invariant of the history.
pub proof fn law_event_keeps_history_valid(
    state: PipelineView,
    kind: ClipboardKind,
    data: Seq<u8>,
    timestamp: u64,
)
    requires
        state.manager.valid(),
    ensures
        state.on_event(kind, data, timestamp).manager.valid(),
{
    let recorded = state.manager.insert(kind, data, timestamp);
    lemma_insert_valid(state.manager, kind, data, timestamp);
    lemma_mark_valid(recorded, state.manager.insert_id(data), kind.spec_other());
}

/// Mirroring does not loop. Where an event is mirrored to the other
/// selection, the monitor does not pass that write on when it comes back; and
/// were it passed on all the same, it would be a duplicate that is neither
/// written out nor mirrored again.
pub proof fn law_mirroring_does_not_loop(
    state: PipelineView,
    kind: ClipboardKind,
    data: Seq<u8>,
    timestamp: u64,
    timestamp_back: u64,
)
    requires
        state.manager.valid(),
        state.reaction(kind, data, timestamp) matches Reaction::Recorded { mirror: Some(_), .. },
    ensures
        !state.on_event(kind, data, timestamp).monitor.delivers(kind.spec_other(), data),
        state.on_event(kind, data, timestamp).reaction(kind.spec_other(), data, timestamp_back)
            == (Reaction::Recorded {
            id: state.manager.insert_id(data),
            inserted: false,
            save: false,
            mirror: None,
        }),
{
    let id = state.manager.insert_id(data);
    let other = kind.spec_other();
    let recorded = state.manager.insert(kind, data, timestamp);
    let after = state.on_event(kind, data, timestamp);
    lemma_insert_valid(state.manager, kind, data, timestamp);
    law_inserted_is_head(state.manager, kind, data, timestamp);
    lemma_mark_valid(recorded, id, other);
    assert(after.manager == recorded.mark_as_current(id, other));
    assert(after.manager.clips == recorded.clips);
    lemma_position_of_data(after.manager, 0);
    assert(after.manager.insert_id(data) == id);
    assert(after.manager.current(kind) == Some(id));
    let back = after.manager.insert(other, data, timestamp_back);
    assert(back.current(kind) == Some(id));
}

/// However many insertions ask for a write while one is under way, one
/// write follows it, and then none is left.
pub proof fn law_writes_coalesce(state: SaveState)
    ensures
        state.requested() != SaveState::Idle,
        state.requested().requested() == SaveState::SavingQueued,
        state.requested().requested().requested() == state.requested().requested(),
        SaveState::SavingQueued.completed() == SaveState::Saving,
        SaveState::Saving.completed() == SaveState::Idle,
{
}

/// A worker that is asked to shut down leaves after the write under way, if
/// there is one, and the last snapshot have ended, and not before.
pub proof fn law_shutdown_drains(worker: PipelineWorker)
    requires
        worker.phase == Phase::Running,
    ensures
        worker.save == SaveState::Idle ==> worker.shutdown_step() == Step::Save
            && worker.after_shutdown().save_step() == Step::Exit
            && worker.after_shutdown().after_save().phase == Phase::Stopped,
        worker.save != SaveState::Idle ==> worker.shutdown_step() == Step::Wait
            && worker.after_shutdown().save_step() == Step::Save
            && worker.after_shutdown().after_save().save_step() == Step::Exit
            && worker.after_shutdown().after_save().after_save().phase == Phase::Stopped,
{
}

} // verus!
