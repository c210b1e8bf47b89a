//! The life cycle of one connection, as its owner sees it.
//!
//! The owner starts the reader task when the port has opened, and on close
//! fires the cancellation signal and waits for the task to end. Which of
//! these is due in which phase is decided here; the owner carries it out.

use vstd::prelude::*;
use crate::config::classify_open_failure;
use crate::config::error_of;
use crate::config::settings_valid;
use crate::config::ConnectError;
use crate::config::OpenFailure;
use crate::config::SerialInfo;
use crate::reader::StopReason;

verus! {

/// Where a connection stands.
#[derive(Clone, Copy, PartialEq, Eq, Debug, Structural)]
pub enum Phase {
    /// Nothing was asked for yet.
    Idle,
    /// The settings passed validation and the port is being opened.
    Connecting,
    /// The port is open and the reader task runs.
    Running,
    /// Close was asked for; the task has been signalled and is awaited.
    Closing,
    /// The task has ended after a close.
    Closed,
    /// Opening failed, for this reason. No task exists and none will.
    Failed(ConnectError),
}

/// What a call of close has to do.
#[derive(Clone, Copy, PartialEq, Eq, Debug, Structural)]
pub enum CloseAction {
    /// Fire the cancellation signal, wait for the task, then report the join.
    SignalAndJoin,
    /// Nothing: no task runs.
    Nothing,
}

/// The phase after a request to open with settings that are valid or not.
pub open spec fn phase_after_request(phase: Phase, valid: bool) -> Phase {
    match phase {
        Phase::Idle => if valid {
            Phase::Connecting
        } else {
            Phase::Failed(ConnectError::InvalidConfig)
        },
        other => other,
    }
}

/// The phase after the port has opened (`None`) or failed to, with the
/// driver's report.
pub open spec fn phase_after_open(phase: Phase, outcome: Option<OpenFailure>) -> Phase {
    match phase {
        Phase::Connecting => match outcome {
            None => Phase::Running,
            Some(failure) => Phase::Failed(error_of(failure)),
        },
        other => other,
    }
}

/// The phase after a call of close.
pub open spec fn phase_after_close(phase: Phase) -> Phase {
    match phase {
        Phase::Running => Phase::Closing,
        other => other,
    }
}

/// What a call of close has to do in this phase.
pub open spec fn close_action(phase: Phase) -> CloseAction {
    match phase {
        Phase::Running => CloseAction::SignalAndJoin,
        _ => CloseAction::Nothing,
    }
}

/// The phase after the awaited task has ended.
pub open spec fn phase_after_join(phase: Phase) -> Phase {
    match phase {
        Phase::Closing => Phase::Closed,
        other => other,
    }
}

/// Why opening failed; `None` in every phase but `Failed`.
pub open spec fn error_in(phase: Phase) -> Option<ConnectError> {
    match phase {
        Phase::Failed(error) => Some(error),
        _ => None,
    }
}

/// Closing is idempotent: after one close, before or after the task was
/// joined, another close has nothing to do and changes nothing; and so has a
/// close of a connection that never opened.
pub proof fn lemma_close_is_idempotent(phase: Phase)
    ensures
        close_action(phase_after_close(phase)) == CloseAction::Nothing,
        phase_after_close(phase_after_close(phase)) == phase_after_close(phase),
        close_action(phase_after_join(phase_after_close(phase))) == CloseAction::Nothing,
        phase_after_close(phase_after_join(phase_after_close(phase))) == phase_after_join(
            phase_after_close(phase),
        ),
        phase != Phase::Running ==> close_action(phase) == CloseAction::Nothing
            && phase_after_close(phase) == phase,
{
}

/// A connection has at most one reader task: the only step into `Running`
/// from another phase is an open port in `Connecting`, and the only step
/// into `Connecting` is a valid request in `Idle`, to which no step leads
/// back.
pub proof fn lemma_one_task(phase: Phase, outcome: Option<OpenFailure>, valid: bool)
    ensures
        phase_after_request(phase, valid) == Phase::Running ==> phase == Phase::Running,
        phase_after_close(phase) == Phase::Running ==> phase == Phase::Running,
        phase_after_join(phase) == Phase::Running ==> phase == Phase::Running,
        phase_after_open(phase, outcome) == Phase::Running ==> phase == Phase::Running || (phase
            == Phase::Connecting && outcome is None),
        phase_after_request(phase, valid) == Phase::Connecting ==> phase == Phase::Connecting
            || (phase == Phase::Idle && valid),
        phase_after_open(phase, outcome) != Phase::Connecting,
        phase_after_close(phase) == Phase::Connecting ==> phase == Phase::Connecting,
        phase_after_join(phase) == Phase::Connecting ==> phase == Phase::Connecting,
        phase_after_request(phase, valid) == Phase::Idle ==> phase == Phase::Idle,
        phase_after_open(phase, outcome) == Phase::Idle ==> phase == Phase::Idle,
        phase_after_close(phase) == Phase::Idle ==> phase == Phase::Idle,
        phase_after_join(phase) == Phase::Idle ==> phase == Phase::Idle,
{
}

/// A failed connection stays failed, with the same error.
pub proof fn lemma_failed_is_final(
    error: ConnectError,
    outcome: Option<OpenFailure>,
    valid: bool,
)
    ensures
        phase_after_request(Phase::Failed(error), valid) == Phase::Failed(error),
        phase_after_open(Phase::Failed(error), outcome) == Phase::Failed(error),
        phase_after_close(Phase::Failed(error)) == Phase::Failed(error),
        phase_after_join(Phase::Failed(error)) == Phase::Failed(error),
        close_action(Phase::Failed(error)) == CloseAction::Nothing,
{
}

/// The life cycle of one connection.
#[derive(Clone, Copy, Debug)]
pub struct Lifecycle {
    phase: Phase,
    read_failed: bool,
}

impl Lifecycle {
    /// The current phase.
    pub closed spec fn phase(&self) -> Phase {
        self.phase
    }

    /// Whether the reader task has ended on a lost device.
    pub closed spec fn read_failed(&self) -> bool {
        self.read_failed
    }

    /// Takes up a request to open with `config`. Valid settings lead to
    /// `Connecting`; others fail at once with `InvalidConfig`, before any
    /// port is touched.
    pub fn new(config: &SerialInfo) -> (life: Lifecycle)
        ensures
            life.phase() == phase_after_request(
                Phase::Idle,
                settings_valid(config.data_bits, config.stop_bits),
            ),
            !life.read_failed(),
    {
        match config.validate() {
            Ok(_) => Lifecycle { phase: Phase::Connecting, read_failed: false },
            Err(e) => Lifecycle { phase: Phase::Failed(e), read_failed: false },
        }
    }

    /// Records how opening the port went: `None` for an open port, else the
    /// driver's report. In `Connecting` an open port leads to `Running`, and
    /// the caller then starts the reader task; a report leads to `Failed`
    /// with the error that stands for it. In any other phase nothing
    /// changes. The result is the error of a failed connection, old or new.
    pub fn opened(&mut self, outcome: Option<OpenFailure>) -> (result: Result<(), ConnectError>)
        ensures
            final(self).phase() == phase_after_open(old(self).phase(), outcome),
            final(self).read_failed() == old(self).read_failed(),
            result == match error_in(final(self).phase()) {
                Some(e) => Err::<(), ConnectError>(e),
                None => Ok::<(), ConnectError>(()),
            },
    {
        match self.phase {
            Phase::Connecting => match outcome {
                None => {
                    self.phase = Phase::Running;
                    Ok(())
                },
                Some(failure) => {
                    let error = classify_open_failure(failure);
                    self.phase = Phase::Failed(error);
                    Err(error)
                },
            },
            Phase::Failed(error) => Err(error),
            _ => Ok(()),
        }
    }

    /// Takes up a call of close. In `Running` the phase becomes `Closing`
    /// and the caller must signal and await the task; in every other phase
    /// nothing changes and nothing is to be done.
    pub fn close(&mut self) -> (action: CloseAction)
        ensures
            final(self).phase() == phase_after_close(old(self).phase()),
            action == close_action(old(self).phase()),
            final(self).read_failed() == old(self).read_failed(),
    {
        match self.phase {
            Phase::Running => {
                self.phase = Phase::Closing;
                CloseAction::SignalAndJoin
            },
            _ => CloseAction::Nothing,
        }
    }

    /// Records that the awaited task has ended: `Closing` becomes `Closed`.
    pub fn joined(&mut self)
        ensures
            final(self).phase() == phase_after_join(old(self).phase()),
            final(self).read_failed() == old(self).read_failed(),
    {
        match self.phase {
            Phase::Closing => {
                self.phase = Phase::Closed;
            },
            _ => {},
        }
    }

    /// Records why the reader task ended. A lost device is kept as the
    /// connection's terminal read error; the phase stays, so that a later
    /// close still runs its course.
    pub fn reader_stopped(&mut self, reason: StopReason)
        ensures
            final(self).phase() == old(self).phase(),
            final(self).read_failed() == (old(self).read_failed() || reason
                == StopReason::DeviceLost),
    {
        match reason {
            StopReason::DeviceLost => {
                self.read_failed = true;
            },
            _ => {},
        }
    }

    /// The current phase.
    pub fn current_phase(&self) -> (phase: Phase)
        ensures
            phase == self.phase(),
    {
        self.phase
    }

    /// Why opening failed; `None` where it has not.
    pub fn connect_error(&self) -> (error: Option<ConnectError>)
        ensures
            error == error_in(self.phase()),
    {
        match self.phase {
            Phase::Failed(error) => Some(error),
            _ => None,
        }
    }

    /// Whether the reader task has ended on a lost device.
    pub fn has_read_failed(&self) -> (failed: bool)
        ensures
            failed == self.read_failed(),
    {
        self.read_failed
    }
}

} // verus!
