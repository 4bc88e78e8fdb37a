use crate::frame_input::FrameSize;
use vstd::prelude::*;

verus! {

/// Failures of a single player's input queue.
#[derive(Debug, PartialEq, Eq, Structural, Clone, Copy)]
pub enum InputQueueError {
    NonSequentialUserInput { given: FrameSize, expected: FrameSize },
    NonSequentialRollbackInput { given: FrameSize, expected: FrameSize },
    BadFrameIndex { given: FrameSize, tail_frame: FrameSize },
    BadFrameRequest { given: FrameSize, first_incorrect_frame: FrameSize },
    BadResetPrediction { given: FrameSize, first_incorrect_frame: FrameSize },
    FrameNotFound(FrameSize),
    GetDurningPrediction,
    BadInput,
}

/// Failures of the synchronizer.
#[derive(Debug, PartialEq, Eq, Structural, Clone, Copy)]
pub enum SyncError {
    QueueError(InputQueueError),
    BadQueueHandle(u8),
    PredictionBarrierReached { frames_behind: FrameSize, max_prediction_frames: FrameSize },
    SimulationError { given: FrameSize, expected: FrameSize },
    StateNotFound(FrameSize),
    NotInRollback,
}

impl From<InputQueueError> for SyncError {
    fn from(inner: InputQueueError) -> (r: SyncError)
        ensures
            r == SyncError::QueueError(inner),
    {
        SyncError::QueueError(inner)
    }
}

impl vstd::std_specs::convert::FromSpecImpl<InputQueueError> for SyncError {
    open spec fn obeys_from_spec() -> bool {
        true
    }

    open spec fn from_spec(inner: InputQueueError) -> SyncError {
        SyncError::QueueError(inner)
    }
}

/// Failures of a session.
#[derive(Debug, PartialEq, Eq, Structural, Clone, Copy)]
pub enum BackendError {
    PlayerOutOfRange { given: u8, num_players: u8 },
    /// The player number was added before.
    DuplicatePlayer(u8),
    /// The player number does not belong to a remote player of the session.
    NotRemotePlayer(u8),
    /// The operation is not available in the session's current state.
    InvalidState,
    SyncError(SyncError),
}

impl From<SyncError> for BackendError {
    fn from(inner: SyncError) -> (r: BackendError)
        ensures
            r == BackendError::SyncError(inner),
    {
        BackendError::SyncError(inner)
    }
}

impl vstd::std_specs::convert::FromSpecImpl<SyncError> for BackendError {
    open spec fn obeys_from_spec() -> bool {
        true
    }

    open spec fn from_spec(inner: SyncError) -> BackendError {
        BackendError::SyncError(inner)
    }
}

} // verus!
