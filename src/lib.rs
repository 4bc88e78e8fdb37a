//! Rollback networking core: per-player input queues with prediction, and a
//! synchronizer that schedules rollbacks over a ring of saved frames.

pub mod constants;
pub mod error;
pub mod frame_input;
pub mod input_queue;
pub mod laws;
pub mod network;
pub mod session;
pub mod sync;
