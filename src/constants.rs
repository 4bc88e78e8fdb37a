use vstd::prelude::*;

verus! {

/// Most players a session is configured for.
pub const MAX_PLAYERS: usize = 4;

/// Seconds without a packet after which a peer counts as disconnected.
pub const DISCONNECT_TIMEOUT: u64 = 5;

} // verus!
