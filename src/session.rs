use crate::error::{BackendError, SyncError};
use crate::frame_input::{FrameSize, GameInput, GameInputFrame, RollbackState, SaveFrame};
use crate::network::{ConnectionStatus, Event, UdpEvent};
use crate::sync::{Sync, SyncView, NUM_PLAYERS};
use vstd::prelude::*;
use vstd::std_specs::cmp::PartialEqSpec;

verus! {

/// Where a player's inputs come from.
#[derive(Debug, PartialEq, Eq, Structural, Clone, Copy)]
pub enum PlayerRole {
    Local,
    Remote,
    Spectator,
}

/// A player added to a session.
#[derive(Debug, PartialEq, Eq, Structural, Clone, Copy)]
pub struct PeerRecord {
    pub role: PlayerRole,
    pub status: ConnectionStatus,
}

/// The rollback a session is carrying out.
#[derive(Debug, PartialEq, Eq, Structural, Clone, Copy)]
pub struct InRollback {
    pub load_frame: RollbackState,
}

/// Phase of a session; each phase allows its own operations.
#[derive(Debug, PartialEq, Eq, Structural, Clone, Copy)]
pub enum SessionState {
    /// Players are being added.
    Setup,
    Normal,
    /// The host replays frames after loading a snapshot.
    InRollback(InRollback),
    /// The replay is done and waits for `post_rollback`.
    PostRollback,
}

/// The abstract state of a session.
pub ghost struct SessionView<T> {
    pub sync: SyncView<T>,
    pub num_players: u8,
    pub state: SessionState,
    /// Slot `n - 1` describes player `n` once it is added.
    pub players: Seq<Option<PeerRecord>>,
    /// Frames advanced since the rollback in progress started.
    pub rollback_steps: FrameSize,
}

/// A synchronizer error as a session error.
pub open spec fn backend_result<R>(r: Result<R, SyncError>) -> Result<R, BackendError> {
    match r {
        Ok(v) => Ok(v),
        Err(e) => Err(BackendError::SyncError(e)),
    }
}

/// The host event a peer event is reported as.
pub open spec fn event_for<T>(e: UdpEvent<T>) -> Option<Event> {
    match e {
        UdpEvent::Input(_) => None,
        UdpEvent::Connected => Some(Event::ConnectedToPeer),
        UdpEvent::Synchronizing => Some(Event::SynchronizingWithPeer),
        UdpEvent::Synchronized => Some(Event::SynchronizedWithPeer),
        UdpEvent::Disconnected => Some(Event::DisconnectedFromPeer),
        UdpEvent::NetworkInterrupted => Some(Event::ConnectionInterrupted),
        UdpEvent::NetworkResumed => Some(Event::ConnectionResumed),
    }
}

impl<T: PartialEq> SessionView<T> {
    pub open spec fn all_added(self) -> bool {
        forall|i: int| 0 <= i < self.players.len() ==> #[trigger] self.players[i] is Some
    }

    pub open spec fn wf(self) -> bool {
        &&& self.sync.wf()
        &&& 1 <= self.num_players <= NUM_PLAYERS
        &&& self.players.len() == self.num_players
        &&& (self.state is Setup <==> !self.all_added())
        &&& match self.state {
            SessionState::InRollback(ir) => {
                &&& ir.load_frame.frame + ir.load_frame.num_steps <= FrameSize::MAX
                &&& self.sync.target_post_roll_back_frame == Some(
                    (ir.load_frame.frame + ir.load_frame.num_steps) as FrameSize,
                )
                &&& self.sync.frame_count == ir.load_frame.frame + self.rollback_steps
                &&& self.rollback_steps < ir.load_frame.num_steps
            },
            SessionState::PostRollback => self.sync.target_post_roll_back_frame == Some(
                self.sync.frame_count,
            ),
            _ => self.sync.target_post_roll_back_frame is None,
        }
    }

    /// Whether `n` is the number of a remote player of the session.
    pub open spec fn is_remote(self, n: u8) -> bool {
        &&& 1 <= n <= self.players.len()
        &&& self.players[n - 1] matches Some(p) && p.role == PlayerRole::Remote
    }

    /// State and result of `handle_udp_event(n, event)`.
    pub open spec fn udp_event_result(self, n: u8, event: UdpEvent<T>) -> (
        SessionView<T>,
        Result<Option<Event>, BackendError>,
    ) {
        if !self.is_remote(n) {
            (self, Err(BackendError::NotRemotePlayer(n)))
        } else {
            let p = self.players[n - 1]->Some_0;
            match event {
                UdpEvent::Input(input) => {
                    let queue = (n - 1) as u8;
                    let stale = match (p.status, input.frame) {
                        (ConnectionStatus::Disconnected, _) => true,
                        (ConnectionStatus::LastFrame(Some(l)), Some(f)) => f <= l,
                        _ => false,
                    };
                    if stale || !self.sync.input_fits(queue, input) {
                        (self, Ok(None))
                    } else {
                        let (s, r) = self.sync.add_input_result(queue, input);
                        match r {
                            Err(e) => (
                                SessionView { sync: s, ..self },
                                Err(BackendError::SyncError(e)),
                            ),
                            Ok(_) => (
                                SessionView {
                                    sync: s,
                                    players: self.players.update(
                                        n - 1,
                                        Some(
                                            PeerRecord {
                                                role: p.role,
                                                status: ConnectionStatus::LastFrame(input.frame),
                                            },
                                        ),
                                    ),
                                    ..self
                                },
                                Ok(None),
                            ),
                        }
                    }
                },
                UdpEvent::Disconnected => (
                    SessionView {
                        sync: SyncView {
                            disconnected: self.sync.disconnected.update(n - 1, true),
                            ..self.sync
                        },
                        players: self.players.update(
                            n - 1,
                            Some(PeerRecord { role: p.role, status: ConnectionStatus::Disconnected }),
                        ),
                        ..self
                    },
                    Ok(event_for(event)),
                ),
                _ => (self, Ok(event_for(event))),
            }
        }
    }
}

/// A peer-to-peer session: the synchronizer behind a phase-checked API.
#[derive(Debug)]
pub struct Peer2PeerBackend<T> {
    sync: Sync<T>,
    num_players: u8,
    state: SessionState,
    players: Vec<Option<PeerRecord>>,
    rollback_steps: FrameSize,
}

impl<T> View for Peer2PeerBackend<T> {
    type V = SessionView<T>;

    closed spec fn view(&self) -> SessionView<T> {
        SessionView {
            sync: self.sync@,
            num_players: self.num_players,
            state: self.state,
            players: self.players@,
            rollback_steps: self.rollback_steps,
        }
    }
}

fn host_event<T: GameInput>(event: &UdpEvent<T>) -> (r: Option<Event>)
    ensures
        r == event_for(*event),
{
    match event {
        UdpEvent::Input(_) => None,
        UdpEvent::Connected => Some(Event::ConnectedToPeer),
        UdpEvent::Synchronizing => Some(Event::SynchronizingWithPeer),
        UdpEvent::Synchronized => Some(Event::SynchronizedWithPeer),
        UdpEvent::Disconnected => Some(Event::DisconnectedFromPeer),
        UdpEvent::NetworkInterrupted => Some(Event::ConnectionInterrupted),
        UdpEvent::NetworkResumed => Some(Event::ConnectionResumed),
    }
}

impl<T: GameInput> Peer2PeerBackend<T> {
    /// A session in setup, expecting players `1..=num_players`.
    pub fn new(max_prediction_frames: FrameSize, num_players: u8) -> (r: Self)
        requires
            1 <= num_players <= NUM_PLAYERS,
        ensures
            r@.wf(),
            r@.state == SessionState::Setup,
            r@.num_players == num_players,
            r@.sync.max_prediction_frames == max_prediction_frames,
            r@.sync.frame_count == 0,
            r@.sync.last_confirmed_frame is None,
            r@.sync.target_post_roll_back_frame is None,
            r@.sync.saved_states.len() == 0,
            r@.rollback_steps == 0,
            forall|i: int| 0 <= i < num_players ==> #[trigger] r@.players[i] is None,
    {
        let mut players: Vec<Option<PeerRecord>> = Vec::new();
        let mut i: u8 = 0;
        while i < num_players
            invariant
                i <= num_players,
                players@.len() == i,
                forall|j: int| 0 <= j < i ==> #[trigger] players@[j] is None,
            decreases num_players - i,
        {
            players.push(None);
            i = i + 1;
        }
        let r = Peer2PeerBackend {
            sync: Sync::new(max_prediction_frames),
            num_players,
            state: SessionState::Setup,
            players,
            rollback_steps: 0,
        };
        proof {
            assert(r@.players[0] is None);
        }
        r
    }

    pub fn state(&self) -> (r: SessionState)
        ensures
            r == self@.state,
    {
        self.state
    }

    pub fn sync(&self) -> (r: &Sync<T>)
        ensures
            r@ == self@.sync,
    {
        &self.sync
    }

    fn all_added(&self) -> (r: bool)
        ensures
            r == self@.all_added(),
    {
        let mut i: usize = 0;
        while i < self.players.len()
            invariant
                i <= self.players@.len(),
                forall|j: int| 0 <= j < i ==> #[trigger] self.players@[j] is Some,
            decreases self.players@.len() - i,
        {
            if self.players[i].is_none() {
                return false;
            }
            i = i + 1;
        }
        true
    }

    /// Adds player `player_number`; the session leaves setup once every
    /// expected player is added.
    pub fn add_player(&mut self, player_number: u8, role: PlayerRole) -> (r: Result<
        (),
        BackendError,
    >)
        requires
            old(self)@.wf(),
        ensures
            final(self)@.wf(),
            old(self)@.state != SessionState::Setup ==> final(self)@ == old(self)@ && r == Err::<
                (),
                BackendError,
            >(BackendError::InvalidState),
            old(self)@.state == SessionState::Setup && !(1 <= player_number
                <= old(self)@.num_players) ==> final(self)@ == old(self)@ && r == Err::<
                (),
                BackendError,
            >(
                BackendError::PlayerOutOfRange {
                    given: player_number,
                    num_players: old(self)@.num_players,
                },
            ),
            old(self)@.state == SessionState::Setup && 1 <= player_number
                <= old(self)@.num_players && old(self)@.players[player_number - 1] is Some
                ==> final(self)@ == old(self)@ && r == Err::<(), BackendError>(
                BackendError::DuplicatePlayer(player_number),
            ),
            old(self)@.state == SessionState::Setup && 1 <= player_number
                <= old(self)@.num_players && old(self)@.players[player_number - 1] is None ==> {
                &&& r is Ok
                &&& final(self)@.players == old(self)@.players.update(
                    player_number - 1,
                    Some(PeerRecord { role, status: ConnectionStatus::LastFrame(None) }),
                )
                &&& final(self)@.state == if final(self)@.all_added() {
                    SessionState::Normal
                } else {
                    SessionState::Setup
                }
                &&& final(self)@.sync == old(self)@.sync
                &&& final(self)@.num_players == old(self)@.num_players
            },
    {
        match self.state {
            SessionState::Setup => {},
            _ => {
                return Err(BackendError::InvalidState);
            },
        }
        if player_number < 1 || player_number > self.num_players {
            return Err(
                BackendError::PlayerOutOfRange { given: player_number, num_players: self.num_players },
            );
        }
        let slot = (player_number - 1) as usize;
        if self.players[slot].is_some() {
            return Err(BackendError::DuplicatePlayer(player_number));
        }
        self.players.set(
            slot,
            Some(PeerRecord { role, status: ConnectionStatus::LastFrame(None) }),
        );
        if self.all_added() {
            self.state = SessionState::Normal;
        }
        Ok(())
    }

    /// Adds the local player's input for the next frame; only in the normal
    /// phase.
    pub fn add_local_input(&mut self, queue: u8, input: GameInputFrame<T>) -> (r: Result<
        GameInputFrame<T>,
        BackendError,
    >)
        requires
            old(self)@.wf(),
            <T as PartialEqSpec>::obeys_eq_spec(),
            old(self)@.sync.input_fits(queue, input),
        ensures
            final(self)@.wf(),
            old(self)@.state != SessionState::Normal ==> final(self)@ == old(self)@ && r == Err::<
                GameInputFrame<T>,
                BackendError,
            >(BackendError::InvalidState),
            old(self)@.state == SessionState::Normal ==> final(self)@ == (SessionView {
                sync: old(self)@.sync.add_local_result(queue, input).0,
                ..old(self)@
            }) && r == backend_result(old(self)@.sync.add_local_result(queue, input).1),
    {
        match self.state {
            SessionState::Normal => {},
            _ => {
                return Err(BackendError::InvalidState);
            },
        }
        match self.sync.add_local_input(queue, input) {
            Ok(i) => Ok(i),
            Err(e) => Err(BackendError::SyncError(e)),
        }
    }

    /// The inputs of every player for the current frame; in the normal and
    /// rollback phases.
    pub fn sync_inputs(&mut self) -> (r: Result<Vec<Option<T>>, BackendError>)
        requires
            old(self)@.wf(),
        ensures
            final(self)@.wf(),
            !(old(self)@.state is Normal || old(self)@.state is InRollback) ==> final(self)@
                == old(self)@ && r is Err && r->Err_0 == BackendError::InvalidState,
            (old(self)@.state is Normal || old(self)@.state is InRollback) ==> {
                &&& final(self)@ == (SessionView {
                    sync: old(self)@.sync.synchronize_result().0,
                    ..old(self)@
                })
                &&& match (r, old(self)@.sync.synchronize_result().1) {
                    (Ok(v), Ok(s)) => v@ == s,
                    (Err(e), Err(f)) => e == BackendError::SyncError(f),
                    _ => false,
                }
            },
    {
        match self.state {
            SessionState::Normal => {},
            SessionState::InRollback(_) => {},
            _ => {
                return Err(BackendError::InvalidState);
            },
        }
        match self.sync.synchronize_inputs() {
            Ok(v) => Ok(v),
            Err(e) => Err(BackendError::SyncError(e)),
        }
    }

    /// Advances one frame. In the normal phase it then checks for a
    /// misprediction and, if one is found, starts a rollback and returns it;
    /// in the rollback phase it counts the replayed frame and moves on once
    /// the rollback's steps are done.
    pub fn increment_frame(&mut self) -> (r: Result<
        (SaveFrame, Option<RollbackState>),
        BackendError,
    >)
        requires
            old(self)@.wf(),
            old(self)@.sync.frame_count < FrameSize::MAX,
        ensures
            final(self)@.wf(),
            (old(self)@.state is Setup || old(self)@.state is PostRollback) ==> final(self)@
                == old(self)@ && r is Err && r->Err_0 == BackendError::InvalidState,
            old(self)@.state is Normal ==> ({
                let s1 = old(self)@.sync.incremented();
                let save = SaveFrame { frame: s1.frame_count };
                match s1.seek_frame() {
                    None => final(self)@ == (SessionView { sync: s1, ..old(self)@ }) && r == Ok::<
                        (SaveFrame, Option<RollbackState>),
                        BackendError,
                    >((save, None)),
                    Some(k) => {
                        &&& final(self)@.sync == s1.rollback_result(k).0
                        &&& final(self)@.players == old(self)@.players
                        &&& match s1.rollback_result(k).1 {
                            Ok(rb) => r == Ok::<(SaveFrame, Option<RollbackState>), BackendError>(
                                (save, Some(rb)),
                            ) && final(self)@.state == if rb.num_steps == 0 {
                                SessionState::PostRollback
                            } else {
                                SessionState::InRollback(InRollback { load_frame: rb })
                            },
                            Err(e) => r == Err::<(SaveFrame, Option<RollbackState>), BackendError>(
                                BackendError::SyncError(e),
                            ) && final(self)@.state == SessionState::Normal,
                        }
                    },
                }
            }),
            old(self)@.state matches SessionState::InRollback(ir) ==> {
                &&& final(self)@.sync == old(self)@.sync.incremented()
                &&& final(self)@.players == old(self)@.players
                &&& r == Ok::<(SaveFrame, Option<RollbackState>), BackendError>(
                    (SaveFrame { frame: (old(self)@.sync.frame_count + 1) as FrameSize }, None),
                )
                &&& final(self)@.state == if old(self)@.rollback_steps + 1
                    == ir.load_frame.num_steps {
                    SessionState::PostRollback
                } else {
                    old(self)@.state
                }
            },
    {
        match self.state {
            SessionState::Normal => {
                let save = self.sync.increment_frame();
                match self.sync.check_simulation() {
                    Ok(None) => Ok((save, None)),
                    Ok(Some(rb)) => {
                        self.rollback_steps = 0;
                        if rb.num_steps == 0 {
                            self.state = SessionState::PostRollback;
                        } else {
                            self.state = SessionState::InRollback(InRollback { load_frame: rb });
                        }
                        Ok((save, Some(rb)))
                    },
                    Err(e) => Err(BackendError::SyncError(e)),
                }
            },
            SessionState::InRollback(ir) => {
                let save = self.sync.increment_frame();
                self.rollback_steps = self.rollback_steps + 1;
                if self.rollback_steps == ir.load_frame.num_steps {
                    self.state = SessionState::PostRollback;
                }
                Ok((save, None))
            },
            _ => Err(BackendError::InvalidState),
        }
    }

    /// Ends a finished rollback and returns to the normal phase.
    pub fn post_rollback(&mut self) -> (r: Result<(), BackendError>)
        requires
            old(self)@.wf(),
        ensures
            final(self)@.wf(),
            old(self)@.state != SessionState::PostRollback ==> final(self)@ == old(self)@ && r
                == Err::<(), BackendError>(BackendError::InvalidState),
            old(self)@.state == SessionState::PostRollback ==> r is Ok && final(self)@ == (
            SessionView {
                sync: old(self)@.sync.post_rollback_result().0,
                state: SessionState::Normal,
                ..old(self)@
            }),
    {
        match self.state {
            SessionState::PostRollback => {},
            _ => {
                return Err(BackendError::InvalidState);
            },
        }
        match self.sync.post_roll_back() {
            Ok(()) => {
                self.state = SessionState::Normal;
                Ok(())
            },
            Err(e) => Err(BackendError::SyncError(e)),
        }
    }

    /// Routes an event of remote player `player_number`'s connection: a new
    /// input goes to that player's queue (stale ones, and any after a
    /// disconnection, are dropped), a disconnection is recorded, and the
    /// event is reported to the host where it has a meaning there.
    pub fn handle_udp_event(&mut self, player_number: u8, event: UdpEvent<T>) -> (r: Result<
        Option<Event>,
        BackendError,
    >)
        requires
            old(self)@.wf(),
            <T as PartialEqSpec>::obeys_eq_spec(),
        ensures
            final(self)@.wf(),
            final(self)@ == old(self)@.udp_event_result(player_number, event).0,
            r == old(self)@.udp_event_result(player_number, event).1,
    {
        if player_number < 1 || player_number as usize > self.players.len() {
            return Err(BackendError::NotRemotePlayer(player_number));
        }
        let slot = (player_number - 1) as usize;
        let peer = match self.players[slot] {
            Some(p) => p,
            None => {
                return Err(BackendError::NotRemotePlayer(player_number));
            },
        };
        match peer.role {
            PlayerRole::Remote => {},
            _ => {
                return Err(BackendError::NotRemotePlayer(player_number));
            },
        }
        match event {
            UdpEvent::Input(input) => {
                let queue = (player_number - 1) as u8;
                let stale = match (peer.status, input.frame) {
                    (ConnectionStatus::Disconnected, _) => true,
                    (ConnectionStatus::LastFrame(Some(l)), Some(f)) => f <= l,
                    _ => false,
                };
                if stale || !self.sync.input_fits(queue, &input) {
                    return Ok(None);
                }
                match self.sync.add_remote_input(queue, input) {
                    Ok(_) => {
                        self.players.set(
                            slot,
                            Some(
                                PeerRecord {
                                    role: peer.role,
                                    status: ConnectionStatus::LastFrame(input.frame),
                                },
                            ),
                        );
                        proof {
                            lemma_fill_slot_keeps_added(old(self)@, self@);
                        }
                        Ok(None)
                    },
                    Err(e) => Err(BackendError::SyncError(e)),
                }
            },
            UdpEvent::Disconnected => {
                let _r = self.sync.set_disconnected((player_number - 1) as u8);
                self.players.set(
                    slot,
                    Some(PeerRecord { role: peer.role, status: ConnectionStatus::Disconnected }),
                );
                proof {
                    lemma_fill_slot_keeps_added(old(self)@, self@);
                }
                Ok(host_event(&event))
            },
            _ => Ok(host_event(&event)),
        }
    }
}

proof fn lemma_fill_slot_keeps_added<T: PartialEq>(a: SessionView<T>, b: SessionView<T>)
    requires
        b.players.len() == a.players.len(),
        forall|i: int|
            0 <= i < a.players.len() ==> (a.players[i] is Some <==> b.players[i] is Some),
    ensures
        a.all_added() == b.all_added(),
{
    if a.all_added() {
        assert forall|i: int| 0 <= i < b.players.len() implies #[trigger] b.players[i] is Some by {
            assert(a.players[i] is Some);
        }
    }
    if b.all_added() {
        assert forall|i: int| 0 <= i < a.players.len() implies #[trigger] a.players[i] is Some by {
            assert(b.players[i] is Some);
        }
    }
}

} // verus!
