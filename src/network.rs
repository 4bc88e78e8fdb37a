use crate::frame_input::{FrameSize, GameInput, GameInputFrame};
use vstd::prelude::*;

verus! {

/// What is known of a remote peer's connection.
#[derive(Debug, PartialEq, Eq, Structural, Clone, Copy)]
pub enum ConnectionStatus {
    Disconnected,
    /// Connected; holds the newest frame received from the peer, if any.
    LastFrame(Option<FrameSize>),
}

impl ConnectionStatus {
    pub fn is_disconnected(&self) -> (r: bool)
        ensures
            r == (*self is Disconnected),
    {
        match self {
            ConnectionStatus::Disconnected => true,
            ConnectionStatus::LastFrame(_) => false,
        }
    }
}

/// A message sent between peers: one player's input at one frame.
#[derive(Debug, Clone, Copy)]
pub enum NetworkMessage<T> {
    Input(GameInputFrame<T>),
}

impl<T: GameInput> NetworkMessage<T> {
    pub fn make_input(input: &GameInputFrame<T>) -> (r: NetworkMessage<T>)
        ensures
            r == NetworkMessage::Input(*input),
    {
        NetworkMessage::Input(*input)
    }
}

/// Events a peer connection reports to the session.
#[derive(Debug, Clone, Copy)]
pub enum UdpEvent<T> {
    Input(GameInputFrame<T>),
    Connected,
    Synchronizing,
    Synchronized,
    Disconnected,
    NetworkInterrupted,
    NetworkResumed,
}

/// Events the session reports to the host.
#[derive(Debug, PartialEq, Eq, Structural, Clone, Copy)]
pub enum Event {
    ConnectedToPeer,
    SynchronizingWithPeer,
    SynchronizedWithPeer,
    Running,
    DisconnectedFromPeer,
    Timesync,
    ConnectionInterrupted,
    ConnectionResumed,
}

} // verus!
