use rback::error::{BackendError, InputQueueError, SyncError};
use rback::frame_input::{GameInputFrame, RollbackState, SaveFrame};
use rback::network::{ConnectionStatus, Event, NetworkMessage, UdpEvent};
use rback::session::{InRollback, Peer2PeerBackend, PlayerRole, SessionState};

fn running_session() -> Peer2PeerBackend<u8> {
    let mut s: Peer2PeerBackend<u8> = Peer2PeerBackend::new(4, 2);
    s.add_player(1, PlayerRole::Local).unwrap();
    s.add_player(2, PlayerRole::Remote).unwrap();
    s
}

#[test]
fn setup_until_all_players_added() {
    let mut s: Peer2PeerBackend<u8> = Peer2PeerBackend::new(4, 2);
    assert_eq!(s.state(), SessionState::Setup);
    assert_eq!(s.sync_inputs().err(), Some(BackendError::InvalidState));
    assert_eq!(
        s.add_player(3, PlayerRole::Remote),
        Err(BackendError::PlayerOutOfRange { given: 3, num_players: 2 })
    );
    assert_eq!(
        s.add_player(0, PlayerRole::Remote),
        Err(BackendError::PlayerOutOfRange { given: 0, num_players: 2 })
    );
    s.add_player(1, PlayerRole::Local).unwrap();
    assert_eq!(s.add_player(1, PlayerRole::Local), Err(BackendError::DuplicatePlayer(1)));
    assert_eq!(s.state(), SessionState::Setup);
    s.add_player(2, PlayerRole::Remote).unwrap();
    assert_eq!(s.state(), SessionState::Normal);
    assert_eq!(s.add_player(2, PlayerRole::Remote), Err(BackendError::InvalidState));
}

#[test]
fn rollback_through_session() {
    let mut s = running_session();
    s.add_local_input(0, GameInputFrame::new(1, 0)).unwrap();
    assert_eq!(s.sync_inputs().unwrap(), vec![Some(1), None]);
    assert_eq!(s.increment_frame().unwrap(), (SaveFrame { frame: 1 }, None));
    s.add_local_input(0, GameInputFrame::new(2, 1)).unwrap();
    assert_eq!(s.sync_inputs().unwrap(), vec![Some(2), None]);
    // a remote input for frame 0 arrives and contradicts the prediction
    assert_eq!(s.handle_udp_event(2, UdpEvent::Input(GameInputFrame::new(9, 0))), Ok(None));
    assert_eq!(s.post_rollback(), Err(BackendError::InvalidState));
    // the snapshot of frame 0 was never saved in this session
    assert_eq!(
        s.increment_frame(),
        Err(BackendError::SyncError(SyncError::StateNotFound(0)))
    );
    assert_eq!(s.state(), SessionState::Normal);
}

#[test]
fn rollback_phases() {
    let mut s = running_session();
    s.add_local_input(0, GameInputFrame::new(1, 0)).unwrap();
    assert_eq!(s.handle_udp_event(2, UdpEvent::Input(GameInputFrame::new(8, 0))), Ok(None));
    assert_eq!(s.sync_inputs().unwrap(), vec![Some(1), Some(8)]);
    s.increment_frame().unwrap();
    s.add_local_input(0, GameInputFrame::new(2, 1)).unwrap();
    assert_eq!(s.sync_inputs().unwrap(), vec![Some(2), Some(8)]);
    s.increment_frame().unwrap();
    s.add_local_input(0, GameInputFrame::new(3, 2)).unwrap();
    s.sync_inputs().unwrap();
    // a gap is refused
    assert_eq!(
        s.handle_udp_event(2, UdpEvent::Input(GameInputFrame::new(9, 2))),
        Err(BackendError::SyncError(SyncError::QueueError(
            InputQueueError::NonSequentialUserInput { given: 2, expected: 1 }
        )))
    );
    s.handle_udp_event(2, UdpEvent::Input(GameInputFrame::new(9, 1))).unwrap();
    // a retransmit is dropped
    assert_eq!(s.handle_udp_event(2, UdpEvent::Input(GameInputFrame::new(7, 0))), Ok(None));
    let (save, rb) = s.increment_frame().unwrap();
    assert_eq!(save, SaveFrame { frame: 3 });
    assert_eq!(rb, Some(RollbackState { frame: 1, num_steps: 2 }));
    assert_eq!(
        s.state(),
        SessionState::InRollback(InRollback { load_frame: RollbackState { frame: 1, num_steps: 2 } })
    );
    assert_eq!(
        s.add_local_input(0, GameInputFrame::new(4, 3)).err(),
        Some(BackendError::InvalidState)
    );
    assert_eq!(s.sync_inputs().unwrap(), vec![Some(2), Some(9)]);
    assert_eq!(s.increment_frame().unwrap(), (SaveFrame { frame: 2 }, None));
    assert_eq!(s.sync_inputs().unwrap(), vec![Some(3), Some(9)]);
    assert_eq!(s.increment_frame().unwrap(), (SaveFrame { frame: 3 }, None));
    assert_eq!(s.state(), SessionState::PostRollback);
    assert_eq!(s.increment_frame().err(), Some(BackendError::InvalidState));
    assert_eq!(s.post_rollback(), Ok(()));
    assert_eq!(s.state(), SessionState::Normal);
}

#[test]
fn peer_events() {
    let mut s = running_session();
    assert_eq!(s.handle_udp_event(1, UdpEvent::Connected), Err(BackendError::NotRemotePlayer(1)));
    assert_eq!(s.handle_udp_event(2, UdpEvent::Connected), Ok(Some(Event::ConnectedToPeer)));
    assert_eq!(
        s.handle_udp_event(2, UdpEvent::NetworkInterrupted),
        Ok(Some(Event::ConnectionInterrupted))
    );
    assert_eq!(
        s.handle_udp_event(2, UdpEvent::Input(GameInputFrame { frame: None, input: Some(1) })),
        Err(BackendError::SyncError(SyncError::QueueError(InputQueueError::BadInput)))
    );
    assert_eq!(
        s.handle_udp_event(2, UdpEvent::Disconnected),
        Ok(Some(Event::DisconnectedFromPeer))
    );
    // inputs after a disconnection are ignored
    assert_eq!(s.handle_udp_event(2, UdpEvent::Input(GameInputFrame::new(1, 0))), Ok(None));
    assert_eq!(s.sync().get_queue(1).unwrap().get_length(), 0);
}

#[test]
fn disconnected_player_reads_empty_and_asks_no_rollback() {
    let mut s = running_session();
    s.add_local_input(0, GameInputFrame::new(1, 0)).unwrap();
    assert_eq!(s.handle_udp_event(2, UdpEvent::Input(GameInputFrame::new(8, 0))), Ok(None));
    assert_eq!(s.sync_inputs().unwrap(), vec![Some(1), Some(8)]);
    s.increment_frame().unwrap();
    s.add_local_input(0, GameInputFrame::new(2, 1)).unwrap();
    // the remote queue predicts frame 1 from frame 0
    assert_eq!(s.sync_inputs().unwrap(), vec![Some(2), Some(8)]);
    s.handle_udp_event(2, UdpEvent::Disconnected).unwrap();
    assert_eq!(s.sync_inputs().unwrap(), vec![Some(2), None]);
    assert_eq!(s.increment_frame().unwrap(), (SaveFrame { frame: 2 }, None));
}

#[test]
fn network_values() {
    let m = NetworkMessage::make_input(&GameInputFrame::new(5u8, 2));
    match m {
        NetworkMessage::Input(i) => {
            assert_eq!(i.frame, Some(2));
            assert_eq!(i.input, Some(5));
        }
    }
    assert!(ConnectionStatus::Disconnected.is_disconnected());
    assert!(!ConnectionStatus::LastFrame(Some(3)).is_disconnected());
}
