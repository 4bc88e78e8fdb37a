use rback::error::{InputQueueError, SyncError};
use rback::frame_input::{FrameSize, GameInputFrame, RollbackState, SaveFrame};
use rback::sync::Sync;

#[test]
fn sync_test_add() {
    let mut sync: Sync<&str> = Sync::new(4);
    // first frame adds
    let added = sync.add_input(0, ("hi_0", 0).into()).unwrap();
    assert_eq!(added, GameInputFrame { frame: Some(0), input: Some("hi_0") });
    let added = sync.add_input(1, ("hi_1", 0).into()).unwrap();
    assert_eq!(added, GameInputFrame { frame: Some(0), input: Some("hi_1") });

    let err = sync.add_input(10, ("bad queue", 0).into()).err().unwrap();
    assert_eq!(err, SyncError::BadQueueHandle(10));
}

#[test]
fn test_add_local_input() {
    let mut sync: Sync<&str> = Sync::new(4);

    let added = sync.add_local_input(0, ("hi_0", 0).into()).unwrap();
    assert_eq!(added, GameInputFrame { frame: Some(0), input: Some("hi_0") });
}

fn advance_frame(
    sync: &mut Sync<&str>,
    expected_frame: FrameSize,
    expected_check_simulation_res: Option<RollbackState>,
) -> Result<(), SyncError> {
    assert_eq!(sync.increment_frame(), SaveFrame { frame: expected_frame });
    assert_eq!(sync.check_simulation()?, expected_check_simulation_res);
    Ok(())
}

#[test]
fn test_check_simulation() -> Result<(), SyncError> {
    let mut sync: Sync<&str> = Sync::new(4);

    assert_eq!(sync.save_current_frame(), SaveFrame { frame: 0 });

    // add local inputs but don't add remote to simulate a delay
    sync.add_local_input(0, ("first", 0).into())?;

    assert_eq!(
        sync.synchronize_inputs()?,
        vec![
            Some("first"),
            // second queue has nothing to predict from so it will return null input
            None
        ]
    );
    // simulate game state going forward without getting remote input
    advance_frame(&mut sync, 1, None)?;

    // simulate a few more frames, then get the inputs for the first
    sync.add_local_input(0, ("second", 1).into())?;
    assert_eq!(sync.synchronize_inputs()?, vec![Some("second"), None]);
    advance_frame(&mut sync, 2, None)?;

    // we got inputs for frame 0 on the start of frame 2 so we should roll back to
    // the start of frame 2
    sync.add_local_input(0, ("third", 2).into())?;
    sync.add_remote_input(1, ("remote_1", 0).into())?;

    // the remote input queue now knows it needs to rollback so error getting inputs
    assert_eq!(
        sync.synchronize_inputs().err().unwrap(),
        SyncError::QueueError(InputQueueError::GetDurningPrediction)
    );

    // This would be called every frame with increment_frame
    assert_eq!(sync.check_simulation()?, Some(RollbackState { frame: 0, num_steps: 2 },));

    // If they don't rollback error
    assert_eq!(
        sync.post_roll_back().err().unwrap(),
        SyncError::SimulationError { given: 0, expected: 2 }
    );

    // should get remote input now and use old local input
    assert_eq!(sync.synchronize_inputs()?, vec![Some("first"), Some("remote_1")]);
    advance_frame(&mut sync, 1, None)?;

    // not enough rollback
    assert_eq!(
        sync.post_roll_back().err().unwrap(),
        SyncError::SimulationError { given: 1, expected: 2 }
    );

    // does not yet have the next input so it should predict with the last remote
    assert_eq!(sync.synchronize_inputs()?, vec![Some("second"), Some("remote_1")]);
    advance_frame(&mut sync, 2, None)?;

    // Correctly rolled back so no error
    sync.post_roll_back()?;

    // now play the frame as normal
    advance_frame(&mut sync, 3, None)?;

    // we get inputs for frame 1 on the start of frame 3 so roll back to here
    sync.add_local_input(0, ("fourth", 3).into())?;
    sync.add_remote_input(1, ("remote_2", 1).into())?;

    // This would be called every frame with increment_frame
    assert_eq!(sync.check_simulation()?, Some(RollbackState { frame: 1, num_steps: 2 },));

    assert_eq!(sync.synchronize_inputs()?, vec![Some("second"), Some("remote_2")]);
    advance_frame(&mut sync, 2, None)?;

    assert_eq!(sync.synchronize_inputs()?, vec![Some("third"), Some("remote_2")]);
    advance_frame(&mut sync, 3, None)?;

    // Correctly rolled back so no error
    sync.post_roll_back()?;

    Ok(())
}

#[test]
fn rollback_round_trip() {
    let mut sync: Sync<&str> = Sync::new(4);
    sync.save_current_frame();
    sync.add_local_input(0, GameInputFrame::new("first", 0)).unwrap();
    assert_eq!(sync.synchronize_inputs().unwrap(), vec![Some("first"), None]);
    sync.increment_frame();
    sync.add_local_input(0, GameInputFrame::new("second", 1)).unwrap();
    assert_eq!(sync.synchronize_inputs().unwrap(), vec![Some("second"), None]);
    sync.increment_frame();
    sync.add_local_input(0, GameInputFrame::new("third", 2)).unwrap();
    sync.add_remote_input(1, GameInputFrame::new("R0", 0)).unwrap();
    assert_eq!(
        sync.synchronize_inputs().err(),
        Some(SyncError::QueueError(InputQueueError::GetDurningPrediction))
    );
    assert_eq!(
        sync.check_simulation().unwrap(),
        Some(RollbackState { frame: 0, num_steps: 2 })
    );
    assert!(sync.in_rollback());
    assert_eq!(sync.frame_count(), 0);
    assert_eq!(sync.synchronize_inputs().unwrap(), vec![Some("first"), Some("R0")]);
    sync.increment_frame();
    assert_eq!(sync.synchronize_inputs().unwrap(), vec![Some("second"), Some("R0")]);
    sync.increment_frame();
    assert_eq!(sync.post_roll_back(), Ok(()));
    assert!(!sync.in_rollback());
}

#[test]
fn prediction_barrier_stops_local_input() {
    let mut sync: Sync<u8> = Sync::new(2);
    sync.save_current_frame();
    sync.add_local_input(0, GameInputFrame::new(1, 0)).unwrap();
    sync.synchronize_inputs().unwrap();
    sync.increment_frame();
    sync.add_local_input(0, GameInputFrame::new(2, 1)).unwrap();
    sync.synchronize_inputs().unwrap();
    sync.increment_frame();
    assert_eq!(
        sync.add_local_input(0, GameInputFrame::new(3, 2)).err(),
        Some(SyncError::PredictionBarrierReached { frames_behind: 2, max_prediction_frames: 2 })
    );
    // remote inputs are not held back by the barrier
    assert!(sync.add_remote_input(1, GameInputFrame::new(7, 0)).is_ok());
}

#[test]
fn confirming_frames_advances_the_barrier() {
    let mut sync: Sync<u8> = Sync::new(1);
    sync.save_current_frame();
    sync.add_local_input(0, GameInputFrame::new(1, 0)).unwrap();
    sync.add_remote_input(1, GameInputFrame::new(1, 0)).unwrap();
    sync.synchronize_inputs().unwrap();
    sync.increment_frame();
    assert!(sync.add_local_input(0, GameInputFrame::new(1, 1)).is_err());
    sync.set_last_confirmed_frame(1);
    assert!(sync.add_local_input(0, GameInputFrame::new(1, 1)).is_ok());
}

#[test]
fn confirmation_compaction() {
    let mut sync: Sync<u32> = Sync::new(16);
    sync.save_current_frame();
    for f in 0..10u32 {
        sync.add_local_input(0, GameInputFrame::new(f, f)).unwrap();
        sync.add_remote_input(1, GameInputFrame::new(100 + f, f)).unwrap();
        sync.synchronize_inputs().unwrap();
        sync.increment_frame();
    }
    sync.set_last_confirmed_frame(7);
    assert_eq!(
        sync.get_confirmed_inputs(5).err(),
        Some(SyncError::QueueError(InputQueueError::FrameNotFound(5)))
    );
    let confirmed = sync.get_confirmed_inputs(7).unwrap();
    assert_eq!(confirmed[0].input, Some(7));
    assert_eq!(confirmed[1].input, Some(107));
    assert_eq!(sync.get_queue(0).unwrap().get_length(), 4);
}

#[test]
fn load_target_missing() {
    let mut sync: Sync<u8> = Sync::new(1);
    sync.save_current_frame();
    sync.add_local_input(0, GameInputFrame::new(1, 0)).unwrap();
    sync.synchronize_inputs().unwrap();
    for _ in 0..3 {
        sync.increment_frame();
        sync.synchronize_inputs().unwrap();
    }
    // frame 0 has left the ring of 3 saved frames
    sync.add_remote_input(1, GameInputFrame::new(5, 0)).unwrap();
    assert_eq!(sync.check_simulation(), Err(SyncError::StateNotFound(0)));
    assert!(!sync.in_rollback());
    // a rollback past the misprediction is refused
    assert_eq!(
        sync.pre_roll_back(1),
        Err(SyncError::QueueError(InputQueueError::BadResetPrediction {
            given: 1,
            first_incorrect_frame: 0
        }))
    );
}

#[test]
fn post_rollback_outside_rollback() {
    let mut sync: Sync<u8> = Sync::new(4);
    assert_eq!(sync.post_roll_back(), Err(SyncError::NotInRollback));
}

#[test]
fn post_rollback_needs_exact_steps() {
    let mut sync: Sync<u8> = Sync::new(4);
    sync.save_current_frame();
    sync.synchronize_inputs().unwrap();
    sync.increment_frame();
    sync.increment_frame();
    sync.add_remote_input(1, GameInputFrame::new(3, 0)).unwrap();
    let rb = sync.check_simulation().unwrap().unwrap();
    assert_eq!(rb, RollbackState { frame: 0, num_steps: 2 });
    for _ in 0..3 {
        sync.increment_frame();
    }
    assert_eq!(sync.post_roll_back(), Err(SyncError::SimulationError { given: 3, expected: 2 }));
}

#[test]
fn save_is_once_per_frame() {
    let mut sync: Sync<u8> = Sync::new(4);
    assert_eq!(sync.save_current_frame(), SaveFrame { frame: 0 });
    assert_eq!(sync.save_current_frame(), SaveFrame { frame: 0 });
    assert_eq!(sync.increment_frame(), SaveFrame { frame: 1 });
    assert_eq!(sync.pre_roll_back(0), Ok(RollbackState { frame: 0, num_steps: 1 }));
    assert_eq!(sync.pre_roll_back(1), Err(SyncError::StateNotFound(1)));
}

#[test]
fn frame_delay_per_queue() {
    let mut sync: Sync<u8> = Sync::new(4);
    assert_eq!(sync.set_frame_delay(3, 1), Err(SyncError::BadQueueHandle(3)));
    assert_eq!(sync.set_frame_delay(0, 2), Ok(()));
    let stored = sync.add_local_input(0, GameInputFrame::new(1, 0)).unwrap();
    assert_eq!(stored.frame, Some(2));
    assert_eq!(sync.synchronize_inputs().unwrap(), vec![None, None]);
}

#[test]
fn disconnected_queue_is_skipped() {
    let mut sync: Sync<u8> = Sync::new(4);
    sync.save_current_frame();
    sync.add_local_input(0, GameInputFrame::new(1, 0)).unwrap();
    assert_eq!(sync.synchronize_inputs().unwrap(), vec![Some(1), None]);
    sync.increment_frame();
    // a misprediction on the remote queue
    sync.add_remote_input(1, GameInputFrame::new(6, 0)).unwrap();
    assert_eq!(sync.set_disconnected(2), Err(SyncError::BadQueueHandle(2)));
    assert_eq!(sync.set_disconnected(1), Ok(()));
    assert_eq!(sync.check_simulation(), Ok(None));
    sync.add_local_input(0, GameInputFrame::new(2, 1)).unwrap();
    assert_eq!(sync.synchronize_inputs().unwrap(), vec![Some(2), None]);
}
