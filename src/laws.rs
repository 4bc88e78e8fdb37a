use crate::error::SyncError;
use crate::frame_input::{FrameSize, GameInputFrame};
use crate::input_queue::{lemma_add_input_keeps, lemma_store_fillers, QueueView};
use crate::sync::{SyncView, NUM_PLAYERS};
use vstd::prelude::*;

verus! {

/// The stored inputs of a queue carry consecutive ascending frames, starting
/// at the oldest retained frame.
pub proof fn lemma_stored_frames_contiguous<T: PartialEq>(q: QueueView<T>)
    requires
        q.wf(),
    ensures
        forall|i: int|
            0 <= i < q.entries.len() ==> #[trigger] q.entries[i].frame == Some(
                (q.oldest_frame() + i) as FrameSize,
            ),
        forall|i: int, j: int|
            0 <= i < j < q.entries.len() ==> (#[trigger] q.entries[i]).frame->0 < (#[trigger] q.entries[j]).frame->0,
        q.entries.len() > 0 ==> q.entries.last().frame == q.last_added_frame,
{
    assert forall|i: int, j: int|
        0 <= i < j < q.entries.len() implies (#[trigger] q.entries[i]).frame->0 < (
    #[trigger] q.entries[j]).frame->0 by {
        assert(q.entries[i].frame == Some((q.oldest_frame() + i) as FrameSize));
        assert(q.entries[j].frame == Some((q.oldest_frame() + j) as FrameSize));
    }
    if q.entries.len() > 0 {
        assert(q.entries[q.entries.len() - 1].frame == Some(
            (q.oldest_frame() + q.entries.len() - 1) as FrameSize,
        ));
    }
}

/// Past the last confirmed frame, and with no connected player's queue
/// waiting for a rollback, reading the inputs of the current frame succeeds
/// with one input per player.
pub proof fn lemma_synchronize_serves_every_player<T: PartialEq>(s: SyncView<T>)
    requires
        s.wf(),
        s.seek_frame() is None,
        s.last_confirmed_frame matches Some(c) ==> c < s.frame_count,
    ensures
        s.synchronize_result().1 matches Ok(v) && v.len() == NUM_PLAYERS,
{
    assert(s.queues[0].wf() && (!s.disconnected[0] ==> s.queue_in_step(s.queues[0])));
    assert(s.queues[1].wf() && (!s.disconnected[1] ==> s.queue_in_step(s.queues[1])));
    let s1 = s.with_queue(0, s.queues[0].get_input_result(s.frame_count).0);
    assert(s1.queues[1] == s.queues[1]);
}

/// A local input is accepted only while the frame count leads the last
/// confirmed frame by fewer than `max_prediction_frames`; so after the frame
/// it belongs to is advanced, the lead is at most `max_prediction_frames`.
pub proof fn lemma_prediction_barrier<T: PartialEq>(s: SyncView<T>, t: SyncView<T>)
    requires
        s.frames_behind() < s.max_prediction_frames,
        t.frame_count == s.frame_count + 1,
        t.last_confirmed_frame == s.last_confirmed_frame,
        t.max_prediction_frames == s.max_prediction_frames,
    ensures
        t.frames_behind() <= t.max_prediction_frames,
{
}

/// Every frame among the last `saved_states.len()` frames up to the frame
/// count can be loaded; in particular a rollback to the earliest
/// mispredicted frame succeeds when that frame is among them.
pub proof fn lemma_recent_frames_loadable<T: PartialEq>(s: SyncView<T>, t: FrameSize)
    requires
        s.wf(),
        s.frame_count - s.saved_states.len() < t <= s.frame_count,
    ensures
        s.saved_states.contains(t),
        s.seek_frame() == Some(t) ==> s.rollback_result(t).1 is Ok,
{
    let i = t - (s.frame_count - s.saved_states.len() + 1);
    assert(s.saved_states[i] == t);
    assert(s.queues[0].wf() && s.queues[1].wf());
}

/// After a rollback to `seek_to`, ending it succeeds exactly when the frame
/// count was advanced by the rollback's `num_steps`.
pub proof fn lemma_post_rollback_after_steps<T: PartialEq>(
    s: SyncView<T>,
    seek_to: FrameSize,
    k: nat,
)
    requires
        s.wf(),
        s.rollback_result(seek_to).1 is Ok,
        seek_to + k <= FrameSize::MAX,
    ensures
        ({
            let rb = s.rollback_result(seek_to).1->Ok_0;
            let after = SyncView {
                frame_count: (seek_to + k) as FrameSize,
                ..s.rollback_result(seek_to).0
            };
            after.post_rollback_result().1 is Ok <==> k == rb.num_steps
        }),
{
    let v = s;
    assert(v.saved_states.contains(seek_to));
    let i = choose|i: int| 0 <= i < v.saved_states.len() && v.saved_states[i] == seek_to;
    assert(v.saved_states[i] == v.frame_count - v.saved_states.len() + 1 + i);
}

/// After a rollback, each connected player's queue serves its stored inputs
/// again unchanged, so the replayed frames see the inputs they saw before
/// wherever no prediction was involved.
pub proof fn lemma_rollback_replays_stored_inputs<T: PartialEq>(
    s: SyncView<T>,
    seek_to: FrameSize,
    i: int,
    frame: FrameSize,
)
    requires
        s.wf(),
        s.rollback_result(seek_to).1 is Ok,
        0 <= i < NUM_PLAYERS,
        !s.disconnected[i],
        s.queues[i].stores(frame as int),
    ensures
        s.rollback_result(seek_to).0.queues[i].get_input_result(frame).1 == Ok::<
            GameInputFrame<T>,
            crate::error::InputQueueError,
        >(GameInputFrame { frame: Some(frame), input: s.queues[i].entry_at(frame as int).input }),
{
    let r = s.rollback_result(seek_to).0;
    assert(r.queues[0] == s.queue_after_reset(0, seek_to));
    assert(r.queues[1] == s.queue_after_reset(1, seek_to));
}

/// With no prediction running and no frame delay, an input that
/// `add_input` stored is what `get_input` returns for its frame.
pub proof fn lemma_add_then_get<T: PartialEq>(q: QueueView<T>, input: GameInputFrame<T>)
    requires
        q.wf(),
        !q.predicting(),
        q.frame_delay == 0,
        input.frame matches Some(f) && f < FrameSize::MAX,
        q.add_input_result(input).1 matches Ok(stored) && stored.frame is Some,
    ensures
        q.add_input_result(input).0.get_input_result(input.frame->0).1 == Ok::<
            GameInputFrame<T>,
            crate::error::InputQueueError,
        >(GameInputFrame { frame: input.frame, input: input.input }),
{
    let f = input.frame->0;
    let v = QueueView { last_user_added_frame: Some(f), ..q };
    let n = (f - q.next_frame()) as nat;
    lemma_store_fillers(v, n, v.newest_payload(), 0);
    lemma_add_input_keeps(q, input, 0);
    let filled = v.store_fillers(n, v.newest_payload());
    let after = q.add_input_result(input).0;
    assert(after == filled.store_step(input.input));
    assert(after.entries.last() == GameInputFrame { frame: Some(f), input: input.input });
}

} // verus!
