use crate::error::{InputQueueError, SyncError};
use crate::frame_input::{FrameSize, GameInput, GameInputFrame, RollbackState, SaveFrame};
use crate::input_queue::{lemma_add_input_keeps, InputQueue, QueueView};
use std::collections::VecDeque;
use vstd::prelude::*;
use vstd::std_specs::cmp::PartialEqSpec;

verus! {

/// Number of players, and so of input queues, a synchronizer holds.
pub const NUM_PLAYERS: u8 = 2;

/// The abstract state of a synchronizer.
pub ghost struct SyncView<T> {
    pub max_prediction_frames: FrameSize,
    pub frame_count: FrameSize,
    pub last_confirmed_frame: Option<FrameSize>,
    /// The frame a rollback in progress must return to.
    pub target_post_roll_back_frame: Option<FrameSize>,
    /// One queue per player.
    pub queues: Seq<QueueView<T>>,
    /// Frames with a saved snapshot, oldest first.
    pub saved_states: Seq<FrameSize>,
    /// Per queue: whether its player has disconnected.
    pub disconnected: Seq<bool>,
}

impl<T: PartialEq> SyncView<T> {
    /// Most entries the snapshot ring keeps.
    pub open spec fn ring_capacity(self) -> int {
        self.max_prediction_frames + 2
    }

    /// How far the frame count runs ahead of the last confirmed frame (an
    /// absent confirmed frame counts as frame zero).
    pub open spec fn frames_behind(self) -> int {
        let confirmed = match self.last_confirmed_frame {
            Some(c) => c as int,
            None => 0,
        };
        if self.frame_count >= confirmed {
            self.frame_count - confirmed
        } else {
            0
        }
    }

    /// Frames below this one may have been compacted out of the queues.
    pub open spec fn compaction_floor(self) -> int {
        match self.last_confirmed_frame {
            Some(c) => if c > 0 {
                c - 1
            } else {
                0
            },
            None => 0,
        }
    }

    /// The saved frames are the consecutive frames that end at `end`.
    pub open spec fn ring_ends_at(self, end: int) -> bool {
        forall|i: int|
            0 <= i < self.saved_states.len() ==> #[trigger] self.saved_states[i] == end
                - self.saved_states.len() + 1 + i
    }

    /// What a queue's prediction state must satisfy relative to the frame
    /// count.
    pub open spec fn queue_in_step(self, q: QueueView<T>) -> bool {
        &&& q.oldest_frame() <= self.compaction_floor()
        &&& q.prediction_within(self.frame_count as int)
    }

    /// Everything of `wf` but where the ring ends.
    pub open spec fn queues_wf(self) -> bool {
        &&& self.queues.len() == NUM_PLAYERS
        &&& self.disconnected.len() == NUM_PLAYERS
        &&& forall|i: int|
            #![trigger self.queues[i]]
            0 <= i < NUM_PLAYERS ==> self.queues[i].wf() && (!self.disconnected[i]
                ==> self.queue_in_step(self.queues[i]))
        &&& self.saved_states.len() <= self.ring_capacity()
    }

    pub open spec fn wf(self) -> bool {
        &&& self.queues_wf()
        &&& self.ring_ends_at(self.frame_count as int)
    }

    /// The misprediction of queue `i` that counts: none for a disconnected
    /// player.
    pub open spec fn counted_misprediction(self, i: int) -> Option<FrameSize> {
        if self.disconnected[i] {
            None
        } else {
            self.queues[i].first_incorrect_frame
        }
    }

    /// The earliest frame a connected player's queue found to be
    /// mispredicted.
    pub open spec fn seek_frame(self) -> Option<FrameSize> {
        let a = self.counted_misprediction(0);
        let b = self.counted_misprediction(1);
        match (a, b) {
            (Some(x), Some(y)) => if y < x {
                Some(y)
            } else {
                Some(x)
            },
            (Some(x), None) => Some(x),
            (None, y) => y,
        }
    }

    pub open spec fn with_queue(self, i: int, q: QueueView<T>) -> SyncView<T> {
        SyncView { queues: self.queues.update(i, q), ..self }
    }

    /// State and result of adding `input` to queue `queue`.
    pub open spec fn add_input_result(self, queue: u8, input: GameInputFrame<T>) -> (
        SyncView<T>,
        Result<GameInputFrame<T>, SyncError>,
    ) {
        if queue >= NUM_PLAYERS {
            (self, Err(SyncError::BadQueueHandle(queue)))
        } else {
            let (q, r) = self.queues[queue as int].add_input_result(input);
            (
                self.with_queue(queue as int, q),
                match r {
                    Ok(i) => Ok(i),
                    Err(e) => Err(SyncError::QueueError(e)),
                },
            )
        }
    }

    /// State and result of `add_local_input(queue, input)`: refused at the
    /// prediction barrier, else added.
    pub open spec fn add_local_result(self, queue: u8, input: GameInputFrame<T>) -> (
        SyncView<T>,
        Result<GameInputFrame<T>, SyncError>,
    ) {
        if self.frames_behind() >= self.max_prediction_frames {
            (
                self,
                Err(
                    SyncError::PredictionBarrierReached {
                        frames_behind: self.frames_behind() as FrameSize,
                        max_prediction_frames: self.max_prediction_frames,
                    },
                ),
            )
        } else {
            self.add_input_result(queue, input)
        }
    }

    /// Whether `add_local_input(queue, input)` can be passed `input` without
    /// overflowing a frame number.
    pub open spec fn input_fits(self, queue: u8, input: GameInputFrame<T>) -> bool {
        queue < NUM_PLAYERS ==> (input.frame matches Some(f) ==> f
            + self.queues[queue as int].frame_delay < FrameSize::MAX)
    }

    /// Queue `i` after reading the current frame from it, and the payload
    /// read: an empty one for a disconnected player.
    pub open spec fn read_queue(self, i: int) -> (QueueView<T>, Result<Option<T>, InputQueueError>) {
        if self.disconnected[i] {
            (self.queues[i], Ok(None))
        } else {
            let (q, r) = self.queues[i].get_input_result(self.frame_count);
            (
                q,
                match r {
                    Ok(input) => Ok(input.input),
                    Err(e) => Err(e),
                },
            )
        }
    }

    /// State and result of `synchronize_inputs()`.
    pub open spec fn synchronize_result(self) -> (SyncView<T>, Result<Seq<Option<T>>, SyncError>) {
        let (q0, r0) = self.read_queue(0);
        match r0 {
            Err(e) => (self, Err(SyncError::QueueError(e))),
            Ok(first) => {
                let s1 = self.with_queue(0, q0);
                let (q1, r1) = self.read_queue(1);
                match r1 {
                    Err(e) => (s1, Err(SyncError::QueueError(e))),
                    Ok(second) => (s1.with_queue(1, q1), Ok(seq![first, second])),
                }
            },
        }
    }

    /// Result of `get_confirmed_inputs(frame)`.
    pub open spec fn confirmed_inputs_result(self, frame: FrameSize) -> Result<
        Seq<GameInputFrame<T>>,
        SyncError,
    > {
        match (
            self.queues[0].confirmed_input_result(frame),
            self.queues[1].confirmed_input_result(frame),
        ) {
            (Err(e), _) => Err(SyncError::QueueError(e)),
            (Ok(_), Err(e)) => Err(SyncError::QueueError(e)),
            (Ok(a), Ok(b)) => Ok(seq![a, b]),
        }
    }

    /// Whether connected queue `i` refuses to reset its prediction at `frame`.
    pub open spec fn reset_refused(self, i: int, frame: FrameSize) -> bool {
        !self.disconnected[i] && self.queues[i].reset_result(frame).1 is Err
    }

    /// Queue `i` after a rollback to `frame`; a disconnected player's queue is
    /// left as it is.
    pub open spec fn queue_after_reset(self, i: int, frame: FrameSize) -> QueueView<T> {
        if self.disconnected[i] {
            self.queues[i]
        } else {
            self.queues[i].reset_result(frame).0
        }
    }

    /// State and result of `pre_roll_back(seek_to)`.
    pub open spec fn rollback_result(self, seek_to: FrameSize) -> (
        SyncView<T>,
        Result<RollbackState, SyncError>,
    ) {
        if !self.saved_states.contains(seek_to) {
            (self, Err(SyncError::StateNotFound(seek_to)))
        } else if self.reset_refused(0, seek_to) {
            (self, Err(SyncError::QueueError(self.queues[0].reset_result(seek_to).1->Err_0)))
        } else if self.reset_refused(1, seek_to) {
            (self, Err(SyncError::QueueError(self.queues[1].reset_result(seek_to).1->Err_0)))
        } else {
            (
                SyncView {
                    frame_count: seek_to,
                    target_post_roll_back_frame: Some(self.frame_count),
                    saved_states: seq![seek_to],
                    queues: seq![self.queue_after_reset(0, seek_to), self.queue_after_reset(1, seek_to)],
                    ..self
                },
                Ok(
                    RollbackState {
                        frame: seek_to,
                        num_steps: (self.frame_count - seek_to) as FrameSize,
                    },
                ),
            )
        }
    }

    /// State and result of `post_roll_back()`.
    pub open spec fn post_rollback_result(self) -> (SyncView<T>, Result<(), SyncError>) {
        match self.target_post_roll_back_frame {
            None => (self, Err(SyncError::NotInRollback)),
            Some(t) => if t != self.frame_count {
                (self, Err(SyncError::SimulationError { given: self.frame_count, expected: t }))
            } else {
                (SyncView { target_post_roll_back_frame: None, ..self }, Ok(()))
            },
        }
    }

    /// State after `increment_frame()`.
    pub open spec fn incremented(self) -> SyncView<T> {
        let next = SyncView { frame_count: (self.frame_count + 1) as FrameSize, ..self };
        SyncView { saved_states: next.saved_after_save(), ..next }
    }

    /// The ring after saving the current frame.
    pub open spec fn saved_after_save(self) -> Seq<FrameSize> {
        if self.saved_states.len() > 0 && self.saved_states.last() == self.frame_count {
            self.saved_states
        } else if self.saved_states.len() + 1 > self.ring_capacity() {
            self.saved_states.push(self.frame_count).drop_first()
        } else {
            self.saved_states.push(self.frame_count)
        }
    }
}

/// Coordinates the players' input queues, the frame counter, the ring of
/// saved frames and the rollback lifecycle.
#[derive(Debug)]
pub struct Sync<T> {
    max_prediction_frames: FrameSize,
    frame_count: FrameSize,
    last_confirmed_frame: Option<FrameSize>,
    target_post_roll_back_frame: Option<FrameSize>,
    input_queues: (InputQueue<T>, InputQueue<T>),
    saved_states: VecDeque<FrameSize>,
    disconnected: (bool, bool),
}

impl<T> View for Sync<T> {
    type V = SyncView<T>;

    closed spec fn view(&self) -> SyncView<T> {
        SyncView {
            max_prediction_frames: self.max_prediction_frames,
            frame_count: self.frame_count,
            last_confirmed_frame: self.last_confirmed_frame,
            target_post_roll_back_frame: self.target_post_roll_back_frame,
            queues: seq![self.input_queues.0@, self.input_queues.1@],
            saved_states: self.saved_states@,
            disconnected: seq![self.disconnected.0, self.disconnected.1],
        }
    }
}

impl<T: GameInput> Sync<T> {
    pub fn new(max_prediction_frames: FrameSize) -> (r: Self)
        ensures
            r@.wf(),
            r@.max_prediction_frames == max_prediction_frames,
            r@.frame_count == 0,
            r@.last_confirmed_frame is None,
            r@.target_post_roll_back_frame is None,
            r@.saved_states.len() == 0,
            forall|i: int|
                0 <= i < NUM_PLAYERS ==> (#[trigger] r@.queues[i]).entries.len() == 0
                    && r@.queues[i].frame_delay == 0 && r@.queues[i].last_user_added_frame is None
                    && r@.queues[i].last_added_frame is None && !r@.queues[i].predicting()
                    && r@.queues[i].first_incorrect_frame is None
                    && r@.queues[i].last_frame_requested is None && !r@.disconnected[i],
    {
        let r = Sync {
            max_prediction_frames,
            frame_count: 0,
            last_confirmed_frame: None,
            target_post_roll_back_frame: None,
            input_queues: (InputQueue::new(), InputQueue::new()),
            saved_states: VecDeque::new(),
            disconnected: (false, false),
        };
        proof {
            assert(r@.queues[0] == r.input_queues.0@);
            assert(r@.queues[1] == r.input_queues.1@);
        }
        r
    }

    pub fn frame_count(&self) -> (r: FrameSize)
        ensures
            r == self@.frame_count,
    {
        self.frame_count
    }

    /// Whether `input` may be handed to queue `queue` without a frame number
    /// overflowing.
    pub fn input_fits(&self, queue: u8, input: &GameInputFrame<T>) -> (r: bool)
        ensures
            r == self@.input_fits(queue, *input),
    {
        proof {
            assert(self@.queues[0] == self.input_queues.0@);
            assert(self@.queues[1] == self.input_queues.1@);
        }
        let delay = match queue {
            0 => self.input_queues.0.frame_delay(),
            1 => self.input_queues.1.frame_delay(),
            _ => {
                return true;
            },
        };
        match input.frame {
            Some(f) => (f as u64) + (delay as u64) < FrameSize::MAX as u64,
            None => true,
        }
    }

    /// Marks the player of queue `queue` as disconnected: from then on its
    /// queue reads as empty and no longer asks for rollbacks.
    pub fn set_disconnected(&mut self, queue: u8) -> (r: Result<(), SyncError>)
        requires
            old(self)@.wf(),
        ensures
            final(self)@.wf(),
            queue >= NUM_PLAYERS ==> final(self)@ == old(self)@ && r == Err::<(), SyncError>(
                SyncError::BadQueueHandle(queue),
            ),
            queue < NUM_PLAYERS ==> r is Ok && final(self)@ == (SyncView {
                disconnected: old(self)@.disconnected.update(queue as int, true),
                ..old(self)@
            }),
    {
        match queue {
            0 => self.disconnected.0 = true,
            1 => self.disconnected.1 = true,
            _ => {
                return Err(SyncError::BadQueueHandle(queue));
            },
        }
        proof {
            assert(self@.disconnected =~= old(self)@.disconnected.update(queue as int, true));
            assert(old(self)@.queues[0].wf() && (!old(self)@.disconnected[0] ==> old(self)@.queue_in_step(old(self)@.queues[0])));
            assert(old(self)@.queues[1].wf() && (!old(self)@.disconnected[1] ==> old(self)@.queue_in_step(old(self)@.queues[1])));
            lemma_queues_wf(self@);
        }
        Ok(())
    }

    pub fn in_rollback(&self) -> (r: bool)
        ensures
            r == self@.target_post_roll_back_frame is Some,
    {
        self.target_post_roll_back_frame.is_some()
    }

    /// Records the newest confirmed frame and compacts the queues below it.
    pub fn set_last_confirmed_frame(&mut self, frame: FrameSize)
        requires
            old(self)@.wf(),
            old(self)@.last_confirmed_frame matches Some(c) ==> c <= frame,
        ensures
            final(self)@.wf(),
            final(self)@ == (SyncView {
                last_confirmed_frame: Some(frame),
                queues: if frame > 0 {
                    seq![
                        old(self)@.queues[0].discard_result((frame - 1) as FrameSize),
                        old(self)@.queues[1].discard_result((frame - 1) as FrameSize),
                    ]
                } else {
                    old(self)@.queues
                },
                ..old(self)@
            }),
    {
        self.last_confirmed_frame = Some(frame);
        if frame > 0 {
            self.input_queues.0.discard_confirmed_frames(frame - 1);
            self.input_queues.1.discard_confirmed_frames(frame - 1);
        }
        proof {
            assert(self@.queues[0] == self.input_queues.0@);
            assert(self@.queues[1] == self.input_queues.1@);
            if frame == 0 {
                assert(self@.queues =~= old(self)@.queues);
            }
            assert(old(self)@.queues[0].wf() && (!old(self)@.disconnected[0] ==> old(self)@.queue_in_step(old(self)@.queues[0])));
            assert(old(self)@.queues[1].wf() && (!old(self)@.disconnected[1] ==> old(self)@.queue_in_step(old(self)@.queues[1])));
            lemma_queues_wf(self@);
        }
    }

    /// Saves the current frame, at most once, evicting the oldest saved
    /// frame when the ring is full.
    fn record_frame(&mut self) -> (r: SaveFrame)
        requires
            old(self)@.queues_wf(),
            old(self)@.ring_ends_at(old(self)@.frame_count as int) || old(self)@.ring_ends_at(
                old(self)@.frame_count - 1,
            ),
        ensures
            final(self)@.wf(),
            final(self)@ == (SyncView { saved_states: old(self)@.saved_after_save(), ..old(self)@ }),
            r == (SaveFrame { frame: old(self)@.frame_count }),
    {
        let n = self.saved_states.len();
        if n == 0 || self.saved_states[n - 1] != self.frame_count {
            self.saved_states.push_back(self.frame_count);
            if self.saved_states.len() as u64 > self.max_prediction_frames as u64 + 2 {
                self.saved_states.pop_front();
            }
        }
        SaveFrame { frame: self.frame_count }
    }

    /// Saves the current frame (once per frame).
    pub fn save_current_frame(&mut self) -> (r: SaveFrame)
        requires
            old(self)@.wf(),
        ensures
            final(self)@.wf(),
            final(self)@ == (SyncView { saved_states: old(self)@.saved_after_save(), ..old(self)@ }),
            r == (SaveFrame { frame: old(self)@.frame_count }),
    {
        self.record_frame()
    }

    /// Advances the frame count and saves the new frame.
    pub fn increment_frame(&mut self) -> (r: SaveFrame)
        requires
            old(self)@.wf(),
            old(self)@.frame_count < FrameSize::MAX,
        ensures
            final(self)@.wf(),
            final(self)@ == old(self)@.incremented(),
            r == (SaveFrame { frame: (old(self)@.frame_count + 1) as FrameSize }),
    {
        self.frame_count = self.frame_count + 1;
        self.record_frame()
    }

    /// Looks up a queue by its handle.
    pub fn get_queue(&self, queue: u8) -> (r: Result<&InputQueue<T>, SyncError>)
        ensures
            queue < NUM_PLAYERS ==> (r matches Ok(q) && q@ == self@.queues[queue as int]),
            queue >= NUM_PLAYERS ==> r == Err::<&InputQueue<T>, SyncError>(
                SyncError::BadQueueHandle(queue),
            ),
    {
        match queue {
            0 => Ok(&self.input_queues.0),
            1 => Ok(&self.input_queues.1),
            _ => Err(SyncError::BadQueueHandle(queue)),
        }
    }

    /// Adds `input` to queue `queue`.
    pub fn add_input(&mut self, queue: u8, input: GameInputFrame<T>) -> (r: Result<
        GameInputFrame<T>,
        SyncError,
    >)
        requires
            old(self)@.wf(),
            <T as PartialEqSpec>::obeys_eq_spec(),
            old(self)@.input_fits(queue, input),
        ensures
            final(self)@ == old(self)@.add_input_result(queue, input).0,
            r == old(self)@.add_input_result(queue, input).1,
            final(self)@.wf(),
    {
        let ghost fc = self.frame_count as int;
        let r = match queue {
            0 => {
                proof {
                    lemma_add_input_keeps(old(self)@.queues[0], input, fc);
                }
                self.input_queues.0.add_input(input)
            },
            1 => {
                proof {
                    lemma_add_input_keeps(old(self)@.queues[1], input, fc);
                }
                self.input_queues.1.add_input(input)
            },
            _ => {
                return Err(SyncError::BadQueueHandle(queue));
            },
        };
        proof {
            assert(self@.queues =~= old(self)@.queues.update(
                queue as int,
                old(self)@.queues[queue as int].add_input_result(input).0,
            ));
            assert(old(self)@.queues[0].wf() && (!old(self)@.disconnected[0] ==> old(self)@.queue_in_step(old(self)@.queues[0])));
            assert(old(self)@.queues[1].wf() && (!old(self)@.disconnected[1] ==> old(self)@.queue_in_step(old(self)@.queues[1])));
            lemma_queues_wf(self@);
        }
        match r {
            Ok(i) => Ok(i),
            Err(e) => Err(SyncError::QueueError(e)),
        }
    }

    /// Adds an input that arrived from a remote player.
    pub fn add_remote_input(&mut self, queue: u8, input: GameInputFrame<T>) -> (r: Result<
        GameInputFrame<T>,
        SyncError,
    >)
        requires
            old(self)@.wf(),
            <T as PartialEqSpec>::obeys_eq_spec(),
            old(self)@.input_fits(queue, input),
        ensures
            final(self)@ == old(self)@.add_input_result(queue, input).0,
            r == old(self)@.add_input_result(queue, input).1,
            final(self)@.wf(),
    {
        self.add_input(queue, input)
    }

    /// Adds a local input, unless the frame count has run
    /// `max_prediction_frames` or more ahead of the last confirmed frame.
    pub fn add_local_input(&mut self, queue: u8, input: GameInputFrame<T>) -> (r: Result<
        GameInputFrame<T>,
        SyncError,
    >)
        requires
            old(self)@.wf(),
            <T as PartialEqSpec>::obeys_eq_spec(),
            old(self)@.input_fits(queue, input),
        ensures
            final(self)@.wf(),
            final(self)@ == old(self)@.add_local_result(queue, input).0,
            r == old(self)@.add_local_result(queue, input).1,
    {
        let confirmed = match self.last_confirmed_frame {
            Some(c) => c,
            None => 0,
        };
        let frames_behind = if self.frame_count >= confirmed {
            self.frame_count - confirmed
        } else {
            0
        };
        if frames_behind >= self.max_prediction_frames {
            return Err(
                SyncError::PredictionBarrierReached {
                    frames_behind,
                    max_prediction_frames: self.max_prediction_frames,
                },
            );
        }
        self.add_input(queue, input)
    }

    pub fn set_frame_delay(&mut self, queue: u8, delay: FrameSize) -> (r: Result<(), SyncError>)
        requires
            old(self)@.wf(),
        ensures
            final(self)@.wf(),
            queue >= NUM_PLAYERS ==> final(self)@ == old(self)@ && r == Err::<(), SyncError>(
                SyncError::BadQueueHandle(queue),
            ),
            queue < NUM_PLAYERS ==> r is Ok && final(self)@ == old(self)@.with_queue(
                queue as int,
                QueueView { frame_delay: delay, ..old(self)@.queues[queue as int] },
            ),
    {
        match queue {
            0 => self.input_queues.0.set_frame_delay(delay),
            1 => self.input_queues.1.set_frame_delay(delay),
            _ => {
                return Err(SyncError::BadQueueHandle(queue));
            },
        }
        proof {
            assert(self@.queues =~= old(self)@.queues.update(
                queue as int,
                QueueView { frame_delay: delay, ..old(self)@.queues[queue as int] },
            ));
            assert(old(self)@.queues[0].wf() && (!old(self)@.disconnected[0] ==> old(self)@.queue_in_step(old(self)@.queues[0])));
            assert(old(self)@.queues[1].wf() && (!old(self)@.disconnected[1] ==> old(self)@.queue_in_step(old(self)@.queues[1])));
            lemma_queues_wf(self@);
        }
        Ok(())
    }

    /// Takes every connected player's queue out of prediction mode at
    /// `frame`; fails, changing nothing, when one of them has a
    /// misprediction before `frame`.
    fn reset_prediction(&mut self, frame: FrameSize) -> (r: Result<(), SyncError>)
        requires
            old(self)@.wf(),
        ensures
            old(self)@.reset_refused(0, frame) ==> final(self)@ == old(self)@ && r == Err::<
                (),
                SyncError,
            >(SyncError::QueueError(old(self)@.queues[0].reset_result(frame).1->Err_0)),
            !old(self)@.reset_refused(0, frame) && old(self)@.reset_refused(1, frame)
                ==> final(self)@ == old(self)@ && r == Err::<(), SyncError>(
                SyncError::QueueError(old(self)@.queues[1].reset_result(frame).1->Err_0),
            ),
            !old(self)@.reset_refused(0, frame) && !old(self)@.reset_refused(1, frame) ==> r is Ok
                && final(self)@ == (SyncView {
                queues: seq![
                    old(self)@.queue_after_reset(0, frame),
                    old(self)@.queue_after_reset(1, frame),
                ],
                ..old(self)@
            }),
    {
        proof {
            assert(self@.queues[0] == self.input_queues.0@);
            assert(self@.queues[1] == self.input_queues.1@);
        }
        if !self.disconnected.0 {
            if let Some(x) = self.input_queues.0.first_incorrect_frame() {
                if frame > x {
                    return Err(
                        SyncError::QueueError(
                            InputQueueError::BadResetPrediction {
                                given: frame,
                                first_incorrect_frame: x,
                            },
                        ),
                    );
                }
            }
        }
        if !self.disconnected.1 {
            if let Some(x) = self.input_queues.1.first_incorrect_frame() {
                if frame > x {
                    return Err(
                        SyncError::QueueError(
                            InputQueueError::BadResetPrediction {
                                given: frame,
                                first_incorrect_frame: x,
                            },
                        ),
                    );
                }
            }
        }
        if !self.disconnected.0 {
            let _r0 = self.input_queues.0.reset_prediction(frame);
        }
        if !self.disconnected.1 {
            let _r1 = self.input_queues.1.reset_prediction(frame);
        }
        proof {
            assert(self@.queues =~= seq![
                old(self)@.queue_after_reset(0, frame),
                old(self)@.queue_after_reset(1, frame),
            ]);
        }
        Ok(())
    }

    /// Whether the ring holds a snapshot of `frame`.
    fn has_saved(&self, frame: FrameSize) -> (r: bool)
        requires
            self@.wf(),
        ensures
            r == self@.saved_states.contains(frame),
    {
        let n = self.saved_states.len();
        let r = n > 0 && frame <= self.frame_count && (frame as u64) + (n as u64)
            > self.frame_count as u64;
        proof {
            let v = self@;
            if r {
                let i = frame - (v.frame_count - n + 1);
                assert(v.saved_states[i] == frame);
            }
            if v.saved_states.contains(frame) {
                let i = choose|i: int| 0 <= i < v.saved_states.len() && v.saved_states[i] == frame;
                assert(v.saved_states[i] == v.frame_count - n + 1 + i);
            }
        }
        r
    }

    /// Returns to the saved `frame`: the frame count becomes `frame` and the
    /// ring keeps that snapshot alone.
    fn load_frame(&mut self, frame: FrameSize)
        requires
            old(self)@.queues_wf(),
            old(self)@.saved_states.contains(frame),
            forall|i: int|
                #![trigger old(self)@.queues[i]]
                0 <= i < NUM_PLAYERS ==> old(self)@.disconnected[i] || (
                !old(self)@.queues[i].predicting() && old(self)@.queues[i].first_incorrect_frame
                    is None),
        ensures
            final(self)@.wf(),
            final(self)@ == (SyncView {
                frame_count: frame,
                saved_states: seq![frame],
                ..old(self)@
            }),
    {
        self.saved_states = VecDeque::new();
        self.saved_states.push_back(frame);
        self.frame_count = frame;
        proof {
            assert(self@.saved_states =~= seq![frame]);
            assert(old(self)@.queues[0].wf() && (!old(self)@.disconnected[0] ==> old(self)@.queue_in_step(old(self)@.queues[0])));
            assert(old(self)@.queues[1].wf() && (!old(self)@.disconnected[1] ==> old(self)@.queue_in_step(old(self)@.queues[1])));
            assert(old(self)@.disconnected[0] || !old(self)@.queues[0].predicting());
            assert(old(self)@.disconnected[1] || !old(self)@.queues[1].predicting());
            lemma_queues_wf(self@);
        }
    }

    /// Starts a rollback to `seek_to`: loads its snapshot, takes every queue
    /// out of prediction and records the frame the rollback must return to.
    pub fn pre_roll_back(&mut self, seek_to: FrameSize) -> (r: Result<RollbackState, SyncError>)
        requires
            old(self)@.wf(),
        ensures
            final(self)@ == old(self)@.rollback_result(seek_to).0,
            r == old(self)@.rollback_result(seek_to).1,
            final(self)@.wf(),
    {
        if !self.has_saved(seek_to) {
            return Err(SyncError::StateNotFound(seek_to));
        }
        let target = self.frame_count;
        match self.reset_prediction(seek_to) {
            Err(e) => {
                return Err(e);
            },
            Ok(()) => {},
        }
        proof {
            let v = old(self)@;
            assert(v.saved_states[v.saved_states.len() - 1] == v.frame_count);
            if seek_to > target {
                let i = choose|i: int| 0 <= i < v.saved_states.len() && v.saved_states[i] == seek_to;
                assert(v.saved_states[i] == v.frame_count - v.saved_states.len() + 1 + i);
            }
        }
        self.load_frame(seek_to);
        self.target_post_roll_back_frame = Some(target);
        Ok(RollbackState { frame: seek_to, num_steps: target - seek_to })
    }

    /// The earliest mispredicted frame over all queues.
    fn check_simulation_consistency(&self) -> (r: Option<FrameSize>)
        requires
            self@.wf(),
        ensures
            r == self@.seek_frame(),
    {
        proof {
            assert(self@.queues[0] == self.input_queues.0@);
            assert(self@.queues[1] == self.input_queues.1@);
        }
        let a = if self.disconnected.0 {
            None
        } else {
            self.input_queues.0.first_incorrect_frame()
        };
        let b = if self.disconnected.1 {
            None
        } else {
            self.input_queues.1.first_incorrect_frame()
        };
        match (a, b) {
            (Some(x), Some(y)) => if y < x {
                Some(y)
            } else {
                Some(x)
            },
            (Some(x), None) => Some(x),
            (None, y) => y,
        }
    }

    /// Schedules a rollback to the earliest mispredicted frame, if any.
    pub fn check_simulation(&mut self) -> (r: Result<Option<RollbackState>, SyncError>)
        requires
            old(self)@.wf(),
        ensures
            final(self)@.wf(),
            old(self)@.seek_frame() is None ==> final(self)@ == old(self)@ && r == Ok::<
                Option<RollbackState>,
                SyncError,
            >(None),
            old(self)@.seek_frame() matches Some(s) ==> {
                &&& final(self)@ == old(self)@.rollback_result(s).0
                &&& r == match old(self)@.rollback_result(s).1 {
                    Ok(rb) => Ok(Some(rb)),
                    Err(e) => Err(e),
                }
                &&& r is Err ==> r == Err::<Option<RollbackState>, SyncError>(
                    SyncError::StateNotFound(s),
                )
            },
    {
        match self.check_simulation_consistency() {
            None => Ok(None),
            Some(seek_to) => {
                proof {
                    let v = old(self)@;
                    assert(!v.reset_refused(0, seek_to));
                    assert(!v.reset_refused(1, seek_to));
                }
                match self.pre_roll_back(seek_to) {
                    Ok(rb) => Ok(Some(rb)),
                    Err(e) => Err(e),
                }
            },
        }
    }

    /// Ends a rollback; fails unless the frame count is back where the
    /// rollback started.
    pub fn post_roll_back(&mut self) -> (r: Result<(), SyncError>)
        requires
            old(self)@.wf(),
        ensures
            final(self)@ == old(self)@.post_rollback_result().0,
            r == old(self)@.post_rollback_result().1,
            final(self)@.wf(),
    {
        match self.target_post_roll_back_frame {
            Some(frame_count) => {
                if frame_count != self.frame_count {
                    Err(
                        SyncError::SimulationError {
                            given: self.frame_count,
                            expected: frame_count,
                        },
                    )
                } else {
                    self.target_post_roll_back_frame = None;
                    Ok(())
                }
            },
            None => Err(SyncError::NotInRollback),
        }
    }

    /// The inputs of every player for the current frame, one per queue in
    /// queue order: stored or predicted.
    pub fn synchronize_inputs(&mut self) -> (r: Result<Vec<Option<T>>, SyncError>)
        requires
            old(self)@.wf(),
        ensures
            final(self)@ == old(self)@.synchronize_result().0,
            final(self)@.wf(),
            match (r, old(self)@.synchronize_result().1) {
                (Ok(v), Ok(s)) => v@ == s,
                (Err(e), Err(f)) => e == f,
                _ => false,
            },
    {
        let frame = self.frame_count;
        let mut res: Vec<Option<T>> = Vec::new();
        proof {
            assert(self@.queues[0] == self.input_queues.0@);
            assert(self@.queues[1] == self.input_queues.1@);
            assert(old(self)@.queues[0].wf() && (!old(self)@.disconnected[0] ==> old(self)@.queue_in_step(old(self)@.queues[0])));
            assert(old(self)@.queues[1].wf() && (!old(self)@.disconnected[1] ==> old(self)@.queue_in_step(old(self)@.queues[1])));
        }
        if self.disconnected.0 {
            res.push(None);
        } else {
            match self.input_queues.0.get_input(frame) {
                Ok(i) => res.push(i.input),
                Err(e) => {
                    return Err(SyncError::QueueError(e));
                },
            }
        }
        proof {
            assert(self@.queues =~= old(self)@.queues.update(0, self.input_queues.0@));
            assert(self@.queues[0].wf() && (!self@.disconnected[0] ==> self@.queue_in_step(self@.queues[0])));
            assert(self@.queues[1].wf() && (!self@.disconnected[1] ==> self@.queue_in_step(self@.queues[1])));
            lemma_queues_wf(self@);
        }
        if self.disconnected.1 {
            res.push(None);
        } else {
            match self.input_queues.1.get_input(frame) {
                Ok(i) => res.push(i.input),
                Err(e) => {
                    return Err(SyncError::QueueError(e));
                },
            }
        }
        proof {
            let s1 = old(self)@.with_queue(0, old(self)@.read_queue(0).0);
            assert(self@.queues =~= s1.queues.update(1, self.input_queues.1@));
            assert(self@.queues[0].wf() && (!self@.disconnected[0] ==> self@.queue_in_step(self@.queues[0])));
            assert(self@.queues[1].wf() && (!self@.disconnected[1] ==> self@.queue_in_step(self@.queues[1])));
            lemma_queues_wf(self@);
        }
        Ok(res)
    }

    /// The stored input of `frame` of every player, in queue order.
    pub fn get_confirmed_inputs(&self, frame: FrameSize) -> (r: Result<
        Vec<GameInputFrame<T>>,
        SyncError,
    >)
        requires
            self@.wf(),
        ensures
            match (r, self@.confirmed_inputs_result(frame)) {
                (Ok(v), Ok(s)) => v@ == s,
                (Err(e), Err(f)) => e == f,
                _ => false,
            },
    {
        proof {
            assert(self@.queues[0] == self.input_queues.0@);
            assert(self@.queues[1] == self.input_queues.1@);
            assert(self@.queues[0].wf());
            assert(self@.queues[1].wf());
        }
        let mut res: Vec<GameInputFrame<T>> = Vec::new();
        match self.input_queues.0.get_confirmed_input(frame) {
            Ok(i) => res.push(i),
            Err(e) => {
                return Err(SyncError::QueueError(e));
            },
        }
        match self.input_queues.1.get_confirmed_input(frame) {
            Ok(i) => res.push(i),
            Err(e) => {
                return Err(SyncError::QueueError(e));
            },
        }
        proof {
            assert(res@ =~= seq![
                self@.queues[0].confirmed_input_result(frame)->Ok_0,
                self@.queues[1].confirmed_input_result(frame)->Ok_0,
            ]);
        }
        Ok(res)
    }
}

proof fn lemma_queues_wf<T: PartialEq>(s: SyncView<T>)
    requires
        s.queues.len() == NUM_PLAYERS,
        s.disconnected.len() == NUM_PLAYERS,
        s.queues[0].wf(),
        !s.disconnected[0] ==> s.queue_in_step(s.queues[0]),
        s.queues[1].wf(),
        !s.disconnected[1] ==> s.queue_in_step(s.queues[1]),
        s.saved_states.len() <= s.ring_capacity(),
    ensures
        s.queues_wf(),
{
    assert forall|i: int| #![trigger s.queues[i]] 0 <= i < NUM_PLAYERS implies s.queues[i].wf() && (
    !s.disconnected[i] ==> s.queue_in_step(s.queues[i])) by {
        if i == 0 {
        } else {
        }
    }
}

} // verus!
