use crate::error::InputQueueError;
use crate::frame_input::{payload_eq, payloads_equal, FrameSize, GameInput, GameInputFrame};
use std::collections::VecDeque;
use vstd::prelude::*;
use vstd::std_specs::cmp::PartialEqSpec;

verus! {

/// The abstract state of one player's input queue.
pub ghost struct QueueView<T> {
    /// Stored inputs, oldest first.
    pub entries: Seq<GameInputFrame<T>>,
    pub frame_delay: FrameSize,
    /// The running prediction; its frame is set while predicting.
    pub prediction: GameInputFrame<T>,
    pub last_user_added_frame: Option<FrameSize>,
    /// Newest frame ever stored.
    pub last_added_frame: Option<FrameSize>,
    pub first_incorrect_frame: Option<FrameSize>,
    pub last_frame_requested: Option<FrameSize>,
}

impl<T: PartialEq> QueueView<T> {
    /// The frame the next stored input will carry.
    pub open spec fn next_frame(self) -> int {
        match self.last_added_frame {
            Some(f) => f + 1,
            None => 0,
        }
    }

    /// The frame of the oldest retained input (the next frame when none is
    /// retained).
    pub open spec fn oldest_frame(self) -> int {
        self.next_frame() - self.entries.len()
    }

    pub open spec fn predicting(self) -> bool {
        self.prediction.frame is Some
    }

    /// Entry `i` holds frame `oldest_frame() + i`.
    pub open spec fn frames_contiguous(self) -> bool {
        forall|i: int|
            0 <= i < self.entries.len() ==> #[trigger] self.entries[i].frame == Some(
                (self.oldest_frame() + i) as FrameSize,
            )
    }

    pub open spec fn wf(self) -> bool {
        &&& self.oldest_frame() >= 0
        &&& self.next_frame() <= FrameSize::MAX
        &&& self.frames_contiguous()
        &&& self.predicting() ==> self.prediction.frame == Some(self.next_frame() as FrameSize)
        &&& self.first_incorrect_frame is Some ==> self.predicting()
        &&& (self.first_incorrect_frame matches Some(f) ==> f < self.next_frame())
        &&& (self.last_user_added_frame matches Some(l) ==> l < FrameSize::MAX)
    }

    /// A mispredicted frame, and a running unchecked prediction together with
    /// the last frame requested, all lie at or below `bound`.
    pub open spec fn prediction_within(self, bound: int) -> bool {
        &&& (self.first_incorrect_frame matches Some(x) ==> x <= bound)
        &&& (self.predicting() && self.first_incorrect_frame is None) ==> (
        self.last_frame_requested matches Some(l) && self.prediction.frame->0 <= l <= bound)
    }

    /// Whether `frame` is currently stored.
    pub open spec fn stores(self, frame: int) -> bool {
        self.oldest_frame() <= frame < self.next_frame()
    }

    /// The stored entry for `frame`.
    pub open spec fn entry_at(self, frame: int) -> GameInputFrame<T> {
        self.entries[frame - self.oldest_frame()]
    }

    /// Payload of the newest retained input, or none when nothing is retained.
    pub open spec fn newest_payload(self) -> Option<T> {
        if self.entries.len() > 0 {
            self.entries.last().input
        } else {
            None
        }
    }

    /// Stores `input` at the next frame and checks it against a running
    /// prediction.
    pub open spec fn store_step(self, input: Option<T>) -> QueueView<T> {
        let f = self.next_frame() as FrameSize;
        let base = QueueView {
            entries: self.entries.push(GameInputFrame { frame: Some(f), input }),
            last_added_frame: Some(f),
            ..self
        };
        if self.predicting() {
            let fif = if self.first_incorrect_frame is None && !payload_eq(
                self.prediction.input,
                input,
            ) {
                Some(f)
            } else {
                self.first_incorrect_frame
            };
            let pred_frame = if self.prediction.frame == self.last_frame_requested && fif is None {
                None
            } else {
                Some((f + 1) as FrameSize)
            };
            QueueView {
                first_incorrect_frame: fif,
                prediction: GameInputFrame { frame: pred_frame, input: self.prediction.input },
                ..base
            }
        } else {
            base
        }
    }

    /// Stores `n` copies of `payload` at the next frames.
    pub open spec fn store_fillers(self, n: nat, payload: Option<T>) -> QueueView<T>
        decreases n,
    {
        if n == 0 {
            self
        } else {
            self.store_fillers((n - 1) as nat, payload).store_step(payload)
        }
    }

    /// State and result of `add_input(input)`.
    pub open spec fn add_input_result(self, input: GameInputFrame<T>) -> (
        QueueView<T>,
        Result<GameInputFrame<T>, InputQueueError>,
    ) {
        match input.frame {
            None => (self, Err(InputQueueError::BadInput)),
            Some(f) => {
                let expected = match self.last_user_added_frame {
                    Some(l) => l + 1,
                    None => 0,
                };
                if f != expected {
                    (
                        self,
                        Err(
                            InputQueueError::NonSequentialUserInput {
                                given: f,
                                expected: expected as FrameSize,
                            },
                        ),
                    )
                } else {
                    let v = QueueView { last_user_added_frame: Some(f), ..self };
                    let eff = f + self.frame_delay;
                    if eff < self.next_frame() {
                        (v, Ok(GameInputFrame { frame: None, input: input.input }))
                    } else {
                        let filled = v.store_fillers(
                            (eff - self.next_frame()) as nat,
                            v.newest_payload(),
                        );
                        (
                            filled.store_step(input.input),
                            Ok(GameInputFrame { frame: Some(eff as FrameSize), input: input.input }),
                        )
                    }
                }
            },
        }
    }

    /// State and result of `get_input(r)`.
    pub open spec fn get_input_result(self, r: FrameSize) -> (
        QueueView<T>,
        Result<GameInputFrame<T>, InputQueueError>,
    ) {
        if self.first_incorrect_frame is Some {
            (self, Err(InputQueueError::GetDurningPrediction))
        } else if r < self.oldest_frame() {
            (
                self,
                Err(
                    InputQueueError::BadFrameIndex {
                        given: r,
                        tail_frame: self.oldest_frame() as FrameSize,
                    },
                ),
            )
        } else {
            let v = QueueView { last_frame_requested: Some(r), ..self };
            if !self.predicting() && r < self.next_frame() {
                (v, Ok(GameInputFrame { frame: Some(r), input: self.entry_at(r as int).input }))
            } else {
                let pred = if self.predicting() {
                    self.prediction
                } else {
                    GameInputFrame {
                        frame: Some(self.next_frame() as FrameSize),
                        input: self.newest_payload(),
                    }
                };
                (
                    QueueView { prediction: pred, ..v },
                    Ok(GameInputFrame { frame: Some(r), input: pred.input }),
                )
            }
        }
    }

    /// Result of `get_confirmed_input(r)`.
    pub open spec fn confirmed_input_result(self, r: FrameSize) -> Result<
        GameInputFrame<T>,
        InputQueueError,
    > {
        if self.first_incorrect_frame matches Some(x) && r > x {
            Err(
                InputQueueError::BadFrameRequest {
                    given: r,
                    first_incorrect_frame: self.first_incorrect_frame->0,
                },
            )
        } else if self.stores(r as int) {
            Ok(self.entry_at(r as int))
        } else {
            Err(InputQueueError::FrameNotFound(r))
        }
    }

    /// Frames below this one are dropped by `discard_confirmed_frames(frame)`.
    pub open spec fn discard_watermark(self, frame: FrameSize) -> int {
        match self.last_frame_requested {
            Some(l) => if l < frame {
                l as int
            } else {
                frame as int
            },
            None => frame as int,
        }
    }

    /// State after `discard_confirmed_frames(frame)`.
    pub open spec fn discard_result(self, frame: FrameSize) -> QueueView<T> {
        let w = self.discard_watermark(frame);
        let k = if w <= self.oldest_frame() {
            0
        } else if w >= self.next_frame() {
            self.entries.len() as int
        } else {
            w - self.oldest_frame()
        };
        QueueView { entries: self.entries.subrange(k, self.entries.len() as int), ..self }
    }

    /// State and result of `reset_prediction(frame)`.
    pub open spec fn reset_result(self, frame: FrameSize) -> (
        QueueView<T>,
        Result<(), InputQueueError>,
    ) {
        match self.first_incorrect_frame {
            Some(x) if frame > x => (
                self,
                Err(InputQueueError::BadResetPrediction { given: frame, first_incorrect_frame: x }),
            ),
            _ => (
                QueueView {
                    prediction: GameInputFrame { frame: None, input: self.prediction.input },
                    first_incorrect_frame: None,
                    last_frame_requested: None,
                    ..self
                },
                Ok(()),
            ),
        }
    }
}

/// Known and predicted inputs of a single player.
#[derive(Debug)]
pub struct InputQueue<T> {
    queue: VecDeque<GameInputFrame<T>>,
    frame_delay: FrameSize,
    prediction: GameInputFrame<T>,
    last_user_added_frame: Option<FrameSize>,
    last_added_frame: Option<FrameSize>,
    first_incorrect_frame: Option<FrameSize>,
    last_frame_requested: Option<FrameSize>,
}

impl<T> View for InputQueue<T> {
    type V = QueueView<T>;

    closed spec fn view(&self) -> QueueView<T> {
        QueueView {
            entries: self.queue@,
            frame_delay: self.frame_delay,
            prediction: self.prediction,
            last_user_added_frame: self.last_user_added_frame,
            last_added_frame: self.last_added_frame,
            first_incorrect_frame: self.first_incorrect_frame,
            last_frame_requested: self.last_frame_requested,
        }
    }
}

impl<T: GameInput> Default for InputQueue<T> {
    fn default() -> (r: Self)
        ensures
            r@.wf(),
            r@.entries.len() == 0,
            r@.last_added_frame is None,
            r@.last_user_added_frame is None,
            r@.prediction.frame is None,
            r@.first_incorrect_frame is None,
            r@.last_frame_requested is None,
            r@.frame_delay == 0,
    {
        Self::new()
    }
}

impl<T: GameInput> InputQueue<T> {
    pub fn new() -> (r: Self)
        ensures
            r@.wf(),
            r@.entries.len() == 0,
            r@.frame_delay == 0,
            r@.prediction.frame is None,
            r@.last_user_added_frame is None,
            r@.last_added_frame is None,
            r@.first_incorrect_frame is None,
            r@.last_frame_requested is None,
    {
        InputQueue {
            queue: VecDeque::new(),
            frame_delay: 0,
            prediction: GameInputFrame::empty_input(),
            last_user_added_frame: None,
            last_added_frame: None,
            first_incorrect_frame: None,
            last_frame_requested: None,
        }
    }

    fn next_frame(&self) -> (r: FrameSize)
        requires
            self@.wf(),
        ensures
            r == self@.next_frame(),
    {
        match self.last_added_frame {
            Some(f) => f + 1,
            None => 0,
        }
    }

    fn oldest_frame(&self) -> (r: FrameSize)
        requires
            self@.wf(),
        ensures
            r == self@.oldest_frame(),
    {
        self.next_frame() - self.queue.len() as FrameSize
    }

    fn newest_payload(&self) -> (r: Option<T>)
        ensures
            r == self@.newest_payload(),
    {
        let n = self.queue.len();
        if n > 0 {
            self.queue[n - 1].input
        } else {
            None
        }
    }

    /// Appends a user input at its frame plus the frame delay, filling any
    /// skipped frames. A cleared frame in the result means the input landed
    /// on an already stored frame and was dropped.
    pub fn add_input(&mut self, input: GameInputFrame<T>) -> (r: Result<
        GameInputFrame<T>,
        InputQueueError,
    >)
        requires
            old(self)@.wf(),
            <T as PartialEqSpec>::obeys_eq_spec(),
            input.frame matches Some(f) ==> f + old(self)@.frame_delay < FrameSize::MAX,
        ensures
            final(self)@ == old(self)@.add_input_result(input).0,
            r == old(self)@.add_input_result(input).1,
            final(self)@.wf(),
    {
        let f = match input.frame {
            None => {
                return Err(InputQueueError::BadInput);
            },
            Some(f) => f,
        };
        let expected = match self.last_user_added_frame {
            Some(l) => l + 1,
            None => 0,
        };
        if f != expected {
            return Err(InputQueueError::NonSequentialUserInput { given: f, expected });
        }
        self.last_user_added_frame = Some(f);
        let eff = f + self.frame_delay;
        let next = self.next_frame();
        if eff < next {
            return Ok(GameInputFrame { frame: None, input: input.input });
        }
        let filler = self.newest_payload();
        let ghost v0 = self@;
        let mut k: FrameSize = next;
        while k < eff
            invariant
                self@.wf(),
                next <= k <= eff,
                eff < FrameSize::MAX,
                v0.next_frame() == next,
                self@.next_frame() == k,
                self@ == v0.store_fillers((k - next) as nat, filler),
                <T as PartialEqSpec>::obeys_eq_spec(),
            decreases eff - k,
        {
            self.store(filler);
            k = k + 1;
        }
        self.store(input.input);
        Ok(GameInputFrame { frame: Some(eff), input: input.input })
    }

    /// The input to use at `requested_frame`: the stored one, or a prediction
    /// from the newest stored payload once the request runs past storage.
    pub fn get_input(&mut self, requested_frame: FrameSize) -> (r: Result<
        GameInputFrame<T>,
        InputQueueError,
    >)
        requires
            old(self)@.wf(),
        ensures
            final(self)@ == old(self)@.get_input_result(requested_frame).0,
            r == old(self)@.get_input_result(requested_frame).1,
            final(self)@.wf(),
    {
        if self.first_incorrect_frame.is_some() {
            return Err(InputQueueError::GetDurningPrediction);
        }
        let oldest = self.oldest_frame();
        if requested_frame < oldest {
            return Err(InputQueueError::BadFrameIndex { given: requested_frame, tail_frame: oldest });
        }
        self.last_frame_requested = Some(requested_frame);
        if self.prediction.frame.is_none() {
            let next = self.next_frame();
            if requested_frame < next {
                let stored = self.queue[(requested_frame - oldest) as usize];
                return Ok(GameInputFrame { frame: Some(requested_frame), input: stored.input });
            }
            self.prediction = GameInputFrame { frame: Some(next), input: self.newest_payload() };
        }
        Ok(GameInputFrame { frame: Some(requested_frame), input: self.prediction.input })
    }

    /// The stored input of `requested_frame`, with its own frame number.
    pub fn get_confirmed_input(&self, requested_frame: FrameSize) -> (r: Result<
        GameInputFrame<T>,
        InputQueueError,
    >)
        requires
            self@.wf(),
        ensures
            r == self@.confirmed_input_result(requested_frame),
    {
        if let Some(first_incorrect_frame) = self.first_incorrect_frame {
            if requested_frame > first_incorrect_frame {
                return Err(
                    InputQueueError::BadFrameRequest { given: requested_frame, first_incorrect_frame },
                );
            }
        }
        let oldest = self.oldest_frame();
        let next = self.next_frame();
        if oldest <= requested_frame && requested_frame < next {
            Ok(self.queue[(requested_frame - oldest) as usize])
        } else {
            Err(InputQueueError::FrameNotFound(requested_frame))
        }
    }

    /// Drops the inputs below `frame`, never past the last frame requested.
    pub fn discard_confirmed_frames(&mut self, frame: FrameSize)
        requires
            old(self)@.wf(),
        ensures
            final(self)@ == old(self)@.discard_result(frame),
            final(self)@.wf(),
    {
        let w = match self.last_frame_requested {
            Some(l) => if l < frame {
                l
            } else {
                frame
            },
            None => frame,
        };
        let ghost v0 = self@;
        proof {
            assert(v0.entries.subrange(0, v0.entries.len() as int) =~= v0.entries);
        }
        while self.queue.len() > 0 && self.oldest_frame() < w
            invariant
                self@.wf(),
                v0.wf(),
                w == v0.discard_watermark(frame),
                v0.oldest_frame() <= self@.oldest_frame(),
                self@.oldest_frame() <= v0.oldest_frame() || self@.oldest_frame() <= w,
                self@ == (QueueView {
                    entries: v0.entries.subrange(
                        self@.oldest_frame() - v0.oldest_frame(),
                        v0.entries.len() as int,
                    ),
                    ..v0
                }),
            decreases self.queue.len(),
        {
            let ghost before = self@;
            self.queue.pop_front();
            proof {
                let v = self@;
                assert(v.entries =~= v0.entries.subrange(
                    v.oldest_frame() - v0.oldest_frame(),
                    v0.entries.len() as int,
                ));
                assert forall|i: int| 0 <= i < v.entries.len() implies #[trigger] v.entries[i].frame
                    == Some((v.oldest_frame() + i) as FrameSize) by {
                    assert(v.entries[i] == before.entries[i + 1]);
                }
            }
        }
        proof {
            assert(self@.entries =~= v0.discard_result(frame).entries);
        }
    }

    /// Leaves prediction mode so the queue can be read again from `frame`.
    pub fn reset_prediction(&mut self, frame: FrameSize) -> (r: Result<(), InputQueueError>)
        requires
            old(self)@.wf(),
        ensures
            final(self)@ == old(self)@.reset_result(frame).0,
            r == old(self)@.reset_result(frame).1,
            final(self)@.wf(),
    {
        if let Some(first_incorrect_frame) = self.first_incorrect_frame {
            if frame > first_incorrect_frame {
                return Err(
                    InputQueueError::BadResetPrediction { given: frame, first_incorrect_frame },
                );
            }
        }
        self.prediction.frame = None;
        self.first_incorrect_frame = None;
        self.last_frame_requested = None;
        Ok(())
    }

    pub fn set_frame_delay(&mut self, delay: FrameSize)
        requires
            old(self)@.wf(),
        ensures
            final(self)@ == (QueueView { frame_delay: delay, ..old(self)@ }),
            final(self)@.wf(),
    {
        self.frame_delay = delay;
    }

    pub fn frame_delay(&self) -> (r: FrameSize)
        ensures
            r == self@.frame_delay,
    {
        self.frame_delay
    }

    /// Number of stored inputs.
    pub fn get_length(&self) -> (r: usize)
        ensures
            r == self@.entries.len(),
    {
        self.queue.len()
    }

    /// The earliest frame found to contradict its prediction, if any.
    pub fn first_incorrect_frame(&self) -> (r: Option<FrameSize>)
        ensures
            r == self@.first_incorrect_frame,
    {
        self.first_incorrect_frame
    }

    /// Stores `input` at the next frame, reconciling a running prediction.
    fn store(&mut self, input: Option<T>)
        requires
            old(self)@.wf(),
            old(self)@.next_frame() < FrameSize::MAX,
            <T as PartialEqSpec>::obeys_eq_spec(),
        ensures
            final(self)@ == old(self)@.store_step(input),
            final(self)@.wf(),
    {
        let f = self.next_frame();
        self.queue.push_back(GameInputFrame { frame: Some(f), input });
        self.last_added_frame = Some(f);
        if let Some(pf) = self.prediction.frame {
            if self.first_incorrect_frame.is_none() && !payloads_equal(
                &self.prediction.input,
                &input,
            ) {
                self.first_incorrect_frame = Some(f);
            }
            if self.last_frame_requested == Some(pf) && self.first_incorrect_frame.is_none() {
                self.prediction.frame = None;
            } else {
                self.prediction.frame = Some(f + 1);
            }
        }
        proof {
            lemma_store_step(old(self)@, input, 0);
        }
    }
}


pub(crate) proof fn lemma_store_step<T: PartialEq>(q: QueueView<T>, p: Option<T>, bound: int)
    requires
        q.wf(),
        q.next_frame() < FrameSize::MAX,
    ensures
        q.store_step(p).wf(),
        q.store_step(p).next_frame() == q.next_frame() + 1,
        q.store_step(p).oldest_frame() == q.oldest_frame(),
        q.store_step(p).entries == q.entries.push(
            GameInputFrame { frame: Some(q.next_frame() as FrameSize), input: p },
        ),
        q.store_step(p).last_frame_requested == q.last_frame_requested,
        q.store_step(p).last_user_added_frame == q.last_user_added_frame,
        q.store_step(p).frame_delay == q.frame_delay,
        !q.predicting() ==> !q.store_step(p).predicting()
            && q.store_step(p).first_incorrect_frame == q.first_incorrect_frame,
        q.prediction_within(bound) ==> q.store_step(p).prediction_within(bound),
{
    let v = q.store_step(p);
    assert forall|i: int| 0 <= i < v.entries.len() implies #[trigger] v.entries[i].frame == Some(
        (v.oldest_frame() + i) as FrameSize,
    ) by {
        if i < v.entries.len() - 1 {
            assert(v.entries[i] == q.entries[i]);
        }
    }
}

pub(crate) proof fn lemma_store_fillers<T: PartialEq>(q: QueueView<T>, n: nat, p: Option<T>, bound: int)
    requires
        q.wf(),
        q.next_frame() + n <= FrameSize::MAX,
    ensures
        q.store_fillers(n, p).wf(),
        q.store_fillers(n, p).next_frame() == q.next_frame() + n,
        q.store_fillers(n, p).oldest_frame() == q.oldest_frame(),
        q.store_fillers(n, p).entries.len() == q.entries.len() + n,
        q.store_fillers(n, p).last_frame_requested == q.last_frame_requested,
        q.store_fillers(n, p).last_user_added_frame == q.last_user_added_frame,
        q.store_fillers(n, p).frame_delay == q.frame_delay,
        !q.predicting() ==> !q.store_fillers(n, p).predicting()
            && q.store_fillers(n, p).first_incorrect_frame == q.first_incorrect_frame,
        q.prediction_within(bound) ==> q.store_fillers(n, p).prediction_within(bound),
    decreases n,
{
    if n > 0 {
        lemma_store_fillers(q, (n - 1) as nat, p, bound);
        lemma_store_step(q.store_fillers((n - 1) as nat, p), p, bound);
    }
}

/// What `add_input` keeps: well-formedness, the oldest retained frame, the
/// last frame requested and the bound on the prediction.
pub proof fn lemma_add_input_keeps<T: PartialEq>(
    q: QueueView<T>,
    input: GameInputFrame<T>,
    bound: int,
)
    requires
        q.wf(),
        input.frame matches Some(f) ==> f + q.frame_delay < FrameSize::MAX,
    ensures
        q.add_input_result(input).0.wf(),
        q.add_input_result(input).0.oldest_frame() == q.oldest_frame(),
        q.add_input_result(input).0.last_frame_requested == q.last_frame_requested,
        q.add_input_result(input).0.frame_delay == q.frame_delay,
        q.prediction_within(bound) ==> q.add_input_result(input).0.prediction_within(bound),
{
    if let Some(f) = input.frame {
        let v = QueueView { last_user_added_frame: Some(f), ..q };
        let eff = f + q.frame_delay;
        if eff >= q.next_frame() {
            let n = (eff - q.next_frame()) as nat;
            lemma_store_fillers(v, n, v.newest_payload(), bound);
            lemma_store_step(v.store_fillers(n, v.newest_payload()), input.input, bound);
        }
    }
}

} // verus!
