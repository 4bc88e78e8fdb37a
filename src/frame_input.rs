use vstd::prelude::*;
use vstd::std_specs::cmp::PartialEqSpec;

verus! {

/// Frame numbers count up from zero, one per simulation tick.
pub type FrameSize = u32;

/// What a player's input must offer: it is copied freely and compared.
pub trait GameInput: Copy + PartialEq + core::fmt::Debug {

}

impl<T: Copy + PartialEq + core::fmt::Debug> GameInput for T {

}

/// One player's input at one frame. Either part may be absent: a cleared
/// frame marks an input that was dropped, an absent payload an empty input.
#[derive(Debug, Clone, Copy)]
pub struct GameInputFrame<T> {
    pub frame: Option<FrameSize>,
    pub input: Option<T>,
}

/// Payload equality, as the payload type's `==` defines it.
pub open spec fn payload_eq<T: PartialEq>(a: Option<T>, b: Option<T>) -> bool {
    match (a, b) {
        (Some(x), Some(y)) => <T as PartialEqSpec>::eq_spec(&x, &y),
        (None, None) => true,
        _ => false,
    }
}

/// Compares two optional payloads with the payload type's `==`.
pub fn payloads_equal<T: PartialEq>(a: &Option<T>, b: &Option<T>) -> (r: bool)
    ensures
        <T as PartialEqSpec>::obeys_eq_spec() ==> r == payload_eq(*a, *b),
{
    match (a, b) {
        (Some(x), Some(y)) => x == y,
        (None, None) => true,
        _ => false,
    }
}

impl<T: PartialEq> PartialEq for GameInputFrame<T> {
    /// Two inputs are equal when their payloads are; the frame is ignored.
    fn eq(&self, other: &Self) -> (r: bool)
        ensures
            <T as PartialEqSpec>::obeys_eq_spec() ==> r == payload_eq(self.input, other.input),
    {
        payloads_equal(&self.input, &other.input)
    }
}

impl<T: PartialEq> vstd::std_specs::cmp::PartialEqSpecImpl for GameInputFrame<T> {
    open spec fn obeys_eq_spec() -> bool {
        <T as PartialEqSpec>::obeys_eq_spec()
    }

    open spec fn eq_spec(&self, other: &Self) -> bool {
        payload_eq(self.input, other.input)
    }
}

impl<T: Copy> GameInputFrame<T> {
    pub fn new(input: T, frame: FrameSize) -> (r: Self)
        ensures
            r.frame == Some(frame),
            r.input == Some(input),
    {
        GameInputFrame { frame: Some(frame), input: Some(input) }
    }

    pub fn empty_input() -> (r: Self)
        ensures
            r.frame is None,
            r.input is None,
    {
        GameInputFrame { frame: None, input: None }
    }

    pub fn erase_input(&mut self)
        ensures
            final(self).frame == old(self).frame,
            final(self).input is None,
    {
        self.input = None;
    }
}

impl<T: Copy> From<(T, FrameSize)> for GameInputFrame<T> {
    fn from(inner: (T, FrameSize)) -> (r: Self)
        ensures
            r.frame == Some(inner.1),
            r.input == Some(inner.0),
    {
        GameInputFrame { frame: Some(inner.1), input: Some(inner.0) }
    }
}

impl<T: Copy> vstd::std_specs::convert::FromSpecImpl<(T, FrameSize)> for GameInputFrame<T> {
    open spec fn obeys_from_spec() -> bool {
        true
    }

    open spec fn from_spec(inner: (T, FrameSize)) -> Self {
        GameInputFrame { frame: Some(inner.1), input: Some(inner.0) }
    }
}

/// The frame the host is asked to save a snapshot of.
#[derive(Debug, PartialEq, Eq, Structural, Clone, Copy)]
pub struct SaveFrame {
    pub frame: FrameSize,
}

/// A rollback order: load the snapshot of `frame`, then advance `num_steps`
/// frames.
#[derive(Debug, PartialEq, Eq, Structural, Clone, Copy)]
pub struct RollbackState {
    pub frame: FrameSize,
    pub num_steps: FrameSize,
}

} // verus!
