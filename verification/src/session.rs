//! The render loop, turn by turn.
//!
//! Once the native window is there, the loop asks it whether it is to
//! close; while it is not, the loop draws a frame and tells whoever listens
//! that a frame is done. The library decides what comes next; the caller
//! does it and reports back.

use vstd::prelude::*;

verus! {

/// How telling the listener went.
#[derive(Clone, Copy, Debug, PartialEq, Eq, Structural)]
pub enum Sent {
    /// The listener has the notice.
    Delivered,
    /// The listener has not taken the last notice yet; this one is dropped.
    Full,
    /// Nobody listens any more.
    Disconnected,
}

/// What has just happened in the loop.
#[derive(Clone, Copy, Debug, PartialEq, Eq, Structural)]
pub enum Event {
    /// The native window was made.
    Started,
    /// The native window said whether it is to close.
    Polled(bool),
    /// A frame was drawn.
    Rendered,
    /// The listener was told that a frame is done.
    Notified(Sent),
}

/// What the loop is to do next.
#[derive(Clone, Copy, Debug, PartialEq, Eq, Structural)]
pub enum Turn {
    /// Ask the native window whether it is to close.
    Poll,
    /// Draw a frame.
    Render,
    /// Tell the listener that a frame is done.
    Notify,
    /// Leave the loop: the window is to close.
    Stop,
    /// Give up: nobody listens any more.
    Fail,
}

/// What follows `event`.
///
/// A window that is to close ends the loop before the next frame. A notice
/// that the listener has not taken is no fault; a listener that is gone is
/// one.
pub open spec fn follows(event: Event) -> Turn {
    match event {
        Event::Started => Turn::Poll,
        Event::Polled(close) => if close {
            Turn::Stop
        } else {
            Turn::Render
        },
        Event::Rendered => Turn::Notify,
        Event::Notified(sent) => if sent == Sent::Disconnected {
            Turn::Fail
        } else {
            Turn::Poll
        },
    }
}

/// What the loop is to do after `event`.
pub fn turn(event: Event) -> (next: Turn)
    ensures
        next == follows(event),
{
    match event {
        Event::Started => Turn::Poll,
        Event::Polled(true) => Turn::Stop,
        Event::Polled(false) => Turn::Render,
        Event::Rendered => Turn::Notify,
        Event::Notified(Sent::Disconnected) => Turn::Fail,
        Event::Notified(_) => Turn::Poll,
    }
}

} // verus!
