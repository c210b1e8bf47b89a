//! The hand-over of frames from the reader to the consumer: a queue that
//! holds at most one frame.
//!
//! A producer that finds it full gets its frame back and has to wait until
//! the consumer has taken the one in flight; so a slow consumer slows the
//! reader down and memory does not grow.

use vstd::prelude::*;
use crate::codec::Frame;

verus! {

/// What became of a frame that was offered.
#[derive(Debug)]
pub enum Offer {
    /// The bridge took it.
    Accepted,
    /// A frame is still in flight. The offered frame comes back, and the
    /// producer waits before it offers again.
    Full(Frame),
    /// The consumer is gone. The offered frame comes back, and the producer
    /// stops.
    Closed(Frame),
}

/// A bounded queue of capacity one.
#[derive(Debug)]
pub struct Bridge {
    slot: Option<Frame>,
    consumer_gone: bool,
}

impl Bridge {
    /// The frame in flight, if there is one.
    pub closed spec fn in_flight(&self) -> Option<Frame> {
        self.slot
    }

    /// Whether the consumer is gone.
    pub closed spec fn is_closed(&self) -> bool {
        self.consumer_gone
    }

    /// An open bridge with nothing in flight.
    pub fn new() -> (bridge: Bridge)
        ensures
            bridge.in_flight() == None::<Frame>,
            !bridge.is_closed(),
    {
        Bridge { slot: None, consumer_gone: false }
    }

    /// Offers a frame. An open, empty bridge takes it. A closed bridge, and
    /// an open one with a frame in flight, hand it back and stay as they
    /// are: what is in flight is never displaced.
    pub fn try_send(&mut self, frame: Frame) -> (offer: Offer)
        ensures
            final(self).is_closed() == old(self).is_closed(),
            old(self).is_closed() ==> offer == Offer::Closed(frame) && final(self).in_flight()
                == old(self).in_flight(),
            !old(self).is_closed() && old(self).in_flight() is Some ==> offer == Offer::Full(
                frame,
            ) && final(self).in_flight() == old(self).in_flight(),
            !old(self).is_closed() && old(self).in_flight() is None ==> offer == Offer::Accepted
                && final(self).in_flight() == Some(frame),
    {
        if self.consumer_gone {
            Offer::Closed(frame)
        } else if self.slot.is_some() {
            Offer::Full(frame)
        } else {
            self.slot = Some(frame);
            Offer::Accepted
        }
    }

    /// Takes the frame in flight without waiting; `None` where there is
    /// none. Afterwards the bridge is empty.
    pub fn try_receive(&mut self) -> (frame: Option<Frame>)
        ensures
            frame == old(self).in_flight(),
            final(self).in_flight() == None::<Frame>,
            final(self).is_closed() == old(self).is_closed(),
    {
        self.slot.take()
    }

    /// Records that the consumer is gone. From then on every offer is
    /// answered `Closed`.
    pub fn close(&mut self)
        ensures
            final(self).is_closed(),
            final(self).in_flight() == old(self).in_flight(),
    {
        self.consumer_gone = true;
    }
}

} // verus!
