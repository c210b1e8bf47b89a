//! The decisions of the reader task.
//!
//! The task itself waits on the transport and on the cancellation signal;
//! what it does with whatever came first is decided here. The caller hands
//! each event to [`Reader::step`] and carries out the action that comes back.

use vstd::prelude::*;
use crate::checksum::Checksum;
use crate::codec::frames_match;
use crate::codec::Frame;
use crate::codec::LineCodec;
use crate::framing::frames_of;
use crate::framing::retained_of;

verus! {

/// Why the reader task ended.
#[derive(Clone, Copy, PartialEq, Eq, Debug, Structural)]
pub enum StopReason {
    /// The owner asked for it.
    Cancelled,
    /// The device disappeared or failed for good.
    DeviceLost,
    /// Nobody takes the frames any more.
    ConsumerGone,
}

/// What happened at the task's suspension point.
#[derive(Debug)]
pub enum ReadEvent {
    /// A read returned these bytes at this time, in milliseconds since the
    /// epoch.
    Bytes { chunk: Vec<u8>, timestamp_ms: u64 },
    /// A read failed; `device_gone` tells a lost device from a passing error.
    ReadFailed { device_gone: bool },
    /// The cancellation signal arrived.
    Cancelled,
    /// Handing a frame to the consumer failed because the consumer is gone.
    ConsumerGone,
}

/// What the task does next.
#[derive(Debug)]
pub enum ReaderAction {
    /// Hand these frames to the consumer, in this order, then go on reading.
    Forward(Vec<Frame>),
    /// Go on reading.
    Continue,
    /// Report the read error to the log, then go on reading.
    Report,
    /// Leave the loop.
    Stop(StopReason),
}

/// The state of one reader task: the codec, the bytes not yet cut into
/// frames, and why it stopped once it has.
#[derive(Debug)]
pub struct Reader {
    codec: LineCodec,
    buffer: Vec<u8>,
    stopped: Option<StopReason>,
}

impl Reader {
    /// The bytes read but not yet cut into a frame.
    pub closed spec fn pending(&self) -> Seq<u8> {
        self.buffer@
    }

    /// Why the task stopped; `None` while it runs.
    pub closed spec fn stopped(&self) -> Option<StopReason> {
        self.stopped
    }

    /// The checksum under which frames are judged.
    pub closed spec fn policy(&self) -> Checksum {
        self.codec.policy()
    }

    /// A running reader with nothing buffered.
    pub fn new(codec: LineCodec) -> (reader: Reader)
        ensures
            reader.pending() == Seq::<u8>::empty(),
            reader.stopped() == None::<StopReason>,
            reader.policy() == codec.policy(),
    {
        Reader { codec, buffer: Vec::new(), stopped: None }
    }

    /// Why the task stopped; `None` while it runs.
    pub fn stop_reason(&self) -> (reason: Option<StopReason>)
        ensures
            reason == self.stopped(),
    {
        self.stopped
    }

    /// Whether the task has ended because its device was lost: the terminal
    /// error that the owner of the connection can ask for.
    pub fn failed(&self) -> (lost: bool)
        ensures
            lost == (self.stopped() == Some(StopReason::DeviceLost)),
    {
        match self.stopped {
            Some(StopReason::DeviceLost) => true,
            _ => false,
        }
    }

    /// How many bytes wait for the rest of their frame.
    pub fn buffered(&self) -> (n: usize)
        ensures
            n == self.pending().len(),
    {
        self.buffer.len()
    }

    /// Takes one event and says what the task does next.
    ///
    /// A stopped reader stays as it is and answers `Stop` with its reason:
    /// after a cancellation no frame comes out, whatever is still buffered.
    /// While running: bytes go through the codec and the frames they close
    /// are forwarded (an empty read, or one that closes no frame, just
    /// continues); a passing read error is reported; a lost device, a
    /// cancellation and a lost consumer each stop the task, leaving the
    /// buffer as it is.
    pub fn step(&mut self, event: ReadEvent) -> (action: ReaderAction)
        ensures
            final(self).policy() == old(self).policy(),
            old(self).stopped() is Some ==> {
                &&& final(self).pending() == old(self).pending()
                &&& final(self).stopped() == old(self).stopped()
                &&& action == ReaderAction::Stop(old(self).stopped().unwrap())
            },
            old(self).stopped() is None ==> match event {
                ReadEvent::Bytes { chunk, timestamp_ms } => {
                    &&& final(self).stopped() is None
                    &&& final(self).pending() == retained_of(old(self).pending() + chunk@)
                    &&& frames_of(old(self).pending() + chunk@).len() == 0 ==> action
                        is Continue
                    &&& frames_of(old(self).pending() + chunk@).len() > 0 ==> {
                        &&& action is Forward
                        &&& frames_match(
                            action->Forward_0@,
                            frames_of(old(self).pending() + chunk@),
                            timestamp_ms,
                            old(self).policy(),
                        )
                    }
                },
                ReadEvent::ReadFailed { device_gone } => {
                    &&& final(self).pending() == old(self).pending()
                    &&& !device_gone ==> final(self).stopped() is None && action is Report
                    &&& device_gone ==> final(self).stopped() == Some(StopReason::DeviceLost)
                        && action == ReaderAction::Stop(StopReason::DeviceLost)
                },
                ReadEvent::Cancelled => {
                    &&& final(self).pending() == old(self).pending()
                    &&& final(self).stopped() == Some(StopReason::Cancelled)
                    &&& action == ReaderAction::Stop(StopReason::Cancelled)
                },
                ReadEvent::ConsumerGone => {
                    &&& final(self).pending() == old(self).pending()
                    &&& final(self).stopped() == Some(StopReason::ConsumerGone)
                    &&& action == ReaderAction::Stop(StopReason::ConsumerGone)
                },
            },
    {
        if let Some(reason) = self.stopped {
            return ReaderAction::Stop(reason);
        }
        match event {
            ReadEvent::Bytes { chunk, timestamp_ms } => {
                let frames = self.codec.feed(&mut self.buffer, chunk.as_slice(), timestamp_ms);
                if frames.len() == 0 {
                    ReaderAction::Continue
                } else {
                    ReaderAction::Forward(frames)
                }
            },
            ReadEvent::ReadFailed { device_gone } => {
                if device_gone {
                    self.stopped = Some(StopReason::DeviceLost);
                    ReaderAction::Stop(StopReason::DeviceLost)
                } else {
                    ReaderAction::Report
                }
            },
            ReadEvent::Cancelled => {
                self.stopped = Some(StopReason::Cancelled);
                ReaderAction::Stop(StopReason::Cancelled)
            },
            ReadEvent::ConsumerGone => {
                self.stopped = Some(StopReason::ConsumerGone);
                ReaderAction::Stop(StopReason::ConsumerGone)
            },
        }
    }
}

} // verus!
