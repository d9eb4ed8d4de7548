use vstd::prelude::*;

use crate::channel::{channel_recv, channel_try_recv, TryRecvOutcome};
use crate::event::PowerEvent;

verus! {

/// Event receiver of one watcher.
///
/// Blocking (`recv`, `try_recv`) receives go through the channel's receiving
/// end; the async receive and the stream use the same channel.
pub struct Events {
    rx: flume::Receiver<PowerEvent>,
}

/// An error returned from [`Events::recv`] when the channel is disconnected.
#[derive(Debug, Clone, Copy, PartialEq, Eq, Structural)]
pub struct RecvError;

/// An error returned from [`Events::try_recv`].
#[derive(Debug, Clone, Copy, PartialEq, Eq, Structural)]
pub enum TryRecvError {
    /// No event is available yet.
    Empty,
    /// The watcher was dropped; no further events will arrive.
    Disconnected,
}

/// The text of a receive on a closed channel.
pub open spec fn closed_message() -> Seq<char> {
    "receiving on a closed channel"@
}

/// The text of a receive on an empty channel.
pub open spec fn empty_message() -> Seq<char> {
    "receiving on an empty channel"@
}

impl RecvError {
    /// The human-readable text of the error.
    pub fn message(&self) -> (m: &'static str)
        ensures
            m@ == closed_message(),
    {
        "receiving on a closed channel"
    }
}

impl TryRecvError {
    /// The human-readable text of the error.
    pub fn message(&self) -> (m: &'static str)
        ensures
            m@ == (match self {
                TryRecvError::Empty => empty_message(),
                TryRecvError::Disconnected => closed_message(),
            }),
    {
        match self {
            TryRecvError::Empty => "receiving on an empty channel",
            TryRecvError::Disconnected => "receiving on a closed channel",
        }
    }
}

/// What a blocking receive answers for what the channel gave back.
pub open spec fn recv_answer(outcome: Result<PowerEvent, ()>) -> Result<PowerEvent, RecvError> {
    match outcome {
        Ok(event) => Ok(event),
        Err(()) => Err(RecvError),
    }
}

/// What a non-blocking receive answers for what the channel gave back.
pub open spec fn try_recv_answer(outcome: TryRecvOutcome) -> Result<PowerEvent, TryRecvError> {
    match outcome {
        TryRecvOutcome::Received(event) => Ok(event),
        TryRecvOutcome::Empty => Err(TryRecvError::Empty),
        TryRecvOutcome::Disconnected => Err(TryRecvError::Disconnected),
    }
}

/// Turns what the channel gave back on a blocking receive into the answer of
/// [`Events::recv`].
pub fn answer_recv(outcome: Result<PowerEvent, ()>) -> (r: Result<PowerEvent, RecvError>)
    ensures
        r == recv_answer(outcome),
{
    match outcome {
        Ok(event) => Ok(event),
        Err(()) => Err(RecvError),
    }
}

/// Turns what the channel gave back on a non-blocking receive into the answer
/// of [`Events::try_recv`].
pub fn answer_try_recv(outcome: TryRecvOutcome) -> (r: Result<PowerEvent, TryRecvError>)
    ensures
        r == try_recv_answer(outcome),
{
    match outcome {
        TryRecvOutcome::Received(event) => Ok(event),
        TryRecvOutcome::Empty => Err(TryRecvError::Empty),
        TryRecvOutcome::Disconnected => Err(TryRecvError::Disconnected),
    }
}

/// The answer to a receive carries the channel's outcome through unchanged:
/// an event that the channel gave back is the answer's event; a blocking
/// receive answers an error exactly when the channel reported every sender
/// gone; a non-blocking one answers `Empty` exactly for an empty channel and
/// `Disconnected` exactly for a disconnected one.
pub proof fn law_answers_follow_the_channel(
    blocking: Result<PowerEvent, ()>,
    non_blocking: TryRecvOutcome,
    event: PowerEvent,
)
    ensures
        recv_answer(blocking) == Ok::<PowerEvent, RecvError>(event) <==> blocking == Ok::<
            PowerEvent,
            (),
        >(event),
        recv_answer(blocking) is Err <==> blocking is Err,
        try_recv_answer(non_blocking) == Ok::<PowerEvent, TryRecvError>(event) <==> non_blocking
            == TryRecvOutcome::Received(event),
        try_recv_answer(non_blocking) == Err::<PowerEvent, TryRecvError>(TryRecvError::Empty)
            <==> non_blocking == TryRecvOutcome::Empty,
        try_recv_answer(non_blocking) == Err::<PowerEvent, TryRecvError>(
            TryRecvError::Disconnected,
        ) <==> non_blocking == TryRecvOutcome::Disconnected,
{
}

impl Events {
    /// The receiving end that this value reads.
    pub closed spec fn receiver(&self) -> flume::Receiver<PowerEvent> {
        self.rx
    }

    /// Wraps the receiving end of a watcher's channel.
    pub fn from_flume(rx: flume::Receiver<PowerEvent>) -> (events: Self)
        ensures
            events.receiver() == rx,
    {
        Self { rx }
    }

    /// The receiving end, for the async receive and the stream.
    pub fn as_flume(&self) -> (rx: &flume::Receiver<PowerEvent>)
        ensures
            *rx == self.receiver(),
    {
        &self.rx
    }

    /// Block until the next event, or until the watcher is dropped.
    ///
    /// The answer is what [`answer_recv`] makes of what the channel gave back.
    pub fn recv(&self) -> (r: Result<PowerEvent, RecvError>)
        ensures
            exists|outcome: Result<PowerEvent, ()>| r == recv_answer(outcome),
    {
        let outcome = channel_recv(&self.rx);
        answer_recv(outcome)
    }

    /// Receive the next event without blocking.
    ///
    /// The answer is what [`answer_try_recv`] makes of what the channel gave
    /// back.
    pub fn try_recv(&self) -> (r: Result<PowerEvent, TryRecvError>)
        ensures
            exists|outcome: TryRecvOutcome| r == try_recv_answer(outcome),
    {
        let outcome = channel_try_recv(&self.rx);
        answer_try_recv(outcome)
    }
}

} // verus!
