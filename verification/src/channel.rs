//! The channel that carries events from the OS runtime to a subscriber.
//!
//! The channel is `flume`'s, and always unbounded: the library makes every
//! channel that it sends on itself, so a send never waits. What a receive
//! returns, and whether a send is queued, depends on the other end, which
//! another thread holds; the trusted items below therefore promise nothing
//! of what comes back. Each sending end records the sends made on it: the
//! event handed to the send and what the send gave back.

use vstd::prelude::*;

use crate::event::PowerEvent;

verus! {

/// The receiving end of a `flume` channel.
#[verifier::external_type_specification]
#[verifier::external_body]
#[verifier::reject_recursive_types(T)]
pub struct ExFlumeReceiver<T>(flume::Receiver<T>);

/// The sending end of a `flume` channel.
#[verifier::external_type_specification]
#[verifier::external_body]
#[verifier::reject_recursive_types(T)]
pub struct ExFlumeSender<T>(flume::Sender<T>);

/// One send on a channel: the event handed to it, and whether it was queued
/// (`true`) or every receiver was gone (`false`).
#[derive(Debug, Clone, Copy, PartialEq, Eq, Structural)]
pub struct Offer {
    pub event: PowerEvent,
    pub delivered: bool,
}

/// The sending end of an unbounded channel, with the record of every send
/// made on it. The only way to get one is [`unbounded_channel`], so every
/// send on it queues without waiting.
pub struct UnboundedSender {
    tx: flume::Sender<PowerEvent>,
    offers: Ghost<Seq<Offer>>,
}

impl UnboundedSender {
    /// The channel that this end sends on.
    pub closed spec fn channel(&self) -> flume::Sender<PowerEvent> {
        self.tx
    }

    /// The sends made on this end, in order.
    pub closed spec fn offers(&self) -> Seq<Offer> {
        self.offers@
    }
}

/// Calls `flume::unbounded`: a new channel with no capacity limit, its
/// sending end kept as an [`UnboundedSender`] on which nothing has been sent
/// yet. The two ends belong to the same fresh channel; no clause states that,
/// as no spec value here stands for a receiving end's channel.
#[verifier::external_body]
pub fn unbounded_channel() -> (ends: (UnboundedSender, flume::Receiver<PowerEvent>))
    ensures
        ends.0.offers() == Seq::<Offer>::empty(),
{
    let (tx, rx) = flume::unbounded();
    (UnboundedSender { tx, offers: Ghost(Seq::empty()) }, rx)
}

/// Calls `flume::Receiver::recv`: blocks until an event arrives, and reports
/// `Err(())` once every sender is gone and the channel is drained. Which of
/// the two comes back depends on the senders, which other threads hold, so
/// nothing is stated of the result.
#[verifier::external_body]
pub(crate) fn channel_recv(rx: &flume::Receiver<PowerEvent>) -> (r: Result<PowerEvent, ()>) {
    match rx.recv() {
        Ok(event) => Ok(event),
        Err(flume::RecvError::Disconnected) => Err(()),
    }
}

/// The outcome of `flume::Receiver::try_recv` with its error told apart:
/// `Empty` when nothing is waiting, `Disconnected` when every sender is gone
/// and nothing is waiting.
pub enum TryRecvOutcome {
    /// An event was waiting and has been taken.
    Received(PowerEvent),
    /// Nothing was waiting.
    Empty,
    /// Every sender is gone and nothing was waiting.
    Disconnected,
}

/// Calls `flume::Receiver::try_recv` without blocking. What is waiting in the
/// channel depends on other threads, so nothing is stated of the result.
#[verifier::external_body]
pub(crate) fn channel_try_recv(rx: &flume::Receiver<PowerEvent>) -> (r: TryRecvOutcome) {
    match rx.try_recv() {
        Ok(event) => TryRecvOutcome::Received(event),
        Err(flume::TryRecvError::Empty) => TryRecvOutcome::Empty,
        Err(flume::TryRecvError::Disconnected) => TryRecvOutcome::Disconnected,
    }
}

/// Calls `flume::Sender::send` with `event` on the sending end of an
/// unbounded channel (the only kind [`UnboundedSender`] holds), where it
/// never waits, and reports whether the event was queued (`true`) or every
/// receiver was gone (`false`). Which of the two depends on the receivers,
/// which other threads hold, so the result is free; the send is recorded
/// with the event handed to it and the result, on the same channel.
#[verifier::external_body]
pub(crate) fn channel_send(tx: &mut UnboundedSender, event: PowerEvent) -> (delivered: bool)
    ensures
        final(tx).channel() == old(tx).channel(),
        final(tx).offers() == old(tx).offers().push(Offer { event, delivered }),
{
    tx.tx.send(event).is_ok()
}

} // verus!
