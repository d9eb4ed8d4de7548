//! Subscribing a watcher to the shared runtime, and unsubscribing it when
//! the watcher is dropped.

use vstd::prelude::*;

use crate::channel::UnboundedSender;
use crate::error::Error;
use crate::handles::{OsHandles, ReleaseStep};
use crate::lifecycle::{joined, leave_releases, left, Lifecycle, RuntimeRecord};
use crate::subscribers::{following_id, Subscribers};

verus! {

/// Subscribes a watcher's channel to the registered runtime: the runtime
/// counts one more watcher, and the channel is added under the next id,
/// which is returned.
pub fn subscribe(
    slot: &mut Lifecycle,
    subscribers: &mut Subscribers,
    tx: UnboundedSender,
) -> (id: u64)
    requires
        old(slot).view() is Some,
        old(slot).view()->Some_0.watches < usize::MAX,
    ensures
        final(slot).view() == joined(old(slot).view()),
        id == old(subscribers).next_id(),
        final(subscribers).next_id() == following_id(old(subscribers).next_id()),
        final(subscribers).senders() == old(subscribers).senders().insert(id, tx),
        final(subscribers).wf(),
{
    slot.join();
    subscribers.add_sender(tx)
}

/// Unsubscribes the watcher with the id: its channel is removed and the
/// runtime counts one watcher less. When it was the last watcher, the
/// runtime leaves the slot and the releases of its teardown are returned.
pub fn unsubscribe(slot: &mut Lifecycle, subscribers: &mut Subscribers, id: u64) -> (release: Vec<
    ReleaseStep,
>)
    requires
        old(slot).view() is Some,
        old(slot).view()->Some_0.watches > 0,
    ensures
        final(slot).view() == left(old(slot).view()),
        release@ == leave_releases(old(slot).view()),
        final(subscribers).senders() == old(subscribers).senders().remove(id),
        final(subscribers).next_id() == old(subscribers).next_id(),
        final(subscribers).wf(),
{
    subscribers.remove_sender(id);
    slot.leave()
}

/// The text of the error when no runtime is registered to subscribe to.
pub open spec fn no_runtime_message() -> Seq<char> {
    "the shared runtime is not registered"@
}

/// The text of the error when the runtime already counts as many watchers as
/// its counter holds.
pub open spec fn too_many_watchers_message() -> Seq<char> {
    "too many watchers on the shared runtime"@
}

/// Stores the outcome of registering the runtime, for a start that found no
/// runtime: a registered runtime is installed with no watcher on it yet; a
/// failed registration leaves the slot empty, and its error is the start's
/// answer.
pub fn install_registered(slot: &mut Lifecycle, registered: Result<OsHandles, Error>) -> (r: Result<
    (),
    Error,
>)
    requires
        old(slot).view() is None,
    ensures
        match registered {
            Ok(handles) => r is Ok && final(slot).view() == Some(
                RuntimeRecord { handles, watches: 0 },
            ),
            Err(e) => r == Err::<(), Error>(e) && final(slot).view() == None::<RuntimeRecord>,
        },
{
    match registered {
        Ok(handles) => {
            slot.install(handles);
            Ok(())
        },
        Err(e) => Err(e),
    }
}

/// Subscribes a watcher's channel for a start, once the runtime is
/// registered: with no runtime, or with a runtime that already counts as
/// many watchers as its counter holds, nothing changes and the answer is an
/// error; otherwise the watcher joins as [`subscribe`] states.
pub fn try_subscribe(
    slot: &mut Lifecycle,
    subscribers: &mut Subscribers,
    tx: UnboundedSender,
) -> (r: Result<u64, Error>)
    ensures
        match old(slot).view() {
            None => r is Err && r->Err_0.text() == no_runtime_message(),
            Some(rec) => if rec.watches == usize::MAX {
                r is Err && r->Err_0.text() == too_many_watchers_message()
            } else {
                r == Ok::<u64, Error>(old(subscribers).next_id())
            },
        },
        r is Err ==> final(slot).view() == old(slot).view() && final(subscribers).entries() == old(
            subscribers,
        ).entries() && final(subscribers).next_id() == old(subscribers).next_id(),
        r is Ok ==> final(slot).view() == joined(old(slot).view()) && final(subscribers).next_id()
            == following_id(old(subscribers).next_id()) && final(subscribers).senders() == old(
            subscribers,
        ).senders().insert(r->Ok_0, tx),
{
    if slot.needs_registration() {
        return Err(Error::platform("the shared runtime is not registered"));
    }
    if slot.watches() == usize::MAX {
        return Err(Error::platform("too many watchers on the shared runtime"));
    }
    Ok(subscribe(slot, subscribers, tx))
}

} // verus!
