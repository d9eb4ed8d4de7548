use vstd::prelude::*;

use crate::error::{unsupported_message, Error};
use crate::event::PowerEvent;
use crate::events::Events;
use crate::platform;

verus! {

/// A watcher: the id under which it subscribed to the shared runtime.
///
/// The subscription itself is kept by the platform backend. When the backend
/// drops the watcher it unsubscribes it ([`crate::runtime::unsubscribe`]);
/// the last watcher to go tears down the shared OS runtime. Multiple watchers
/// in one process share a single platform runtime and each get their own
/// channel.
pub struct PowerWatch {
    id: u64,
}

impl PowerWatch {
    /// The id under which this watcher subscribed to the shared runtime.
    pub closed spec fn subscription(&self) -> u64 {
        self.id
    }

    /// Start watching OS power and session events on a platform without OS
    /// hooks (Linux, where logind is not wired up yet, and every platform
    /// but macOS): the answer is the unsupported-platform error.
    ///
    /// The macOS backend makes IOKit and Darwin notify calls, so it runs
    /// outside the library; it registers the shared runtime through
    /// [`crate::registration::Registration`], subscribes through
    /// [`crate::runtime::subscribe`] and builds its watcher with
    /// [`PowerWatch::from_subscription`].
    pub fn start() -> (r: Result<(Self, Events), Error>)
        ensures
            r is Err,
            r matches Err(e) ==> e.text() == unsupported_message(),
    {
        match platform::start() {
            Ok((id, rx)) => Ok(Self::from_subscription(id, rx)),
            Err(e) => Err(e),
        }
    }

    /// The watcher and its events for a backend that subscribed under `id`
    /// with the channel whose receiving end is `rx`.
    pub fn from_subscription(id: u64, rx: flume::Receiver<PowerEvent>) -> (r: (Self, Events))
        ensures
            r.0.subscription() == id,
            r.1.receiver() == rx,
    {
        (PowerWatch { id }, Events::from_flume(rx))
    }

    /// The id under which this watcher subscribed.
    pub fn id(&self) -> (id: u64)
        ensures
            id == self.subscription(),
    {
        self.id
    }
}

} // verus!
