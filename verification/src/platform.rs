//! The backend of a platform without power-event support here (Linux, where
//! logind is not wired up yet, and every other platform but macOS).

use vstd::prelude::*;

use crate::error::{unsupported_message, Error};
use crate::event::PowerEvent;

verus! {

/// Starts the platform backend: a subscription id and the receiving end of
/// its channel. This backend has no OS hooks, so it always reports the
/// unsupported-platform error.
pub fn start() -> (r: Result<(u64, flume::Receiver<PowerEvent>), Error>)
    ensures
        r is Err,
        r matches Err(e) ==> e.text() == unsupported_message(),
{
    Err(Error::unsupported())
}

} // verus!
