//! OS power and session events on a channel, without a GUI event loop.
//!
//! The library holds the decisions of a power watcher: which event an OS
//! power or screen message becomes; that each event is handed once to every
//! subscriber's channel, and which subscribers are kept after that (those
//! whose send was queued); how subscriber ids are handed out; when the shared
//! OS runtime is registered and when it is torn down; and which OS handles
//! are released on the way. Each of them is proved against its contract.
//! Whether a send is queued, and what a receive returns, depends on other
//! threads and is not stated.

pub mod channel;
pub mod error;
pub mod event;
pub mod events;
pub mod handles;
pub mod lifecycle;
pub mod platform;
pub mod power;
pub mod registration;
pub mod runtime;
pub mod subscribers;
pub mod watch;

pub use error::Error;
pub use event::PowerEvent;
pub use events::{Events, RecvError, TryRecvError};
pub use watch::PowerWatch;
