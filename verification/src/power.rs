//! What the runtime does with a system power message from IOKit.
//!
//! Sleep is acknowledged at once: the acknowledgement comes before the event
//! is sent, and nothing is done before it. `Shutdown` never comes from here:
//! the IOKit power API does not deliver it.

use vstd::prelude::*;

use crate::event::PowerEvent;

verus! {

/// The null IOKit object: no port, no notifier.
pub const IO_OBJECT_NULL: u32 = 0;

/// `kIOMessageCanSystemSleep`: `iokit_common_msg(0x270)`, the system ponders
/// an idle sleep.
pub const MESSAGE_CAN_SYSTEM_SLEEP: u32 = 0xe000_0270;

/// `kIOMessageSystemWillSleep`: `iokit_common_msg(0x280)`, the system is going
/// to sleep.
pub const MESSAGE_SYSTEM_WILL_SLEEP: u32 = 0xe000_0280;

/// `kIOMessageSystemHasPoweredOn`: `iokit_common_msg(0x300)`, the system has
/// finished waking.
pub const MESSAGE_SYSTEM_HAS_POWERED_ON: u32 = 0xe000_0300;

/// What to do for one power message: first acknowledge the power change to
/// the root port when `allow_power_change` holds, then send `event` to the
/// subscribers when there is one.
#[derive(Debug, Clone, Copy, PartialEq, Eq, Structural)]
pub struct PowerResponse {
    pub allow_power_change: bool,
    pub event: Option<PowerEvent>,
}

/// The response to a power message, given the root power port that the
/// runtime holds (`IO_OBJECT_NULL` before registration or after teardown).
pub open spec fn response_to(message_type: u32, root_port: u32) -> PowerResponse {
    if message_type == MESSAGE_CAN_SYSTEM_SLEEP {
        PowerResponse { allow_power_change: root_port != IO_OBJECT_NULL, event: None }
    } else if message_type == MESSAGE_SYSTEM_WILL_SLEEP {
        PowerResponse {
            allow_power_change: root_port != IO_OBJECT_NULL,
            event: Some(PowerEvent::Suspend),
        }
    } else if message_type == MESSAGE_SYSTEM_HAS_POWERED_ON {
        PowerResponse { allow_power_change: false, event: Some(PowerEvent::Resume) }
    } else {
        PowerResponse { allow_power_change: false, event: None }
    }
}

/// Decides the response to a system power message.
pub fn respond_to_power_message(message_type: u32, root_port: u32) -> (r: PowerResponse)
    ensures
        r == response_to(message_type, root_port),
{
    if message_type == MESSAGE_CAN_SYSTEM_SLEEP {
        return PowerResponse { allow_power_change: root_port != IO_OBJECT_NULL, event: None };
    }
    if message_type == MESSAGE_SYSTEM_WILL_SLEEP {
        return PowerResponse {
            allow_power_change: root_port != IO_OBJECT_NULL,
            event: Some(PowerEvent::Suspend),
        };
    }
    if message_type == MESSAGE_SYSTEM_HAS_POWERED_ON {
        return PowerResponse { allow_power_change: false, event: Some(PowerEvent::Resume) };
    }
    PowerResponse { allow_power_change: false, event: None }
}

/// A Darwin screen notification that the runtime registers for.
#[derive(Debug, Clone, Copy, PartialEq, Eq, Structural)]
pub enum ScreenNotification {
    /// `com.apple.screenIsLocked`.
    Locked,
    /// `com.apple.screenIsUnlocked`.
    Unlocked,
}

/// The event that a screen notification becomes.
pub open spec fn screen_event_of(notification: ScreenNotification) -> PowerEvent {
    match notification {
        ScreenNotification::Locked => PowerEvent::ScreenLocked,
        ScreenNotification::Unlocked => PowerEvent::ScreenUnlocked,
    }
}

/// Decides the event that a screen notification becomes.
pub fn screen_event(notification: ScreenNotification) -> (e: PowerEvent)
    ensures
        e == screen_event_of(notification),
{
    match notification {
        ScreenNotification::Locked => PowerEvent::ScreenLocked,
        ScreenNotification::Unlocked => PowerEvent::ScreenUnlocked,
    }
}

/// Sleep is acknowledged at once and nothing else is: a power change is
/// acknowledged exactly for the two sleep messages, `kIOMessageCanSystemSleep`
/// (`0xe000_0270`) and `kIOMessageSystemWillSleep` (`0xe000_0280`), and only
/// while the root port is held; every other message, whatever the root port,
/// is not acknowledged. `Suspend` comes only from the will-sleep message and
/// `Resume` only from `kIOMessageSystemHasPoweredOn` (`0xe000_0300`); no other
/// message yields an event, and no power message yields a lock, unlock or
/// shutdown event.
pub proof fn law_power_responses(message_type: u32, root_port: u32)
    ensures
        response_to(message_type, root_port).allow_power_change <==> (root_port != 0 && (
        message_type == 0xe000_0270u32 || message_type == 0xe000_0280u32)),
        message_type != 0xe000_0270u32 && message_type != 0xe000_0280u32 ==> !response_to(
            message_type,
            root_port,
        ).allow_power_change,
        response_to(message_type, root_port).event == Some(PowerEvent::Suspend) <==> message_type
            == 0xe000_0280u32,
        response_to(message_type, root_port).event == Some(PowerEvent::Resume) <==> message_type
            == 0xe000_0300u32,
        response_to(message_type, root_port).event is Some <==> (message_type == 0xe000_0280u32
            || message_type == 0xe000_0300u32),
        response_to(message_type, root_port).event != Some(PowerEvent::ScreenLocked),
        response_to(message_type, root_port).event != Some(PowerEvent::ScreenUnlocked),
        response_to(message_type, root_port).event != Some(PowerEvent::Shutdown),
{
}

/// The screen-locked notification becomes `ScreenLocked` and the
/// screen-unlocked one `ScreenUnlocked`, and neither becomes the other.
pub proof fn law_screen_events(notification: ScreenNotification)
    ensures
        screen_event_of(notification) == PowerEvent::ScreenLocked <==> notification
            == ScreenNotification::Locked,
        screen_event_of(notification) == PowerEvent::ScreenUnlocked <==> notification
            == ScreenNotification::Unlocked,
{
}

} // verus!
