use powerwatch::channel::{unbounded_channel, TryRecvOutcome};
use powerwatch::events::{answer_recv, answer_try_recv};
use powerwatch::handles::{OsHandles, ReleaseStep, TOKEN_NONE};
use powerwatch::lifecycle::Lifecycle;
use powerwatch::power::{
    respond_to_power_message, screen_event, PowerResponse, ScreenNotification,
    MESSAGE_CAN_SYSTEM_SLEEP,
    MESSAGE_SYSTEM_HAS_POWERED_ON, MESSAGE_SYSTEM_WILL_SLEEP,
};
use powerwatch::registration::{RegisterAction, RegisterEvent, RegisterPhase, Registration};
use powerwatch::runtime::{install_registered, subscribe, try_subscribe, unsubscribe};
use powerwatch::subscribers::Subscribers;
use powerwatch::{Error, Events, PowerEvent, PowerWatch, RecvError, TryRecvError};

#[test]
fn start_is_unsupported() {
    assert!(PowerWatch::start().is_err());
}

#[test]
fn start_reports_the_unsupported_message() {
    match PowerWatch::start() {
        Err(e) => assert_eq!(e.message(), "powerwatch is not supported on this platform"),
        Ok(_) => panic!("start succeeded"),
    }
}

#[test]
fn error_messages() {
    assert_eq!(
        Error::unsupported().message(),
        "powerwatch is not supported on this platform"
    );
    assert_eq!(Error::platform("boom").message(), "boom");
}

#[test]
fn receive_error_messages() {
    assert_eq!(RecvError.message(), "receiving on a closed channel");
    assert_eq!(TryRecvError::Empty.message(), "receiving on an empty channel");
    assert_eq!(
        TryRecvError::Disconnected.message(),
        "receiving on a closed channel"
    );
}

#[test]
fn answers_follow_the_channel_outcome() {
    assert_eq!(answer_recv(Ok(PowerEvent::Resume)), Ok(PowerEvent::Resume));
    assert_eq!(answer_recv(Err(())), Err(RecvError));
    assert_eq!(
        answer_try_recv(TryRecvOutcome::Received(PowerEvent::ScreenLocked)),
        Ok(PowerEvent::ScreenLocked)
    );
    assert_eq!(answer_try_recv(TryRecvOutcome::Empty), Err(TryRecvError::Empty));
    assert_eq!(
        answer_try_recv(TryRecvOutcome::Disconnected),
        Err(TryRecvError::Disconnected)
    );
}

#[test]
fn events_receive_in_order_then_disconnect() {
    let (tx, rx) = flume::unbounded();
    let events = Events::from_flume(rx);
    assert_eq!(events.try_recv(), Err(TryRecvError::Empty));
    tx.send(PowerEvent::Suspend).unwrap();
    tx.send(PowerEvent::Resume).unwrap();
    assert_eq!(events.try_recv(), Ok(PowerEvent::Suspend));
    assert_eq!(events.recv(), Ok(PowerEvent::Resume));
    drop(tx);
    assert_eq!(events.try_recv(), Err(TryRecvError::Disconnected));
    assert_eq!(events.recv(), Err(RecvError));
}

#[test]
fn watch_from_subscription_keeps_its_id_and_channel() {
    let (tx, rx) = flume::unbounded();
    let (watch, events) = PowerWatch::from_subscription(7, rx);
    assert_eq!(watch.id(), 7);
    tx.send(PowerEvent::ScreenUnlocked).unwrap();
    assert_eq!(events.try_recv(), Ok(PowerEvent::ScreenUnlocked));
}

#[test]
fn subscribers_get_increasing_ids() {
    let mut subs = Subscribers::new();
    assert_eq!(subs.upcoming_id(), 1);
    let (ta, _ra) = unbounded_channel();
    let (tb, _rb) = unbounded_channel();
    assert_eq!(subs.add_sender(ta), 1);
    assert_eq!(subs.add_sender(tb), 2);
    assert_eq!(subs.ids(), vec![1, 2]);
    assert_eq!(subs.upcoming_id(), 3);
}

#[test]
fn emit_reaches_every_subscriber_and_drops_the_gone() {
    let mut subs = Subscribers::new();
    let (ta, ra) = unbounded_channel();
    let (tb, rb) = unbounded_channel();
    let (tc, rc) = unbounded_channel();
    subs.add_sender(ta);
    subs.add_sender(tb);
    subs.add_sender(tc);
    subs.emit(PowerEvent::Suspend);
    assert_eq!(ra.try_recv(), Ok(PowerEvent::Suspend));
    assert_eq!(rb.try_recv(), Ok(PowerEvent::Suspend));
    assert_eq!(rc.try_recv(), Ok(PowerEvent::Suspend));
    drop(rb);
    subs.emit(PowerEvent::Resume);
    assert_eq!(subs.ids(), vec![1, 3]);
    assert_eq!(ra.try_recv(), Ok(PowerEvent::Resume));
    assert_eq!(rc.try_recv(), Ok(PowerEvent::Resume));
}

#[test]
fn remove_sender_disconnects_only_that_channel() {
    let mut subs = Subscribers::new();
    let (ta, ra) = unbounded_channel();
    let (tb, rb) = unbounded_channel();
    let a = subs.add_sender(ta);
    subs.add_sender(tb);
    subs.remove_sender(a);
    assert_eq!(subs.ids(), vec![2]);
    assert!(ra.recv().is_err());
    subs.emit(PowerEvent::ScreenLocked);
    assert_eq!(rb.try_recv(), Ok(PowerEvent::ScreenLocked));
    subs.remove_sender(99);
    assert_eq!(subs.ids(), vec![2]);
}

#[test]
fn retain_delivered_keeps_marked_entries_in_order() {
    let mut subs = Subscribers::new();
    let mut receivers = Vec::new();
    for _ in 0..4 {
        let (tx, rx) = unbounded_channel();
        subs.add_sender(tx);
        receivers.push(rx);
    }
    subs.retain_delivered(&vec![true, false, false, true]);
    assert_eq!(subs.ids(), vec![1, 4]);
    assert_eq!(subs.len(), 2);
    assert_eq!(subs.upcoming_id(), 5);
}

#[test]
fn power_messages() {
    assert_eq!(MESSAGE_CAN_SYSTEM_SLEEP, 0xe000_0270);
    assert_eq!(MESSAGE_SYSTEM_WILL_SLEEP, 0xe000_0280);
    assert_eq!(MESSAGE_SYSTEM_HAS_POWERED_ON, 0xe000_0300);
    assert_eq!(
        respond_to_power_message(MESSAGE_CAN_SYSTEM_SLEEP, 5),
        PowerResponse { allow_power_change: true, event: None }
    );
    assert_eq!(
        respond_to_power_message(MESSAGE_CAN_SYSTEM_SLEEP, 0),
        PowerResponse { allow_power_change: false, event: None }
    );
    assert_eq!(
        respond_to_power_message(MESSAGE_SYSTEM_WILL_SLEEP, 5),
        PowerResponse { allow_power_change: true, event: Some(PowerEvent::Suspend) }
    );
    assert_eq!(
        respond_to_power_message(MESSAGE_SYSTEM_WILL_SLEEP, 0),
        PowerResponse { allow_power_change: false, event: Some(PowerEvent::Suspend) }
    );
    assert_eq!(
        respond_to_power_message(MESSAGE_SYSTEM_HAS_POWERED_ON, 5),
        PowerResponse { allow_power_change: false, event: Some(PowerEvent::Resume) }
    );
    assert_eq!(
        respond_to_power_message(0xe000_0320, 5),
        PowerResponse { allow_power_change: false, event: None }
    );
}

fn full_handles() -> OsHandles {
    OsHandles { root_port: 11, notify_port: 0x1000, notifier: 12, lock_token: 3, unlock_token: 4 }
}

#[test]
fn teardown_releases_in_order_once() {
    let mut h = full_handles();
    assert!(h.holds_any());
    let steps = h.teardown();
    assert_eq!(
        steps,
        vec![
            ReleaseStep::CancelNotify(3),
            ReleaseStep::CancelNotify(4),
            ReleaseStep::DeregisterPower(12),
            ReleaseStep::DestroyNotifyPort(0x1000),
            ReleaseStep::CloseService(11),
        ]
    );
    assert_eq!(h, OsHandles::none());
    assert!(!h.holds_any());
    assert_eq!(h.teardown(), vec![]);
}

#[test]
fn teardown_skips_what_is_not_held() {
    let mut h = OsHandles { lock_token: TOKEN_NONE, notifier: 0, ..full_handles() };
    assert_eq!(
        h.teardown(),
        vec![
            ReleaseStep::CancelNotify(4),
            ReleaseStep::DestroyNotifyPort(0x1000),
            ReleaseStep::CloseService(11),
        ]
    );
}

#[test]
fn registration_succeeds_step_by_step() {
    let mut reg = Registration::new();
    assert_eq!(reg.phase(), RegisterPhase::AwaitPower);
    let a = reg.step(RegisterEvent::PowerRegistered { root_port: 11, notify_port: 0x1000, notifier: 12 });
    assert!(matches!(a, RegisterAction::AttachQueueThenRegisterLock));
    let a = reg.step(RegisterEvent::LockRegistered { status: 0, token: 3 });
    assert!(matches!(a, RegisterAction::RegisterUnlock));
    let a = reg.step(RegisterEvent::UnlockRegistered { status: 0, token: 4 });
    assert!(matches!(a, RegisterAction::Finish));
    assert_eq!(reg.phase(), RegisterPhase::Ready);
    assert_eq!(reg.handles(), full_handles());
}

#[test]
fn registration_fails_on_missing_power_port() {
    let mut reg = Registration::new();
    match reg.step(RegisterEvent::PowerRegistered { root_port: 0, notify_port: 0x1000, notifier: 12 }) {
        RegisterAction::Fail { release, error } => {
            assert!(release.is_empty());
            assert_eq!(error.message(), "failed to register for system power notifications");
        }
        other => panic!("unexpected {other:?}"),
    }
    assert_eq!(reg.phase(), RegisterPhase::Failed);
    assert_eq!(reg.handles(), OsHandles::none());
}

#[test]
fn registration_fails_on_missing_notification_port() {
    let mut reg = Registration::new();
    let a = reg.step(RegisterEvent::PowerRegistered { root_port: 11, notify_port: 0, notifier: 12 });
    assert!(matches!(a, RegisterAction::Fail { .. }));
    assert_eq!(reg.phase(), RegisterPhase::Failed);
}

#[test]
fn registration_failing_on_lock_releases_power_handles() {
    let mut reg = Registration::new();
    reg.step(RegisterEvent::PowerRegistered { root_port: 11, notify_port: 0x1000, notifier: 12 });
    match reg.step(RegisterEvent::LockRegistered { status: 1, token: 3 }) {
        RegisterAction::Fail { release, error } => {
            assert_eq!(
                release,
                vec![
                    ReleaseStep::DeregisterPower(12),
                    ReleaseStep::DestroyNotifyPort(0x1000),
                    ReleaseStep::CloseService(11),
                ]
            );
            assert_eq!(error.message(), "failed to register for screen lock notifications");
        }
        other => panic!("unexpected {other:?}"),
    }
    assert_eq!(reg.handles(), OsHandles::none());
}

#[test]
fn registration_failing_on_unlock_releases_everything_held() {
    let mut reg = Registration::new();
    reg.step(RegisterEvent::PowerRegistered { root_port: 11, notify_port: 0x1000, notifier: 12 });
    reg.step(RegisterEvent::LockRegistered { status: 0, token: 3 });
    match reg.step(RegisterEvent::UnlockRegistered { status: 7, token: 4 }) {
        RegisterAction::Fail { release, error } => {
            assert_eq!(
                release,
                vec![
                    ReleaseStep::CancelNotify(3),
                    ReleaseStep::DeregisterPower(12),
                    ReleaseStep::DestroyNotifyPort(0x1000),
                    ReleaseStep::CloseService(11),
                ]
            );
            assert_eq!(error.message(), "failed to register for screen lock notifications");
        }
        other => panic!("unexpected {other:?}"),
    }
    assert_eq!(reg.phase(), RegisterPhase::Failed);
}

#[test]
fn last_watcher_tears_down_the_shared_runtime() {
    let mut slot = Lifecycle::new();
    assert!(slot.needs_registration());
    slot.install(full_handles());
    assert!(!slot.needs_registration());
    slot.join();
    slot.join();
    assert_eq!(slot.watches(), 2);
    assert_eq!(slot.leave(), vec![]);
    assert_eq!(slot.handles(), Some(full_handles()));
    let release = slot.leave();
    assert_eq!(release.len(), 5);
    assert_eq!(release[0], ReleaseStep::CancelNotify(3));
    assert!(slot.needs_registration());
    assert_eq!(slot.watches(), 0);
    assert_eq!(slot.handles(), None);
}

/// Starts a watcher on the shared runtime the way the macOS backend does:
/// registers the runtime when none is, then subscribes a fresh channel.
fn start_on(slot: &mut Lifecycle, subs: &mut Subscribers) -> (PowerWatch, Events) {
    if slot.needs_registration() {
        slot.install(full_handles());
    }
    let (tx, rx) = unbounded_channel();
    let id = subscribe(slot, subs, tx);
    PowerWatch::from_subscription(id, rx)
}

#[test]
fn start_and_drop_disconnects_channel() {
    let mut slot = Lifecycle::new();
    let mut subs = Subscribers::new();
    let (watch, rx) = start_on(&mut slot, &mut subs);
    let release = unsubscribe(&mut slot, &mut subs, watch.id());
    assert_eq!(release.len(), 5);
    assert!(rx.recv().is_err());
}

#[test]
fn two_instances_have_independent_channels() {
    let mut slot = Lifecycle::new();
    let mut subs = Subscribers::new();
    let (a, ra) = start_on(&mut slot, &mut subs);
    let (b, rb) = start_on(&mut slot, &mut subs);
    assert_ne!(a.id(), b.id());
    assert!(unsubscribe(&mut slot, &mut subs, a.id()).is_empty());
    assert!(ra.recv().is_err());
    assert!(matches!(rb.try_recv(), Err(TryRecvError::Empty)));
    subs.emit(PowerEvent::Resume);
    assert_eq!(rb.try_recv(), Ok(PowerEvent::Resume));
    let release = unsubscribe(&mut slot, &mut subs, b.id());
    assert_eq!(release.len(), 5);
    assert!(rb.recv().is_err());
    assert!(slot.needs_registration());
}


#[test]
fn screen_notifications_become_lock_events() {
    assert_eq!(screen_event(ScreenNotification::Locked), PowerEvent::ScreenLocked);
    assert_eq!(screen_event(ScreenNotification::Unlocked), PowerEvent::ScreenUnlocked);
}

#[test]
fn ids_keep_counting_after_removals() {
    let mut subs = Subscribers::new();
    let (ta, _ra) = unbounded_channel();
    let (tb, _rb) = unbounded_channel();
    let (tc, rc) = unbounded_channel();
    let a = subs.add_sender(ta);
    let b = subs.add_sender(tb);
    subs.remove_sender(a);
    let c = subs.add_sender(tc);
    assert_eq!((a, b, c), (1, 2, 3));
    assert_eq!(subs.ids(), vec![2, 3]);
    subs.emit(PowerEvent::Shutdown);
    assert_eq!(rc.try_recv(), Ok(PowerEvent::Shutdown));
}

#[test]
fn install_registered_stores_success_and_passes_failure() {
    let mut slot = Lifecycle::new();
    match install_registered(&mut slot, Err(Error::platform("failed to register for system power notifications"))) {
        Err(e) => assert_eq!(e.message(), "failed to register for system power notifications"),
        Ok(()) => panic!("failure was stored"),
    }
    assert!(slot.needs_registration());
    assert!(install_registered(&mut slot, Ok(full_handles())).is_ok());
    assert_eq!(slot.handles(), Some(full_handles()));
    assert_eq!(slot.watches(), 0);
}

#[test]
fn try_subscribe_needs_a_registered_runtime() {
    let mut slot = Lifecycle::new();
    let mut subs = Subscribers::new();
    let (tx, rx) = unbounded_channel();
    match try_subscribe(&mut slot, &mut subs, tx) {
        Err(e) => assert_eq!(e.message(), "the shared runtime is not registered"),
        Ok(_) => panic!("subscribed without a runtime"),
    }
    assert_eq!(subs.len(), 0);
    assert!(rx.recv().is_err());
    slot.install(full_handles());
    let (tx, rx) = unbounded_channel();
    assert_eq!(try_subscribe(&mut slot, &mut subs, tx).ok(), Some(1));
    assert_eq!(slot.watches(), 1);
    subs.emit(PowerEvent::ScreenLocked);
    assert_eq!(rx.try_recv(), Ok(PowerEvent::ScreenLocked));
}

#[test]
fn every_live_watcher_gets_one_copy() {
    let mut slot = Lifecycle::new();
    let mut subs = Subscribers::new();
    let (_a, ra) = start_on(&mut slot, &mut subs);
    let (_b, rb) = start_on(&mut slot, &mut subs);
    subs.emit(screen_event(ScreenNotification::Locked));
    assert_eq!(ra.try_recv(), Ok(PowerEvent::ScreenLocked));
    assert_eq!(rb.try_recv(), Ok(PowerEvent::ScreenLocked));
    assert_eq!(ra.try_recv(), Err(TryRecvError::Empty));
    assert_eq!(rb.try_recv(), Err(TryRecvError::Empty));
}
