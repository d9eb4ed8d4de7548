//! Registering the shared runtime with the OS, step by step.
//!
//! The runtime registers for system power messages, attaches the IOKit
//! notification port to its queue, then registers for the screen-locked and
//! the screen-unlocked notifications. Each OS call is made by the caller; the
//! machine here takes what the call gave back and says what comes next. When
//! a step fails, everything that was acquired is released, once, and the
//! error says which registration failed.

use vstd::prelude::*;

use crate::error::Error;
use crate::handles::{no_handles, teardown_steps, OsHandles, ReleaseStep, TOKEN_NONE};
use crate::power::IO_OBJECT_NULL;

verus! {

/// Where a registration stands.
#[derive(Debug, Clone, Copy, PartialEq, Eq, Structural)]
pub enum RegisterPhase {
    /// Waiting for the outcome of `IORegisterForSystemPower`.
    AwaitPower,
    /// Waiting for the outcome of the screen-locked registration.
    AwaitLock,
    /// Waiting for the outcome of the screen-unlocked registration.
    AwaitUnlock,
    /// Every registration succeeded.
    Ready,
    /// A registration failed; what had been acquired was released.
    Failed,
}

/// What an OS registration call gave back.
#[derive(Debug, Clone, Copy, PartialEq, Eq, Structural)]
pub enum RegisterEvent {
    /// `IORegisterForSystemPower` returned the root port, and set the
    /// notification port (its address, 0 for null) and the notifier.
    PowerRegistered { root_port: u32, notify_port: usize, notifier: u32 },
    /// `notify_register_dispatch` for the screen-locked notification returned
    /// the status and set the token.
    LockRegistered { status: u32, token: i32 },
    /// `notify_register_dispatch` for the screen-unlocked notification
    /// returned the status and set the token.
    UnlockRegistered { status: u32, token: i32 },
}

/// What the caller does next.
#[derive(Debug)]
pub enum RegisterAction {
    /// Attach the notification port to the runtime's queue, then register for
    /// the screen-locked notification.
    AttachQueueThenRegisterLock,
    /// Register for the screen-unlocked notification.
    RegisterUnlock,
    /// Registration is complete.
    Finish,
    /// Perform the releases, in order, then report the error.
    Fail { release: Vec<ReleaseStep>, error: Error },
}

/// The kind of a [`RegisterAction`].
#[derive(Debug, Clone, Copy, PartialEq, Eq, Structural)]
pub enum ActionKind {
    AttachQueueThenRegisterLock,
    RegisterUnlock,
    Finish,
    Fail,
}

/// A registration in progress: its phase and the handles acquired so far.
#[derive(Debug, Clone, Copy, PartialEq, Eq, Structural)]
pub struct RegisterState {
    pub phase: RegisterPhase,
    pub handles: OsHandles,
}

/// The text of the error when power registration fails.
pub open spec fn power_failure_message() -> Seq<char> {
    "failed to register for system power notifications"@
}

/// The text of the error when a screen notification registration fails.
pub open spec fn lock_failure_message() -> Seq<char> {
    "failed to register for screen lock notifications"@
}

/// The event is the outcome that the phase waits for.
pub open spec fn expects(phase: RegisterPhase, event: RegisterEvent) -> bool {
    match event {
        RegisterEvent::PowerRegistered { .. } => phase == RegisterPhase::AwaitPower,
        RegisterEvent::LockRegistered { .. } => phase == RegisterPhase::AwaitLock,
        RegisterEvent::UnlockRegistered { .. } => phase == RegisterPhase::AwaitUnlock,
    }
}

/// The handles held agree with the phase: none before power registration and
/// after a failure; the root port and the notification port from power
/// registration on; no token before it is registered.
pub open spec fn consistent(s: RegisterState) -> bool {
    match s.phase {
        RegisterPhase::AwaitPower => s.handles == no_handles(),
        RegisterPhase::AwaitLock => s.handles.root_port != IO_OBJECT_NULL
            && s.handles.notify_port != 0 && s.handles.lock_token == TOKEN_NONE
            && s.handles.unlock_token == TOKEN_NONE,
        RegisterPhase::AwaitUnlock => s.handles.root_port != IO_OBJECT_NULL
            && s.handles.notify_port != 0 && s.handles.unlock_token == TOKEN_NONE,
        RegisterPhase::Ready => s.handles.root_port != IO_OBJECT_NULL && s.handles.notify_port
            != 0,
        RegisterPhase::Failed => s.handles == no_handles(),
    }
}

/// The failed state: nothing held.
pub open spec fn failed_state() -> RegisterState {
    RegisterState { phase: RegisterPhase::Failed, handles: no_handles() }
}

/// The state after the event.
pub open spec fn stepped(s: RegisterState, event: RegisterEvent) -> RegisterState {
    match event {
        RegisterEvent::PowerRegistered { root_port, notify_port, notifier } => {
            if root_port == IO_OBJECT_NULL || notify_port == 0 {
                failed_state()
            } else {
                RegisterState {
                    phase: RegisterPhase::AwaitLock,
                    handles: OsHandles {
                        root_port,
                        notify_port,
                        notifier,
                        lock_token: TOKEN_NONE,
                        unlock_token: TOKEN_NONE,
                    },
                }
            }
        },
        RegisterEvent::LockRegistered { status, token } => {
            if status != 0 {
                failed_state()
            } else {
                RegisterState {
                    phase: RegisterPhase::AwaitUnlock,
                    handles: OsHandles { lock_token: token, ..s.handles },
                }
            }
        },
        RegisterEvent::UnlockRegistered { status, token } => {
            if status != 0 {
                failed_state()
            } else {
                RegisterState {
                    phase: RegisterPhase::Ready,
                    handles: OsHandles { unlock_token: token, ..s.handles },
                }
            }
        },
    }
}

/// The kind of the action after the event.
pub open spec fn step_kind(event: RegisterEvent) -> ActionKind {
    match event {
        RegisterEvent::PowerRegistered { root_port, notify_port, .. } => {
            if root_port == IO_OBJECT_NULL || notify_port == 0 {
                ActionKind::Fail
            } else {
                ActionKind::AttachQueueThenRegisterLock
            }
        },
        RegisterEvent::LockRegistered { status, .. } => {
            if status != 0 {
                ActionKind::Fail
            } else {
                ActionKind::RegisterUnlock
            }
        },
        RegisterEvent::UnlockRegistered { status, .. } => {
            if status != 0 {
                ActionKind::Fail
            } else {
                ActionKind::Finish
            }
        },
    }
}

/// The releases after the event: where a screen registration fails,
/// everything held so far; where power registration fails, nothing was
/// acquired; otherwise none.
pub open spec fn step_releases(s: RegisterState, event: RegisterEvent) -> Seq<ReleaseStep> {
    match event {
        RegisterEvent::PowerRegistered { .. } => Seq::empty(),
        RegisterEvent::LockRegistered { status, .. } => {
            if status != 0 {
                teardown_steps(s.handles)
            } else {
                Seq::empty()
            }
        },
        RegisterEvent::UnlockRegistered { status, .. } => {
            if status != 0 {
                teardown_steps(s.handles)
            } else {
                Seq::empty()
            }
        },
    }
}

/// The text of the error after the event, where the step fails.
pub open spec fn step_error(event: RegisterEvent) -> Seq<char> {
    match event {
        RegisterEvent::PowerRegistered { .. } => power_failure_message(),
        _ => lock_failure_message(),
    }
}

impl RegisterAction {
    /// The kind of the action.
    pub open spec fn kind(&self) -> ActionKind {
        match self {
            RegisterAction::AttachQueueThenRegisterLock => ActionKind::AttachQueueThenRegisterLock,
            RegisterAction::RegisterUnlock => ActionKind::RegisterUnlock,
            RegisterAction::Finish => ActionKind::Finish,
            RegisterAction::Fail { .. } => ActionKind::Fail,
        }
    }
}

/// A registration of the shared runtime with the OS.
pub struct Registration {
    state: RegisterState,
}

impl View for Registration {
    type V = RegisterState;

    /// The phase and the handles acquired so far.
    closed spec fn view(&self) -> RegisterState {
        self.state
    }
}

impl Registration {
    /// The handles held agree with the phase.
    #[verifier::type_invariant]
    spec fn inv(&self) -> bool {
        consistent(self.state)
    }

    /// A registration that has not made any OS call yet.
    pub fn new() -> (r: Self)
        ensures
            r.view() == (RegisterState { phase: RegisterPhase::AwaitPower, handles: no_handles() }),
            consistent(r.view()),
    {
        Registration {
            state: RegisterState { phase: RegisterPhase::AwaitPower, handles: OsHandles::none() },
        }
    }

    /// Where the registration stands.
    pub fn phase(&self) -> (p: RegisterPhase)
        ensures
            p == self.view().phase,
    {
        self.state.phase
    }

    /// The handles acquired so far.
    pub fn handles(&self) -> (h: OsHandles)
        ensures
            h == self.view().handles,
    {
        self.state.handles
    }

    /// Takes what an OS registration call gave back and says what to do next.
    pub fn step(&mut self, event: RegisterEvent) -> (action: RegisterAction)
        requires
            expects(old(self).view().phase, event),
        ensures
            final(self).view() == stepped(old(self).view(), event),
            consistent(final(self).view()),
            action.kind() == step_kind(event),
            match action {
                RegisterAction::Fail { release, error } => release@ == step_releases(
                    old(self).view(),
                    event,
                ) && error.text() == step_error(event),
                _ => true,
            },
    {
        proof {
            use_type_invariant(&*self);
        }
        let action = match event {
            RegisterEvent::PowerRegistered { root_port, notify_port, notifier } => {
                if root_port == IO_OBJECT_NULL || notify_port == 0 {
                    self.state = RegisterState {
                        phase: RegisterPhase::Failed,
                        handles: OsHandles::none(),
                    };
                    RegisterAction::Fail {
                        release: Vec::new(),
                        error: Error::platform("failed to register for system power notifications"),
                    }
                } else {
                    self.state = RegisterState {
                        phase: RegisterPhase::AwaitLock,
                        handles: OsHandles {
                            root_port,
                            notify_port,
                            notifier,
                            lock_token: TOKEN_NONE,
                            unlock_token: TOKEN_NONE,
                        },
                    };
                    RegisterAction::AttachQueueThenRegisterLock
                }
            },
            RegisterEvent::LockRegistered { status, token } => {
                if status != 0 {
                    let mut handles = self.state.handles;
                    let release = handles.teardown();
                    self.state = RegisterState { phase: RegisterPhase::Failed, handles };
                    RegisterAction::Fail {
                        release,
                        error: Error::platform("failed to register for screen lock notifications"),
                    }
                } else {
                    let h = self.state.handles;
                    self.state = RegisterState {
                        phase: RegisterPhase::AwaitUnlock,
                        handles: OsHandles {
                            root_port: h.root_port,
                            notify_port: h.notify_port,
                            notifier: h.notifier,
                            lock_token: token,
                            unlock_token: h.unlock_token,
                        },
                    };
                    RegisterAction::RegisterUnlock
                }
            },
            RegisterEvent::UnlockRegistered { status, token } => {
                if status != 0 {
                    let mut handles = self.state.handles;
                    let release = handles.teardown();
                    self.state = RegisterState { phase: RegisterPhase::Failed, handles };
                    RegisterAction::Fail {
                        release,
                        error: Error::platform("failed to register for screen lock notifications"),
                    }
                } else {
                    let h = self.state.handles;
                    self.state = RegisterState {
                        phase: RegisterPhase::Ready,
                        handles: OsHandles {
                            root_port: h.root_port,
                            notify_port: h.notify_port,
                            notifier: h.notifier,
                            lock_token: h.lock_token,
                            unlock_token: token,
                        },
                    };
                    RegisterAction::Finish
                }
            },
        };
        proof {
            use_type_invariant(&*self);
        }
        action
    }
}

/// A failed step leaves nothing held and releases exactly what was held
/// before it, so that the runtime's final teardown releases nothing more; a
/// successful step keeps every handle held before it and releases nothing.
pub proof fn law_failure_releases_everything(s: RegisterState, event: RegisterEvent)
    requires
        consistent(s),
        expects(s.phase, event),
    ensures
        step_kind(event) == ActionKind::Fail ==> stepped(s, event).handles == no_handles()
            && step_releases(s, event) == teardown_steps(s.handles) && teardown_steps(
            stepped(s, event).handles,
        ) == Seq::<ReleaseStep>::empty(),
        step_kind(event) != ActionKind::Fail ==> step_releases(s, event) == Seq::<
            ReleaseStep,
        >::empty() && stepped(s, event).phase != RegisterPhase::Failed,
{
    assert(teardown_steps(no_handles()) =~= Seq::<ReleaseStep>::empty());
    match event {
        RegisterEvent::PowerRegistered { .. } => {
            assert(teardown_steps(s.handles) =~= Seq::<ReleaseStep>::empty());
        },
        _ => {},
    }
}

/// Registration that sees every OS call succeed ends ready, holding the root
/// port, the notification port, the notifier (as the call gave it back, null
/// or not) and both tokens that the calls gave back, having released nothing.
pub proof fn law_success_holds_everything(
    root_port: u32,
    notify_port: usize,
    notifier: u32,
    lock_token: i32,
    unlock_token: i32,
)
    requires
        root_port != IO_OBJECT_NULL,
        notify_port != 0,
    ensures
        ({
            let s0 = RegisterState { phase: RegisterPhase::AwaitPower, handles: no_handles() };
            let e1 = RegisterEvent::PowerRegistered { root_port, notify_port, notifier };
            let e2 = RegisterEvent::LockRegistered { status: 0, token: lock_token };
            let e3 = RegisterEvent::UnlockRegistered { status: 0, token: unlock_token };
            let s3 = stepped(stepped(stepped(s0, e1), e2), e3);
            &&& s3.phase == RegisterPhase::Ready
            &&& s3.handles == (OsHandles {
                root_port,
                notify_port,
                notifier,
                lock_token,
                unlock_token,
            })
            &&& step_releases(s0, e1) + step_releases(stepped(s0, e1), e2) + step_releases(
                stepped(stepped(s0, e1), e2),
                e3,
            ) == Seq::<ReleaseStep>::empty()
        }),
{
    let s0 = RegisterState { phase: RegisterPhase::AwaitPower, handles: no_handles() };
    let e1 = RegisterEvent::PowerRegistered { root_port, notify_port, notifier };
    let e2 = RegisterEvent::LockRegistered { status: 0, token: lock_token };
    let e3 = RegisterEvent::UnlockRegistered { status: 0, token: unlock_token };
    assert(step_releases(s0, e1) + step_releases(stepped(s0, e1), e2) + step_releases(
        stepped(stepped(s0, e1), e2),
        e3,
    ) =~= Seq::<ReleaseStep>::empty());
}

/// Only an OS call that succeeded lets registration go on. Power
/// registration fails exactly when the root port or the notification port
/// came back null; a screen-notification registration fails exactly when its
/// status is non-zero, whatever the non-zero value. A failure ends the
/// registration: the phase is `Failed`, nothing stays held, and everything
/// held before is released. A success keeps every handle held before, adds
/// exactly what the call gave back, and moves to the next phase.
pub proof fn law_only_success_goes_on(s: RegisterState, event: RegisterEvent)
    requires
        consistent(s),
        expects(s.phase, event),
    ensures
        match event {
            RegisterEvent::PowerRegistered { root_port, notify_port, notifier } => {
                &&& (step_kind(event) == ActionKind::Fail) <==> (root_port == 0 || notify_port == 0)
                &&& step_kind(event) != ActionKind::Fail ==> stepped(s, event) == (RegisterState {
                    phase: RegisterPhase::AwaitLock,
                    handles: OsHandles {
                        root_port,
                        notify_port,
                        notifier,
                        lock_token: i32::MIN,
                        unlock_token: i32::MIN,
                    },
                })
                &&& step_releases(s, event) == Seq::<ReleaseStep>::empty()
            },
            RegisterEvent::LockRegistered { status, token } => {
                &&& (step_kind(event) == ActionKind::Fail) <==> status != 0
                &&& status != 0 ==> step_releases(s, event) == teardown_steps(s.handles)
                &&& status == 0 ==> step_releases(s, event) == Seq::<ReleaseStep>::empty()
                    && stepped(s, event) == (RegisterState {
                    phase: RegisterPhase::AwaitUnlock,
                    handles: OsHandles { lock_token: token, ..s.handles },
                })
            },
            RegisterEvent::UnlockRegistered { status, token } => {
                &&& (step_kind(event) == ActionKind::Fail) <==> status != 0
                &&& status != 0 ==> step_releases(s, event) == teardown_steps(s.handles)
                &&& status == 0 ==> step_releases(s, event) == Seq::<ReleaseStep>::empty()
                    && stepped(s, event) == (RegisterState {
                    phase: RegisterPhase::Ready,
                    handles: OsHandles { unlock_token: token, ..s.handles },
                })
            },
        },
        step_kind(event) == ActionKind::Fail ==> stepped(s, event) == (RegisterState {
            phase: RegisterPhase::Failed,
            handles: OsHandles {
                root_port: 0,
                notify_port: 0,
                notifier: 0,
                lock_token: i32::MIN,
                unlock_token: i32::MIN,
            },
        }),
        step_kind(event) == ActionKind::Fail <==> stepped(s, event).phase == RegisterPhase::Failed,
{
}

} // verus!
