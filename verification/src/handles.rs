//! The OS handles that the shared runtime holds, and the order in which they
//! are released.

use vstd::prelude::*;

use crate::power::IO_OBJECT_NULL;

verus! {

/// The value of a notify token that is not held.
pub const TOKEN_NONE: i32 = i32::MIN;

/// The OS handles of the shared runtime. A port or notifier of
/// `IO_OBJECT_NULL`, a notification port address of 0 and a token of
/// `TOKEN_NONE` stand for a handle that is not held.
#[derive(Debug, Clone, Copy, PartialEq, Eq, Structural)]
pub struct OsHandles {
    /// The root power domain port from `IORegisterForSystemPower`.
    pub root_port: u32,
    /// The address of the IOKit notification port.
    pub notify_port: usize,
    /// The power notifier object.
    pub notifier: u32,
    /// The Darwin notify token for the screen-locked notification.
    pub lock_token: i32,
    /// The Darwin notify token for the screen-unlocked notification.
    pub unlock_token: i32,
}

/// One release of an OS handle.
#[derive(Debug, Clone, Copy, PartialEq, Eq, Structural)]
pub enum ReleaseStep {
    /// `notify_cancel` on the token.
    CancelNotify(i32),
    /// `IODeregisterForSystemPower` on the notifier.
    DeregisterPower(u32),
    /// Detach the notification port from the queue, then destroy it.
    DestroyNotifyPort(usize),
    /// `IOServiceClose` on the root port.
    CloseService(u32),
}

/// No handle held.
pub open spec fn no_handles() -> OsHandles {
    OsHandles {
        root_port: IO_OBJECT_NULL,
        notify_port: 0,
        notifier: IO_OBJECT_NULL,
        lock_token: TOKEN_NONE,
        unlock_token: TOKEN_NONE,
    }
}

/// The step when the condition holds, else none.
pub open spec fn step_if(held: bool, step: ReleaseStep) -> Seq<ReleaseStep> {
    if held {
        seq![step]
    } else {
        Seq::empty()
    }
}

/// The releases of a teardown: the lock token, the unlock token, the
/// notifier, the notification port, the root port, each only where held.
pub open spec fn teardown_steps(h: OsHandles) -> Seq<ReleaseStep> {
    step_if(h.lock_token != TOKEN_NONE, ReleaseStep::CancelNotify(h.lock_token)) + step_if(
        h.unlock_token != TOKEN_NONE,
        ReleaseStep::CancelNotify(h.unlock_token),
    ) + step_if(h.notifier != IO_OBJECT_NULL, ReleaseStep::DeregisterPower(h.notifier))
        + step_if(h.notify_port != 0, ReleaseStep::DestroyNotifyPort(h.notify_port)) + step_if(
        h.root_port != IO_OBJECT_NULL,
        ReleaseStep::CloseService(h.root_port),
    )
}

impl OsHandles {
    /// No handle held.
    pub fn none() -> (h: Self)
        ensures
            h == no_handles(),
    {
        OsHandles {
            root_port: IO_OBJECT_NULL,
            notify_port: 0,
            notifier: IO_OBJECT_NULL,
            lock_token: TOKEN_NONE,
            unlock_token: TOKEN_NONE,
        }
    }

    /// Some handle is held.
    pub fn holds_any(&self) -> (b: bool)
        ensures
            b == (*self != no_handles()),
    {
        self.root_port != IO_OBJECT_NULL || self.notify_port != 0 || self.notifier
            != IO_OBJECT_NULL || self.lock_token != TOKEN_NONE || self.unlock_token != TOKEN_NONE
    }

    /// Takes every held handle out, leaving none held, and returns the
    /// releases to perform, in order.
    pub fn teardown(&mut self) -> (steps: Vec<ReleaseStep>)
        ensures
            *final(self) == no_handles(),
            steps@ == teardown_steps(*old(self)),
    {
        let mut steps: Vec<ReleaseStep> = Vec::new();
        let lock = self.lock_token;
        self.lock_token = TOKEN_NONE;
        if lock != TOKEN_NONE {
            steps.push(ReleaseStep::CancelNotify(lock));
        }
        let unlock = self.unlock_token;
        self.unlock_token = TOKEN_NONE;
        if unlock != TOKEN_NONE {
            steps.push(ReleaseStep::CancelNotify(unlock));
        }
        let notifier = self.notifier;
        self.notifier = IO_OBJECT_NULL;
        if notifier != IO_OBJECT_NULL {
            steps.push(ReleaseStep::DeregisterPower(notifier));
        }
        let port = self.notify_port;
        self.notify_port = 0;
        if port != 0 {
            steps.push(ReleaseStep::DestroyNotifyPort(port));
        }
        let root = self.root_port;
        self.root_port = IO_OBJECT_NULL;
        if root != IO_OBJECT_NULL {
            steps.push(ReleaseStep::CloseService(root));
        }
        assert(steps@ =~= teardown_steps(*old(self)));
        steps
    }
}

/// A teardown releases nothing when nothing is held; so a second teardown
/// after a first releases nothing, and no handle is released twice.
pub proof fn law_teardown_releases_once(h: OsHandles)
    ensures
        teardown_steps(no_handles()) == Seq::<ReleaseStep>::empty(),
        teardown_steps(h) + teardown_steps(no_handles()) == teardown_steps(h),
        teardown_steps(h).len() <= 5,
        (teardown_steps(h).len() == 0) <==> (h == no_handles()),
{
    assert(teardown_steps(no_handles()) =~= Seq::<ReleaseStep>::empty());
    assert(teardown_steps(h) + teardown_steps(no_handles()) =~= teardown_steps(h));
    if h != no_handles() {
        if h.lock_token != TOKEN_NONE {
            assert(teardown_steps(h)[0] == ReleaseStep::CancelNotify(h.lock_token));
        }
    }
}

/// An element is in a concatenation exactly when it is in one of the parts.
proof fn lemma_concat_contains(a: Seq<ReleaseStep>, b: Seq<ReleaseStep>, x: ReleaseStep)
    ensures
        (a + b).contains(x) <==> (a.contains(x) || b.contains(x)),
{
    if (a + b).contains(x) {
        let i = choose|i: int| 0 <= i < (a + b).len() && (a + b)[i] == x;
        if i < a.len() {
            assert(a[i] == x);
        } else {
            assert(b[i - a.len()] == x);
        }
    }
    if a.contains(x) {
        let i = choose|i: int| 0 <= i < a.len() && a[i] == x;
        assert((a + b)[i] == x);
    }
    if b.contains(x) {
        let i = choose|i: int| 0 <= i < b.len() && b[i] == x;
        assert((a + b)[a.len() + i] == x);
    }
}

/// A conditional step holds exactly that step, when the condition holds.
proof fn lemma_step_if_contains(held: bool, step: ReleaseStep, x: ReleaseStep)
    ensures
        step_if(held, step).contains(x) <==> (held && x == step),
{
    if held && x == step {
        assert(step_if(held, step)[0] == x);
    }
}

/// The number of handles held: each token other than `i32::MIN`, a notifier
/// and a root port other than 0, a notification port address other than 0.
pub open spec fn held_count(h: OsHandles) -> nat {
    (if h.lock_token != i32::MIN { 1nat } else { 0nat }) + (if h.unlock_token != i32::MIN {
        1nat
    } else {
        0nat
    }) + (if h.notifier != 0 { 1nat } else { 0nat }) + (if h.notify_port != 0 {
        1nat
    } else {
        0nat
    }) + (if h.root_port != 0 { 1nat } else { 0nat })
}

/// The kind of a release, in the order releases come: tokens first, then the
/// notifier, the notification port and the root port.
pub open spec fn release_rank(step: ReleaseStep) -> int {
    match step {
        ReleaseStep::CancelNotify(_) => 0,
        ReleaseStep::DeregisterPower(_) => 1,
        ReleaseStep::DestroyNotifyPort(_) => 2,
        ReleaseStep::CloseService(_) => 3,
    }
}

/// A teardown releases every held handle exactly as it is held, and nothing
/// else: the notification port at the address held, the notifier, the root
/// port and each token by their held values; one release per held handle;
/// the tokens first (the lock token before the unlock token), then the
/// notifier, then the notification port, then the root port.
pub proof fn law_teardown_names_each_held_handle(h: OsHandles)
    ensures
        forall|p: usize|
            teardown_steps(h).contains(ReleaseStep::DestroyNotifyPort(p)) <==> (p != 0 && p
                == h.notify_port),
        forall|n: u32|
            teardown_steps(h).contains(ReleaseStep::DeregisterPower(n)) <==> (n != 0 && n
                == h.notifier),
        forall|r: u32|
            teardown_steps(h).contains(ReleaseStep::CloseService(r)) <==> (r != 0 && r
                == h.root_port),
        forall|t: i32|
            teardown_steps(h).contains(ReleaseStep::CancelNotify(t)) <==> (t != i32::MIN && (t
                == h.lock_token || t == h.unlock_token)),
        teardown_steps(h).len() == held_count(h),
        forall|i: int, j: int|
            0 <= i < j < teardown_steps(h).len() ==> release_rank(teardown_steps(h)[i])
                <= release_rank(teardown_steps(h)[j]),
        h.lock_token != i32::MIN ==> teardown_steps(h)[0] == ReleaseStep::CancelNotify(
            h.lock_token,
        ),
{
    let a = step_if(h.lock_token != TOKEN_NONE, ReleaseStep::CancelNotify(h.lock_token));
    let b = step_if(h.unlock_token != TOKEN_NONE, ReleaseStep::CancelNotify(h.unlock_token));
    let c = step_if(h.notifier != IO_OBJECT_NULL, ReleaseStep::DeregisterPower(h.notifier));
    let d = step_if(h.notify_port != 0, ReleaseStep::DestroyNotifyPort(h.notify_port));
    let e = step_if(h.root_port != IO_OBJECT_NULL, ReleaseStep::CloseService(h.root_port));
    let all = teardown_steps(h);
    assert(all == a + b + c + d + e);
    assert forall|x: ReleaseStep| #[trigger] all.contains(x) <==> (
        (h.lock_token != TOKEN_NONE && x == ReleaseStep::CancelNotify(h.lock_token))
        || (h.unlock_token != TOKEN_NONE && x == ReleaseStep::CancelNotify(h.unlock_token))
        || (h.notifier != IO_OBJECT_NULL && x == ReleaseStep::DeregisterPower(h.notifier))
        || (h.notify_port != 0 && x == ReleaseStep::DestroyNotifyPort(h.notify_port))
        || (h.root_port != IO_OBJECT_NULL && x == ReleaseStep::CloseService(h.root_port))) by {
        lemma_concat_contains(a + b + c + d, e, x);
        lemma_concat_contains(a + b + c, d, x);
        lemma_concat_contains(a + b, c, x);
        lemma_concat_contains(a, b, x);
        lemma_step_if_contains(h.lock_token != TOKEN_NONE, ReleaseStep::CancelNotify(h.lock_token), x);
        lemma_step_if_contains(h.unlock_token != TOKEN_NONE, ReleaseStep::CancelNotify(h.unlock_token), x);
        lemma_step_if_contains(h.notifier != IO_OBJECT_NULL, ReleaseStep::DeregisterPower(h.notifier), x);
        lemma_step_if_contains(h.notify_port != 0, ReleaseStep::DestroyNotifyPort(h.notify_port), x);
        lemma_step_if_contains(h.root_port != IO_OBJECT_NULL, ReleaseStep::CloseService(h.root_port), x);
    }
    assert forall|i: int, j: int| 0 <= i < j < all.len() implies release_rank(all[i])
        <= release_rank(all[j]) by {
        let la = a.len() as int;
        let lb = b.len() as int;
        let lc = c.len() as int;
        let ld = d.len() as int;
        assert(forall|k: int| 0 <= k < la + lb ==> #[trigger] release_rank(all[k]) == 0);
        assert(forall|k: int| la + lb <= k < la + lb + lc ==> #[trigger] release_rank(all[k]) == 1);
        assert(forall|k: int| la + lb + lc <= k < la + lb + lc + ld ==> #[trigger] release_rank(all[k]) == 2);
        assert(forall|k: int| la + lb + lc + ld <= k < all.len() ==> #[trigger] release_rank(all[k]) == 3);
    }
}

} // verus!
