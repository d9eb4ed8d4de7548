//! The lifetime of the shared OS runtime.
//!
//! All watchers of a process share one runtime. The first watcher to start
//! registers it; later ones join it. Each watcher that is dropped leaves it;
//! the last one to leave tears it down, and the next start registers afresh.

use vstd::prelude::*;

use crate::handles::{teardown_steps, OsHandles, ReleaseStep};

verus! {

/// The shared runtime while it is registered: the OS handles it holds and
/// the number of live watchers on it.
#[derive(Debug, Clone, Copy, PartialEq, Eq, Structural)]
pub struct RuntimeRecord {
    pub handles: OsHandles,
    pub watches: usize,
}

/// The runtime after one more watcher joins.
pub open spec fn joined(v: Option<RuntimeRecord>) -> Option<RuntimeRecord> {
    match v {
        Some(r) => Some(RuntimeRecord { handles: r.handles, watches: (r.watches + 1) as usize }),
        None => None,
    }
}

/// The runtime after one watcher leaves: gone when it was the last.
pub open spec fn left(v: Option<RuntimeRecord>) -> Option<RuntimeRecord> {
    match v {
        Some(r) => if r.watches <= 1 {
            None
        } else {
            Some(RuntimeRecord { handles: r.handles, watches: (r.watches - 1) as usize })
        },
        None => None,
    }
}

/// The releases when one watcher leaves: the teardown of the runtime when
/// it was the last, else none.
pub open spec fn leave_releases(v: Option<RuntimeRecord>) -> Seq<ReleaseStep> {
    match v {
        Some(r) => if r.watches <= 1 {
            teardown_steps(r.handles)
        } else {
            Seq::empty()
        },
        None => Seq::empty(),
    }
}

/// The runtime after `k` watchers join.
pub open spec fn joined_times(v: Option<RuntimeRecord>, k: nat) -> Option<RuntimeRecord>
    decreases k,
{
    if k == 0 {
        v
    } else {
        joined(joined_times(v, (k - 1) as nat))
    }
}

/// The runtime after `k` watchers leave.
pub open spec fn left_times(v: Option<RuntimeRecord>, k: nat) -> Option<RuntimeRecord>
    decreases k,
{
    if k == 0 {
        v
    } else {
        left_times(left(v), (k - 1) as nat)
    }
}

/// The releases, in order, while `k` watchers leave.
pub open spec fn releases_over(v: Option<RuntimeRecord>, k: nat) -> Seq<ReleaseStep>
    decreases k,
{
    if k == 0 {
        Seq::empty()
    } else {
        leave_releases(v) + releases_over(left(v), (k - 1) as nat)
    }
}

/// The process-wide slot of the shared runtime.
pub struct Lifecycle {
    runtime: Option<RuntimeRecord>,
}

impl View for Lifecycle {
    type V = Option<RuntimeRecord>;

    /// The shared runtime, while one is registered.
    closed spec fn view(&self) -> Option<RuntimeRecord> {
        self.runtime
    }
}

impl Lifecycle {
    /// No runtime yet.
    pub fn new() -> (l: Self)
        ensures
            l.view() == None::<RuntimeRecord>,
    {
        Lifecycle { runtime: None }
    }

    /// A watcher that starts now must register the runtime first: none is
    /// registered.
    pub fn needs_registration(&self) -> (b: bool)
        ensures
            b == (self.view() is None),
    {
        self.runtime.is_none()
    }

    /// The number of live watchers on the runtime (0 when there is none).
    pub fn watches(&self) -> (n: usize)
        ensures
            n == match self.view() {
                Some(r) => r.watches,
                None => 0,
            },
    {
        match &self.runtime {
            Some(r) => r.watches,
            None => 0,
        }
    }

    /// The handles of the runtime, while one is registered.
    pub fn handles(&self) -> (h: Option<OsHandles>)
        ensures
            h == match self.view() {
                Some(r) => Some(r.handles),
                None => None::<OsHandles>,
            },
    {
        match &self.runtime {
            Some(r) => Some(r.handles),
            None => None,
        }
    }

    /// Stores a freshly registered runtime, with no watcher on it yet.
    pub fn install(&mut self, handles: OsHandles)
        requires
            old(self).view() is None,
        ensures
            final(self).view() == Some(RuntimeRecord { handles, watches: 0 }),
    {
        self.runtime = Some(RuntimeRecord { handles, watches: 0 });
    }

    /// One more watcher on the runtime.
    pub fn join(&mut self)
        requires
            old(self).view() is Some,
            old(self).view()->Some_0.watches < usize::MAX,
        ensures
            final(self).view() == joined(old(self).view()),
    {
        match self.runtime {
            Some(r) => {
                self.runtime = Some(RuntimeRecord { handles: r.handles, watches: r.watches + 1 });
            },
            None => {},
        }
    }

    /// One watcher leaves the runtime. When it was the last, the runtime is
    /// taken out of the slot and its teardown is returned; otherwise nothing
    /// is released.
    pub fn leave(&mut self) -> (release: Vec<ReleaseStep>)
        requires
            old(self).view() is Some,
            old(self).view()->Some_0.watches > 0,
        ensures
            final(self).view() == left(old(self).view()),
            release@ == leave_releases(old(self).view()),
    {
        match self.runtime {
            Some(r) => {
                if r.watches <= 1 {
                    let mut handles = r.handles;
                    let release = handles.teardown();
                    self.runtime = None;
                    release
                } else {
                    self.runtime = Some(RuntimeRecord { handles: r.handles, watches: r.watches - 1 });
                    Vec::new()
                }
            },
            None => Vec::new(),
        }
    }
}

/// Watchers that join share the one runtime: its handles stay as they were
/// registered, and it counts each of them.
pub proof fn law_watchers_share_one_runtime(handles: OsHandles, k: nat)
    requires
        k <= usize::MAX,
    ensures
        joined_times(Some(RuntimeRecord { handles, watches: 0 }), k) == Some(
            RuntimeRecord { handles, watches: k as usize },
        ),
    decreases k,
{
    if k > 0 {
        law_watchers_share_one_runtime(handles, (k - 1) as nat);
    }
}

/// While other watchers remain, a watcher that leaves releases nothing and
/// leaves the runtime as it was.
proof fn lemma_leaving_while_others_remain(handles: OsHandles, n: usize, k: nat)
    requires
        k < n,
    ensures
        left_times(Some(RuntimeRecord { handles, watches: n }), k) == Some(
            RuntimeRecord { handles, watches: (n - k) as usize },
        ),
        releases_over(Some(RuntimeRecord { handles, watches: n }), k) == Seq::<ReleaseStep>::empty(),
    decreases k,
{
    if k > 0 {
        let v = Some(RuntimeRecord { handles, watches: n });
        let w = Some(RuntimeRecord { handles, watches: (n - 1) as usize });
        assert(left(v) == w);
        lemma_leaving_while_others_remain(handles, (n - 1) as usize, (k - 1) as nat);
        assert(releases_over(v, k) =~= leave_releases(v) + releases_over(w, (k - 1) as nat));
        assert(leave_releases(v) =~= Seq::<ReleaseStep>::empty());
        assert(releases_over(v, k) =~= Seq::<ReleaseStep>::empty());
    }
}

/// Dropping a watcher unsubscribes it; the last of `n` watchers to leave
/// tears the runtime down, releasing its handles once, and no earlier one
/// releases anything. After that no runtime is registered, so the next
/// start registers a new one.
pub proof fn law_last_watcher_tears_down(handles: OsHandles, n: usize)
    requires
        n >= 1,
    ensures
        left_times(Some(RuntimeRecord { handles, watches: n }), (n - 1) as nat) == Some(
            RuntimeRecord { handles, watches: 1 },
        ),
        releases_over(Some(RuntimeRecord { handles, watches: n }), (n - 1) as nat) == Seq::<
            ReleaseStep,
        >::empty(),
        left_times(Some(RuntimeRecord { handles, watches: n }), n as nat) == None::<RuntimeRecord>,
        releases_over(Some(RuntimeRecord { handles, watches: n }), n as nat) == teardown_steps(
            handles,
        ),
    decreases n,
{
    let v = Some(RuntimeRecord { handles, watches: n });
    if n == 1 {
        assert(left(v) == None::<RuntimeRecord>);
        assert(releases_over(v, 1) =~= leave_releases(v) + releases_over(None, 0));
        assert(releases_over(v, 1) =~= teardown_steps(handles));
    } else {
        let w = Some(RuntimeRecord { handles, watches: (n - 1) as usize });
        assert(left(v) == w);
        law_last_watcher_tears_down(handles, (n - 1) as usize);
        lemma_leaving_while_others_remain(handles, n, (n - 1) as nat);
        assert(left_times(v, n as nat) == left_times(w, (n - 1) as nat));
        assert(leave_releases(v) =~= Seq::<ReleaseStep>::empty());
        assert(releases_over(v, n as nat) =~= leave_releases(v) + releases_over(w, (n - 1) as nat));
        assert(releases_over(v, n as nat) =~= teardown_steps(handles));
    }
}

} // verus!
