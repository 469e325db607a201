//! The per-process exit monitor: a two-state machine (`Watching`, `Done`)
//! driven by a periodic non-blocking probe of the tracked handle. On the
//! probe reporting exit — or failing, which is treated as exit — the monitor
//! removes its entry from the registry and hands back the one exit
//! notification for this launch. If the entry is already gone (the
//! terminator won the race), the monitor stops silently.

use vstd::prelude::*;
use crate::key::key_of;
use crate::key::make_key;
use crate::registry::Registry;

verus! {

/// Milliseconds between two probes of a watched process.
pub const MONITOR_POLL_MS: u64 = 500;

/// Delivered exactly once per launched process when its termination is
/// detected (normal exit, probe error, or supervisor-initiated kill).
pub struct ExitNotification {
    pub owner: String,
    pub exe: String,
    pub display: String,
}

/// What one non-blocking probe of the tracked handle reported.
pub enum ProbeOutcome {
    /// The process is still running.
    StillRunning,
    /// The process has exited with a status.
    ExitDetected,
    /// The probe itself failed: the process is no longer controllable and
    /// is treated as exited.
    ProbeError,
}

/// The monitor's decision after one poll.
pub enum MonitorStep {
    /// Still running: probe again after the next interval.
    KeepWatching,
    /// Exit observed: the registry entry has been removed and this
    /// notification is to be delivered.
    Notify(ExitNotification),
    /// The key was no longer registered: stop silently, with no
    /// notification.
    Stopped,
}

enum MonitorPhase {
    Watching,
    Done,
}

/// One monitor task, bound at launch time to a registry key and to the
/// owner, executable and display names its notification will carry.
pub struct Monitor {
    key: String,
    owner: String,
    exe: String,
    display: String,
    phase: MonitorPhase,
}

impl Monitor {
    #[verifier::type_invariant]
    spec fn wf(&self) -> bool {
        self.key@ == key_of(self.owner@, self.exe@)
    }

    pub closed spec fn key_view(&self) -> Seq<char> {
        self.key@
    }

    pub closed spec fn owner_view(&self) -> Seq<char> {
        self.owner@
    }

    pub closed spec fn exe_view(&self) -> Seq<char> {
        self.exe@
    }

    pub closed spec fn display_view(&self) -> Seq<char> {
        self.display@
    }

    pub closed spec fn watching(&self) -> bool {
        self.phase is Watching
    }

    /// A fresh monitor in `Watching` state for the given identity.
    pub fn new(owner: &String, exe: &String, display: &String) -> (m: Monitor)
        ensures
            m.watching(),
            m.owner_view() == owner@,
            m.exe_view() == exe@,
            m.display_view() == display@,
            m.key_view() == key_of(owner@, exe@),
    {
        let key = make_key(owner, exe);
        Monitor {
            key,
            owner: owner.clone(),
            exe: exe.clone(),
            display: display.clone(),
            phase: MonitorPhase::Watching,
        }
    }

    /// Whether the monitor is still watching (has neither observed an exit
    /// nor been cancelled).
    pub fn is_watching(&self) -> (r: bool)
        ensures
            r == self.watching(),
    {
        match self.phase {
            MonitorPhase::Watching => true,
            MonitorPhase::Done => false,
        }
    }

    /// The handle this monitor should probe now: its registered handle if
    /// it is still watching and its key is still registered, and nothing
    /// otherwise.
    pub fn poll_target(&self, registry: &Registry) -> (r: Option<u64>)
        ensures
            r == (if self.watching() && registry@.contains_key(self.key_view()) {
                Some(registry@[self.key_view()])
            } else {
                None::<u64>
            }),
    {
        match self.phase {
            MonitorPhase::Watching => registry.get(&self.key),
            MonitorPhase::Done => None,
        }
    }

    /// Acts on the outcome of one probe of the registered handle. On
    /// `StillRunning` nothing changes; on exit or probe error the monitor
    /// removes its entry from the registry — becoming the owner of the
    /// handle — and returns the exit notification for this launch.
    pub fn observe(&mut self, registry: &mut Registry, probe: ProbeOutcome) -> (r: MonitorStep)
        requires
            old(self).watching(),
            old(registry)@.contains_key(old(self).key_view()),
        ensures
            final(self).key_view() == old(self).key_view(),
            final(self).owner_view() == old(self).owner_view(),
            final(self).exe_view() == old(self).exe_view(),
            final(self).display_view() == old(self).display_view(),
            probe is StillRunning ==> final(self).watching() && final(registry)@ == old(
                registry,
            )@ && r is KeepWatching,
            !(probe is StillRunning) ==> !final(self).watching() && final(registry)@ == old(
                registry,
            )@.remove(old(self).key_view()) && (r matches MonitorStep::Notify(n) && n.owner@
                == old(self).owner_view() && n.exe@ == old(self).exe_view() && n.display@ == old(
                self,
            ).display_view()),
    {
        proof {
            use_type_invariant(&*self);
        }
        match probe {
            ProbeOutcome::StillRunning => MonitorStep::KeepWatching,
            _ => {
                let _ = registry.remove(&self.key);
                self.phase = MonitorPhase::Done;
                MonitorStep::Notify(
                    ExitNotification {
                        owner: self.owner.clone(),
                        exe: self.exe.clone(),
                        display: self.display.clone(),
                    },
                )
            }
        }
    }

    /// Stops the monitor silently: its key was no longer registered, so
    /// another component already owns the handle and no notification is
    /// due from this monitor.
    pub fn cancel(&mut self) -> (r: MonitorStep)
        requires
            old(self).watching(),
        ensures
            final(self).key_view() == old(self).key_view(),
            final(self).owner_view() == old(self).owner_view(),
            final(self).exe_view() == old(self).exe_view(),
            final(self).display_view() == old(self).display_view(),
            !final(self).watching(),
            r is Stopped,
    {
        proof {
            use_type_invariant(&*self);
        }
        self.phase = MonitorPhase::Done;
        MonitorStep::Stopped
    }
}

/// One `observe` call as a relation: its precondition together with what it
/// ensures, over the monitor states and registry contents before and after.
pub open spec fn observe_rel(
    pre: Monitor,
    reg_pre: Map<Seq<char>, u64>,
    post: Monitor,
    reg_post: Map<Seq<char>, u64>,
    probe: ProbeOutcome,
    r: MonitorStep,
) -> bool {
    &&& pre.watching()
    &&& reg_pre.contains_key(pre.key_view())
    &&& post.key_view() == pre.key_view()
    &&& post.owner_view() == pre.owner_view()
    &&& post.exe_view() == pre.exe_view()
    &&& post.display_view() == pre.display_view()
    &&& (probe is StillRunning ==> post.watching() && reg_post == reg_pre && r is KeepWatching)
    &&& (!(probe is StillRunning) ==> !post.watching() && reg_post == reg_pre.remove(
        pre.key_view(),
    ) && r is Notify)
}

/// One `cancel` call as a relation: its precondition together with what it
/// ensures.
pub open spec fn cancel_rel(pre: Monitor, post: Monitor, r: MonitorStep) -> bool {
    &&& pre.watching()
    &&& post.key_view() == pre.key_view()
    &&& post.owner_view() == pre.owner_view()
    &&& post.exe_view() == pre.exe_view()
    &&& post.display_view() == pre.display_view()
    &&& !post.watching()
    &&& r is Stopped
}

/// One iteration of the monitor loop, as the contracts state it: either an
/// `observe` of some probe outcome, or a `cancel` on finding the key gone.
pub open spec fn poll_rel(
    pre: Monitor,
    reg_pre: Map<Seq<char>, u64>,
    post: Monitor,
    reg_post: Map<Seq<char>, u64>,
    r: MonitorStep,
) -> bool {
    ||| exists|probe: ProbeOutcome| observe_rel(pre, reg_pre, post, reg_post, probe, r)
    ||| (cancel_rel(pre, post, r) && reg_post == reg_pre)
}

/// A monitor's whole polling history: poll `i` takes `states[i]` to
/// `states[i + 1]`, with the registry contents `regs_pre[i]` before it and
/// `regs_post[i]` after it (other components may move the registry between
/// polls), deciding `steps[i]`.
pub open spec fn monitor_run(
    states: Seq<Monitor>,
    regs_pre: Seq<Map<Seq<char>, u64>>,
    regs_post: Seq<Map<Seq<char>, u64>>,
    steps: Seq<MonitorStep>,
) -> bool {
    &&& states.len() == steps.len() + 1
    &&& regs_pre.len() == steps.len()
    &&& regs_post.len() == steps.len()
    &&& forall|i: int|
        0 <= i < steps.len() ==> poll_rel(
            states[i],
            regs_pre[i],
            #[trigger] states[i + 1],
            regs_post[i],
            steps[i],
        )
}

/// At most one exit notification per launch: a poll that yields the
/// notification leaves the monitor out of its watching state for good, and
/// every poll demands a watching monitor — so a notifying poll is the last
/// poll of any run, and no run notifies twice.
pub proof fn lemma_notify_at_most_once(
    states: Seq<Monitor>,
    regs_pre: Seq<Map<Seq<char>, u64>>,
    regs_post: Seq<Map<Seq<char>, u64>>,
    steps: Seq<MonitorStep>,
    i: int,
)
    requires
        monitor_run(states, regs_pre, regs_post, steps),
        0 <= i < steps.len(),
        steps[i] is Notify,
    ensures
        i == steps.len() - 1,
        forall|j: int| 0 <= j < steps.len() && j != i ==> !((#[trigger] steps[j]) is Notify),
{
    assert(poll_rel(states[i], regs_pre[i], states[i + 1], regs_post[i], steps[i]));
    if i + 1 < steps.len() {
        assert(poll_rel(states[i + 1], regs_pre[i + 1], states[i + 1 + 1], regs_post[i + 1],
            steps[i + 1]));
        assert(false);
    }
    assert forall|j: int| 0 <= j < steps.len() && j != i implies !((#[trigger] steps[j])
        is Notify) by {
        if j < i && steps[j] is Notify {
            assert(poll_rel(states[j], regs_pre[j], states[j + 1], regs_post[j], steps[j]));
            assert(poll_rel(states[j + 1], regs_pre[j + 1], states[j + 1 + 1], regs_post[j + 1],
                steps[j + 1]));
            assert(false);
        }
    }
}

} // verus!
