//! The terminator: two-phase shutdown of a tracked process. A keyed
//! termination atomically takes the handle out of the registry — whoever
//! removes the key owns the termination decision — then asks the OS for a
//! graceful close and drives a bounded wait that escalates to a forceful
//! kill. An unkeyed termination, or a keyed one that finds no entry, falls
//! back to a forceful kill by executable image name. The decision itself
//! never waits on the child; all waiting happens in the escalation steps,
//! which the embedding drives from a background task.

use vstd::prelude::*;
use crate::key::key_of;
use crate::key::make_key;
use crate::registry::Registry;

verus! {

/// Number of exit probes granted to a gracefully closed process before the
/// forceful kill, one probe per interval.
pub const GRACE_PROBES: u64 = 15;

/// Milliseconds between two probes of the grace window (so the forceful
/// kill comes about `GRACE_PROBES * GRACE_POLL_MS` ms after the close
/// request).
pub const GRACE_POLL_MS: u64 = 100;

/// What the caller must now do, decided without blocking.
pub enum TerminateAction {
    /// The keyed entry was removed and `handle` is now owned by this
    /// termination: request a graceful close of its process, then drive an
    /// `Escalation` from a background task.
    GracefulThenEscalate { handle: u64 },
    /// Nothing was tracked under that key (or no owner was given):
    /// force-kill by executable image name, not scoped to an owner. Safe to
    /// repeat.
    KillByImage,
}

/// One keyed termination as a relation over registry contents: if the key
/// is tracked, exactly its entry is removed and the removed handle is the
/// one to close gracefully and escalate on; otherwise nothing changes and
/// the fallback image-name kill is ordered.
pub open spec fn terminate_keyed_rel(
    pre: Map<Seq<char>, u64>,
    post: Map<Seq<char>, u64>,
    owner: Seq<char>,
    exe: Seq<char>,
    r: TerminateAction,
) -> bool {
    if pre.contains_key(key_of(owner, exe)) {
        post == pre.remove(key_of(owner, exe)) && r == (TerminateAction::GracefulThenEscalate {
            handle: pre[key_of(owner, exe)],
        })
    } else {
        post == pre && r is KillByImage
    }
}

/// Decides how to terminate `exe`, optionally scoped to `owner`, and takes
/// the tracked handle out of the registry if the keyed entry exists. This
/// is the whole caller-side step: it never waits on the child.
pub fn terminate(registry: &mut Registry, exe: &String, owner: Option<&String>) -> (r:
    TerminateAction)
    ensures
        match owner {
            Some(o) => terminate_keyed_rel(old(registry)@, final(registry)@, o@, exe@, r),
            None => final(registry)@ == old(registry)@ && r is KillByImage,
        },
{
    match owner {
        Some(o) => {
            let key = make_key(o, exe);
            match registry.remove(&key) {
                Some(h) => TerminateAction::GracefulThenEscalate { handle: h },
                None => {
                    proof {
                        assert(old(registry)@.remove(key@) =~= old(registry)@);
                    }
                    TerminateAction::KillByImage
                }
            }
        }
        None => TerminateAction::KillByImage,
    }
}

/// What one escalation step tells the background task to do.
pub enum EscalationStep {
    /// The process exited within the grace window; it is reaped and the
    /// task is done. No forceful kill is issued.
    Reaped,
    /// Still within the grace window: sleep one interval and probe again.
    WaitMore,
    /// The grace window is exhausted without an exit: issue the forceful
    /// kill now, then block in this background task until the process is
    /// reaped.
    ForceKill,
}

/// The bounded graceful-close wait for one terminated process: counts the
/// exit probes made since the close request and decides, after each, to
/// finish, keep waiting, or escalate to the forceful kill.
pub struct Escalation {
    /// Probes made so far; never exceeds `GRACE_PROBES`.
    pub probes: u64,
    /// Whether the escalation has reached a terminal decision.
    pub finished: bool,
}

/// One `step` call as a relation: its precondition together with what it
/// ensures, over the states before and after.
pub open spec fn step_rel(pre: Escalation, post: Escalation, exited: bool, r: EscalationStep,
) -> bool {
    &&& !pre.finished
    &&& pre.probes < GRACE_PROBES
    &&& post.probes == pre.probes + 1
    &&& post.finished == (exited || pre.probes + 1 == GRACE_PROBES)
    &&& r == (if exited {
        EscalationStep::Reaped
    } else if pre.probes + 1 < GRACE_PROBES {
        EscalationStep::WaitMore
    } else {
        EscalationStep::ForceKill
    })
}

impl Escalation {
    /// A fresh escalation, started right after the graceful close request.
    pub fn new() -> (r: Escalation)
        ensures
            r.probes == 0,
            !r.finished,
    {
        Escalation { probes: 0, finished: false }
    }

    /// Records one probe of the closing process. `exited` is what the
    /// probe reported. The forceful kill is ordered exactly when the
    /// `GRACE_PROBES`-th probe still finds the process running, and never
    /// after an observed exit.
    pub fn step(&mut self, exited: bool) -> (r: EscalationStep)
        requires
            !old(self).finished,
            old(self).probes < GRACE_PROBES,
        ensures
            step_rel(*old(self), *final(self), exited, r),
    {
        self.probes = self.probes + 1;
        if exited {
            self.finished = true;
            EscalationStep::Reaped
        } else if self.probes < GRACE_PROBES {
            EscalationStep::WaitMore
        } else {
            self.finished = true;
            EscalationStep::ForceKill
        }
    }
}

/// A full escalation run: `states[i]` steps to `states[i + 1]` when the
/// probe reported `exits[i]`, deciding `steps[i]`.
pub open spec fn escalation_run(
    states: Seq<Escalation>,
    exits: Seq<bool>,
    steps: Seq<EscalationStep>,
) -> bool {
    &&& states.len() == exits.len() + 1
    &&& steps.len() == exits.len()
    &&& states[0].probes == 0
    &&& !states[0].finished
    &&& forall|i: int|
        0 <= i < exits.len() ==> step_rel(states[i], #[trigger] states[i + 1], exits[i], steps[i])
}

proof fn lemma_run_probe_count(
    states: Seq<Escalation>,
    exits: Seq<bool>,
    steps: Seq<EscalationStep>,
    i: int,
)
    requires
        escalation_run(states, exits, steps),
        0 <= i < states.len(),
    ensures
        states[i].probes == i,
    decreases i,
{
    if i > 0 {
        lemma_run_probe_count(states, exits, steps, i - 1);
        assert(step_rel(states[i - 1], states[i - 1 + 1], exits[i - 1], steps[i - 1]));
    }
}

/// Escalation timing: in any run of the bounded wait, a forceful kill is
/// decided exactly at the `GRACE_PROBES`-th probe — neither earlier nor
/// later — and only when every probe of the grace window, that one
/// included, still found the process running. With one probe each
/// `GRACE_POLL_MS` ms this places the kill at the end of the grace window
/// and nowhere else.
pub proof fn lemma_escalation_timing(
    states: Seq<Escalation>,
    exits: Seq<bool>,
    steps: Seq<EscalationStep>,
    i: int,
)
    requires
        escalation_run(states, exits, steps),
        0 <= i < steps.len(),
        steps[i] is ForceKill,
    ensures
        i == GRACE_PROBES - 1,
        forall|j: int| 0 <= j <= i ==> !exits[j],
{
    lemma_run_probe_count(states, exits, steps, i);
    assert(step_rel(states[i], states[i + 1], exits[i], steps[i]));
    assert forall|j: int| 0 <= j <= i implies !exits[j] by {
        assert(step_rel(states[j], states[j + 1], exits[j], steps[j]));
        if j < i {
            lemma_run_probe_count(states, exits, steps, j + 1);
            assert(step_rel(states[j + 1], states[j + 1 + 1], exits[j + 1], steps[j + 1]));
        }
    }
}

/// Idempotence of keyed termination: after one keyed termination the key
/// is no longer tracked — whether an entry was removed or none existed —
/// so a second keyed termination for the same pair changes nothing and
/// falls through to the image-name fallback, which is itself safe to
/// repeat. In particular it never hands out the handle a second time.
pub proof fn lemma_terminate_idempotent(
    reg0: Map<Seq<char>, u64>,
    reg1: Map<Seq<char>, u64>,
    reg2: Map<Seq<char>, u64>,
    owner: Seq<char>,
    exe: Seq<char>,
    r1: TerminateAction,
    r2: TerminateAction,
)
    requires
        terminate_keyed_rel(reg0, reg1, owner, exe, r1),
        terminate_keyed_rel(reg1, reg2, owner, exe, r2),
    ensures
        r2 is KillByImage,
        reg2 == reg1,
{
}

/// Race safety: the registry lock serializes the monitor's exit-detection
/// removal and the terminator's keyed removal, and both go through the same
/// map removal. In whichever order the two fire for one key, at most one of
/// them is handed the handle; the other finds the key gone.
pub proof fn lemma_handle_owned_once(
    reg0: Map<Seq<char>, u64>,
    reg1: Map<Seq<char>, u64>,
    reg2: Map<Seq<char>, u64>,
    k: Seq<char>,
    took1: Option<u64>,
    took2: Option<u64>,
)
    requires
        reg1 == reg0.remove(k),
        took1 == (if reg0.contains_key(k) {
            Some(reg0[k])
        } else {
            None::<u64>
        }),
        reg2 == reg1.remove(k),
        took2 == (if reg1.contains_key(k) {
            Some(reg1[k])
        } else {
            None::<u64>
        }),
    ensures
        !(took1 is Some && took2 is Some),
        !reg2.contains_key(k),
{
}

} // verus!
