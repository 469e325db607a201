//! The launcher's registration step. Spawning the child is an OS call made
//! by the embedding; this module fixes what `launch` guarantees around it:
//! the `--title` argument convention handed to the child, and that on a
//! successful spawn the handle is registered under the `(owner, exe)` key
//! and exactly one watching monitor is created before `launch` returns,
//! while a failed spawn surfaces the error and leaves the registry alone.

use vstd::prelude::*;
use vstd::string::StringExecFns;
use crate::key::key_of;
use crate::key::make_key;
use crate::monitor::Monitor;
use crate::registry::Registry;

verus! {

/// Why a launch failed.
#[derive(Debug)]
pub enum LaunchError {
    /// The OS refused to create the process; carries its reason. No
    /// registry mutation has occurred.
    SpawnFailed(String),
}

/// What the OS spawn call reported: either the new process id, or the
/// reason it refused.
pub enum SpawnOutcome {
    Spawned(u64),
    Failed(String),
}

/// The argument list a supervised child is launched with: the `--title`
/// flag followed by the display name.
pub fn launch_args(display: &String) -> (r: Vec<String>)
    ensures
        r@.len() == 2,
        r@[0]@ == "--title"@,
        r@[1]@ == display@,
{
    let mut v: Vec<String> = Vec::new();
    v.push(String::from_str("--title"));
    v.push(display.clone());
    v
}

/// Commits the outcome of an OS spawn. On success the handle is tracked
/// under `(owner, exe)` — silently replacing any prior entry for that key —
/// and the returned monitor is the one watcher bound to it; the returned
/// pid is the spawned process id. On failure the registry is untouched and
/// the spawn reason is surfaced as `LaunchError::SpawnFailed`.
pub fn launch_commit(
    registry: &mut Registry,
    owner: &String,
    exe: &String,
    display: &String,
    outcome: SpawnOutcome,
) -> (r: Result<(u64, Monitor), LaunchError>)
    ensures
        match outcome {
            SpawnOutcome::Spawned(pid) => final(registry)@ == old(registry)@.insert(
                key_of(owner@, exe@),
                pid,
            ) && (r matches Ok(p) && p.0 == pid && p.1.watching() && p.1.key_view() == key_of(
                owner@,
                exe@,
            ) && p.1.owner_view() == owner@ && p.1.exe_view() == exe@ && p.1.display_view()
                == display@),
            SpawnOutcome::Failed(reason) => final(registry)@ == old(registry)@ && (
            r matches Err(LaunchError::SpawnFailed(m)) && m@ == reason@),
        },
{
    match outcome {
        SpawnOutcome::Spawned(pid) => {
            let key = make_key(owner, exe);
            registry.insert(key, pid);
            let m = Monitor::new(owner, exe, display);
            Ok((pid, m))
        }
        SpawnOutcome::Failed(reason) => Err(LaunchError::SpawnFailed(reason)),
    }
}

} // verus!
