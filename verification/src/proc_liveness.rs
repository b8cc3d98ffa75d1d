//! Is the process that owns an `rt-<pid>` patch-bay directory still alive?
//!
//! The startup sweep reclaims the patch-bay directories of sessions that died
//! without cleaning up. A false "dead" is not a leak but destruction: the fifos of a
//! running session, once removed, cannot be put back, because its shells already
//! hold their paths. So every doubt is settled in favour of "alive".
use vstd::prelude::*;
use crate::proc_info::{is_pid, pid_in_range};

verus! {

/// What the kernel says about a pid.
#[derive(Debug, Clone, Copy, PartialEq, Eq, Structural)]
pub enum Liveness {
    /// A process with this pid exists. Its directory must be left alone.
    Alive,
    /// No process with this pid exists. Its directory may be reclaimed.
    Gone,
}

/// The error number `kill` gives for a pid that names no process.
pub const ESRCH: i32 = 3;

/// What the answer of `kill(pid, 0)` says of the process: only "no such process"
/// means that it is gone. A permission error means that it belongs to someone else.
pub open spec fn answer_liveness(answer: Result<(), Option<i32>>) -> Liveness {
    if answer == Err::<(), Option<i32>>(Some(ESRCH)) {
        Liveness::Gone
    } else {
        Liveness::Alive
    }
}

/// What the answer of `kill(pid, 0)` (its error number, where it failed with one)
/// says of the process.
pub fn liveness_from(answer: Result<(), Option<i32>>) -> (r: Liveness)
    ensures
        r == answer_liveness(answer),
{
    match answer {
        Err(Some(errno)) => if errno == ESRCH {
            Liveness::Gone
        } else {
            Liveness::Alive
        },
        _ => Liveness::Alive,
    }
}

/// Ask the kernel, through `kill` with signal 0, whether `pid` names a live process.
///
/// Zero and the values past the range of a pid have broadcast meanings to `kill`:
/// they never reach it, and are never called dead.
pub fn probe<K: FnOnce(i32) -> Result<(), Option<i32>>>(pid: u32, kill: K) -> (r: Liveness)
    requires
        is_pid(pid) ==> call_requires(kill, (pid as i32,)),
    ensures
        !is_pid(pid) ==> r == Liveness::Alive,
        is_pid(pid) ==> exists|answer: Result<(), Option<i32>>| #[trigger]
            call_ensures(kill, (pid as i32,), answer) && r == answer_liveness(answer),
{
    if !pid_in_range(pid) {
        return Liveness::Alive;
    }
    let answer: Result<(), Option<i32>> = kill(pid as i32);
    liveness_from(answer)
}

/// Should the startup sweep delete the directory of `pid`? Its own (`me`) never,
/// whatever the probe said; another's only where its owner is gone.
pub fn should_reclaim(pid: u32, me: u32, liveness: Liveness) -> (r: bool)
    ensures
        r <==> pid != me && liveness == Liveness::Gone,
{
    if pid == me {
        return false;
    }
    liveness == Liveness::Gone
}

/// Probe `pid` and decide in one step.
pub fn should_reclaim_pid<K: FnOnce(i32) -> Result<(), Option<i32>>>(pid: u32, me: u32, kill: K) -> (r: bool)
    requires
        is_pid(pid) ==> call_requires(kill, (pid as i32,)),
    ensures
        !is_pid(pid) || pid == me ==> !r,
        is_pid(pid) && pid != me ==> exists|answer: Result<(), Option<i32>>| #[trigger]
            call_ensures(kill, (pid as i32,), answer) && r == (answer_liveness(answer) == Liveness::Gone),
{
    should_reclaim(pid, me, probe(pid, kill))
}

} // verus!
