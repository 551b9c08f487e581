//! The pause protocol's decisions.
//!
//! The pause flag and the entry barrier are shared by every worker, so the
//! runner keeps them in atomics and polls on a timer; what it must do with
//! the values it reads is decided here. On entering `pause`, a worker runs
//! `pause_barrier_enter` on the barrier it read: the one that entered at
//! zero becomes the session's prompter, lists the directory scans, and reads
//! one line of operator input (read and discarded: acting on it is a known
//! gap kept as it was). Every worker then polls the flag, and
//! `pause_poll` says each tick whether to keep waiting or to leave, and with
//! what barrier value.

use vstd::prelude::*;

verus! {

/// Enter the pause barrier: the caller that finds it at zero raises it to
/// one and becomes the session's prompter; any other caller leaves it alone.
pub fn pause_barrier_enter(barrier: u64) -> (r: (u64, bool))
    ensures
        r.1 == (barrier == 0),
        barrier == 0 ==> r.0 == 1,
        barrier != 0 ==> r.0 == barrier,
{
    if barrier == 0 {
        (1, true)
    } else {
        (barrier, false)
    }
}

/// One polling tick: while the flag is set, keep waiting. When it clears,
/// leave, handing back the barrier to store: lowered to zero when it stands
/// at exactly one, untouched otherwise — the single-prompter session is the
/// only one this protocol models, and other barrier values are left as
/// found.
pub fn pause_poll(paused: bool, barrier: u64) -> (r: Option<u64>)
    ensures
        paused ==> r is None,
        !paused ==> r == Some(
            if barrier == 1 {
                0u64
            } else {
                barrier
            },
        ),
{
    if paused {
        None
    } else if barrier == 1 {
        Some(0)
    } else {
        Some(barrier)
    }
}

} // verus!
