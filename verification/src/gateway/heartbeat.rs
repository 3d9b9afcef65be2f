//! The heartbeat decision on each tick of the heartbeat interval.

use crate::gateway::reconnect::random_below;
use vstd::prelude::*;

verus! {

/// What the heartbeat task asks the connection to do.
#[derive(Debug, Clone, Copy, PartialEq, Eq, Structural)]
pub enum HeartbeatCmd {
    /// Send a heartbeat carrying the last sequence number, if any.
    Send { seq: Option<i64> },
    /// The previous heartbeat was never acknowledged: the connection is dead.
    Zombie { interval_ms: u64, since_ack_ms: u64 },
}

/// On a tick: a zombie report when the last heartbeat is unacknowledged,
/// else a heartbeat with the stored sequence (negative means none yet).
pub fn heartbeat_tick(waiting_ack: bool, seq_raw: i64, interval_ms: u64, since_ack_ms: u64) -> (r: HeartbeatCmd)
    ensures
        waiting_ack ==> r == (HeartbeatCmd::Zombie { interval_ms, since_ack_ms }),
        !waiting_ack ==> r == (HeartbeatCmd::Send {
            seq: if seq_raw < 0 {
                None
            } else {
                Some(seq_raw)
            },
        }),
{
    if waiting_ack {
        HeartbeatCmd::Zombie { interval_ms, since_ack_ms }
    } else if seq_raw < 0 {
        HeartbeatCmd::Send { seq: None }
    } else {
        HeartbeatCmd::Send { seq: Some(seq_raw) }
    }
}

/// How long the first heartbeat waits: a random part of the interval,
/// below it (nothing for a zero interval); later beats follow every interval.
pub fn first_heartbeat_delay(interval_ms: u64) -> (ms: u64)
    ensures
        interval_ms == 0 ==> ms == 0,
        interval_ms > 0 ==> ms < interval_ms,
{
    if interval_ms == 0 {
        0
    } else {
        random_below(interval_ms)
    }
}

} // verus!
