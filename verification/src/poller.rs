//! The poller: its configuration and its self-paced schedule.
//!
//! The poller owns no transport; the program around it holds the ledger
//! handle and drives the cycle in [`crate::cycle`]. What the poller keeps
//! is the read-only configuration a cycle needs — the polling period and
//! the caller identity for ledger reads — and the rule that paces cycles:
//! the next cycle starts no earlier than the completion of the previous
//! one plus the period, so at most one cycle is ever in flight.

use vstd::prelude::*;

verus! {

/// The configuration values the poller consumes. How they are loaded is
/// the surrounding program's affair; the poller sees plain values only.
#[derive(Clone, PartialEq, Eq, Debug)]
pub struct Config {
    /// Fixed delay between the completion of one cycle and the start of
    /// the next, in milliseconds.
    pub eth_new_dr_polling_rate_ms: u64,
    /// The 20-byte account identity used as the caller of ledger reads.
    pub eth_account: [u8; 20],
    /// The 20-byte address of the ledger registry contract.
    pub wrb_contract_addr: [u8; 20],
}

/// The poller that reads new data requests from the ledger registry
/// periodically and feeds them to the local request store.
#[derive(Clone, PartialEq, Eq, Debug)]
pub struct EthPoller {
    /// Period to check for new requests, in milliseconds.
    pub eth_new_dr_polling_rate_ms: u64,
    /// The account identity used for ledger reads.
    pub eth_account: [u8; 20],
}

impl EthPoller {
    /// Initialize the poller from a `Config` structure.
    pub fn from_config(config: &Config) -> (r: Result<Self, String>)
        ensures
            r matches Ok(p) ==> p.eth_new_dr_polling_rate_ms == config.eth_new_dr_polling_rate_ms
                && p.eth_account == config.eth_account,
            r is Ok,
    {
        Ok(EthPoller {
            eth_new_dr_polling_rate_ms: config.eth_new_dr_polling_rate_ms,
            eth_account: config.eth_account,
        })
    }

    /// The earliest start time of the next cycle: the completion time of
    /// the cycle just finished plus the polling period. Scheduling the next
    /// cycle at this time keeps cycles from ever overlapping: the delay is
    /// measured from completion, not from a wall-clock tick, so a cycle
    /// whose I/O outlives the period only pushes the next one further out.
    /// `None` when the sum does not fit the clock's range.
    pub fn next_cycle_start(&self, completion_ms: u64) -> (r: Option<u64>)
        ensures
            r == spec_next_cycle_start(self.eth_new_dr_polling_rate_ms, completion_ms),
            r matches Some(t) ==> t == completion_ms + self.eth_new_dr_polling_rate_ms,
            r is None <==> completion_ms + self.eth_new_dr_polling_rate_ms > u64::MAX,
    {
        if completion_ms <= u64::MAX - self.eth_new_dr_polling_rate_ms {
            Some(completion_ms + self.eth_new_dr_polling_rate_ms)
        } else {
            None
        }
    }
}

/// When the next cycle may start after one completing at `completion_ms`:
/// a full period later, or never when that time does not fit the clock.
pub open spec fn spec_next_cycle_start(period_ms: u64, completion_ms: u64) -> Option<u64> {
    if completion_ms + period_ms <= u64::MAX {
        Some((completion_ms + period_ms) as u64)
    } else {
        None
    }
}

/// A well-paced run of the poller: `times[k]` is the pair of start and
/// completion timestamps of the `k`-th cycle. No cycle completes before it
/// starts, and each later cycle starts at the time scheduled from its
/// predecessor's completion.
pub open spec fn spec_schedule_ok(period_ms: u64, times: Seq<(u64, u64)>) -> bool {
    &&& forall|k: int| 0 <= k < times.len() ==> (#[trigger] times[k]).0 <= times[k].1
    &&& forall|k: int|
        0 <= k < times.len() - 1 ==> spec_next_cycle_start(period_ms, (#[trigger] times[k]).1)
            == Some(times[k + 1].0)
}

/// No-overlap: in a well-paced run, a cycle never starts earlier than the
/// completion of the cycle before it plus the full period — cycles are
/// strictly sequential, however long each one's own I/O took.
pub proof fn lemma_cycles_never_overlap(period_ms: u64, times: Seq<(u64, u64)>)
    requires
        spec_schedule_ok(period_ms, times),
    ensures
        forall|k: int|
            0 <= k < times.len() - 1 ==> (#[trigger] times[k + 1]).0 >= times[k].1 + period_ms,
        forall|k: int| 0 <= k < times.len() - 1 ==> (#[trigger] times[k + 1]).0 >= times[k].1,
{
    assert forall|k: int| 0 <= k < times.len() - 1 implies (#[trigger] times[k + 1]).0 >= times[k].1
        + period_ms by {
        assert(spec_next_cycle_start(period_ms, times[k].1) == Some(times[k + 1].0));
    }
}

} // verus!
