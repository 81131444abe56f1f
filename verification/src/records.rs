//! The record kept per ledger entry, and its classification from the
//! resolution marker observed at fetch time.

use vstd::prelude::*;

verus! {

/// Resolution state of a data request record.
#[derive(Clone, Copy, PartialEq, Eq, Debug)]
pub enum DrState {
    /// The request has no resolution yet (zero marker).
    New,
    /// The request has been resolved (non-zero marker).
    Finished,
}

/// One data request record, as the local store keeps it.
#[derive(Clone, PartialEq, Eq, Debug)]
pub struct DrInfoBridge {
    /// Raw request payload, immutable once observed.
    pub dr_bytes: Vec<u8>,
    /// Resolution state derived from the marker.
    pub dr_state: DrState,
    /// The non-zero resolution marker, present exactly when finished.
    pub dr_tx_hash: Option<u64>,
    /// Timestamp taken when the record was observed finished.
    pub dr_tx_creation_timestamp: Option<i64>,
}

/// The upsert message sent to the local store: record `dr_info` under id
/// `dr_id`, overwriting whatever was there.
#[derive(Clone, PartialEq, Eq, Debug)]
pub struct SetDrInfoBridge {
    pub dr_id: u64,
    pub dr_info: DrInfoBridge,
}

impl DrInfoBridge {
    /// A record is well formed when the marker and the timestamp are present
    /// exactly for finished records, and the stored marker is never the zero
    /// sentinel.
    pub open spec fn wf(self) -> bool {
        &&& self.dr_state is Finished <==> self.dr_tx_hash is Some
        &&& self.dr_state is Finished <==> self.dr_tx_creation_timestamp is Some
        &&& self.dr_tx_hash matches Some(h) ==> h != 0
    }
}

/// What `classify` returns: a zero marker gives a `New` record with neither
/// marker nor timestamp; a non-zero marker gives a `Finished` record holding
/// the marker and the observation time.
pub open spec fn spec_classify(dr_bytes: Vec<u8>, marker: u64, now: i64) -> DrInfoBridge {
    if marker == 0 {
        DrInfoBridge {
            dr_bytes,
            dr_state: DrState::New,
            dr_tx_hash: None,
            dr_tx_creation_timestamp: None,
        }
    } else {
        DrInfoBridge {
            dr_bytes,
            dr_state: DrState::Finished,
            dr_tx_hash: Some(marker),
            dr_tx_creation_timestamp: Some(now),
        }
    }
}

/// Build the record for a fetched entry from its payload, the resolution
/// marker read for it, and the current time.
pub fn classify(dr_bytes: Vec<u8>, marker: u64, now: i64) -> (r: DrInfoBridge)
    ensures
        r == spec_classify(dr_bytes, marker, now),
        r.wf(),
        r.dr_state is New <==> marker == 0,
{
    if marker == 0 {
        DrInfoBridge {
            dr_bytes,
            dr_state: DrState::New,
            dr_tx_hash: None,
            dr_tx_creation_timestamp: None,
        }
    } else {
        DrInfoBridge {
            dr_bytes,
            dr_state: DrState::Finished,
            dr_tx_hash: Some(marker),
            dr_tx_creation_timestamp: Some(now),
        }
    }
}

} // verus!
