//! The reconciliation cycle: a state machine that discovers the ledger
//! entries the local store does not know yet, classifies each one from its
//! resolution marker, and emits the store upserts in strictly increasing id
//! order, aborting the remainder of the cycle on the first failure.
//!
//! The surrounding program owns the I/O: it performs the [`CycleCommand`]
//! returned by each [`step`] (a ledger read, a store lookup, or the health
//! probe) and feeds the outcome back as the next [`CycleEvent`]. All
//! decisions are taken here, so they hold for every outcome the I/O can
//! produce.

use crate::records::{spec_classify, classify, DrInfoBridge, SetDrInfoBridge};
use vstd::prelude::*;

verus! {

/// Where a cycle stands between two I/O completions.
#[derive(Clone, PartialEq, Eq, Debug)]
pub enum CycleState {
    /// The ledger has been asked for its total entry count.
    AwaitingCount,
    /// The store has been asked for the last id it knows.
    AwaitingLastId { count: u64 },
    /// The ledger has been asked for the payload of entry `current`.
    AwaitingPayload { count: u64, current: u64 },
    /// The ledger has been asked for the resolution marker of entry
    /// `current`, whose payload has already been fetched.
    AwaitingMarker { count: u64, current: u64, payload: Vec<u8> },
    /// The cycle ran to its end: every missing entry was classified and
    /// upserted, or there was nothing new.
    Completed,
    /// The cycle stopped early on a failed ledger read or store lookup;
    /// no further entry of this cycle is processed.
    Aborted,
}

/// The outcome of the I/O the cycle last asked for.
#[derive(Clone, PartialEq, Eq, Debug)]
pub enum CycleEvent {
    /// The ledger returned its total entry count.
    CountOk { count: u64 },
    /// The count query failed.
    CountFailed,
    /// The store returned the last id it knows, `None` meaning none yet.
    LastIdOk { last_id: Option<u64> },
    /// The store lookup failed.
    LastIdFailed,
    /// The ledger returned the payload of the current entry.
    PayloadOk { payload: Vec<u8> },
    /// The payload query failed.
    PayloadFailed,
    /// The ledger returned the resolution marker of the current entry;
    /// `now` is the time the marker was observed.
    MarkerOk { marker: u64, now: i64 },
    /// The marker query failed.
    MarkerFailed,
}

/// The I/O the driver must perform next on behalf of the cycle.
#[derive(Clone, PartialEq, Eq, Debug)]
pub enum CycleCommand {
    /// Ask the ledger for its total entry count.
    QueryCount,
    /// Ask the store for the last id it knows.
    QueryLastId,
    /// Ask the ledger for the payload of the given entry.
    QueryPayload { id: u64 },
    /// Ask the ledger for the resolution marker of the given entry.
    QueryMarker { id: u64 },
    /// Invoke the diagnostic health probe. Issued exactly once per cycle
    /// aborted by a failed ledger read; its outcome feeds nothing back.
    Probe,
}

/// What one step of the cycle decides: the next state, at most one store
/// upsert, and at most one I/O command to perform before the next step.
#[derive(Clone, PartialEq, Eq, Debug)]
pub struct StepResult {
    pub state: CycleState,
    pub upsert: Option<SetDrInfoBridge>,
    pub command: Option<CycleCommand>,
}

impl CycleState {
    /// An in-flight state never points at an entry the ledger does not hold.
    pub open spec fn wf(self) -> bool {
        match self {
            CycleState::AwaitingPayload { count, current } => current < count,
            CycleState::AwaitingMarker { count, current, .. } => current < count,
            _ => true,
        }
    }

    /// Which event the state is waiting for; feeding any other event is a
    /// driver error.
    pub open spec fn expects(self, event: CycleEvent) -> bool {
        match self {
            CycleState::AwaitingCount => event is CountOk || event is CountFailed,
            CycleState::AwaitingLastId { .. } => event is LastIdOk || event is LastIdFailed,
            CycleState::AwaitingPayload { .. } => event is PayloadOk || event is PayloadFailed,
            CycleState::AwaitingMarker { .. } => event is MarkerOk || event is MarkerFailed,
            CycleState::Completed => false,
            CycleState::Aborted => false,
        }
    }
}

/// The first candidate id of a cycle: the one after the last id the store
/// knows, or `0` when the store knows none.
pub open spec fn spec_first_candidate(last_id: Option<u64>) -> int {
    match last_id {
        None => 0,
        Some(l) => l as int + 1,
    }
}

/// A cycle with ledger count `count` and store reply `last_id` has nothing
/// new to process.
pub open spec fn spec_no_new_entries(count: u64, last_id: Option<u64>) -> bool {
    spec_first_candidate(last_id) >= count as int
}

/// The transition relation of the cycle, one I/O completion at a time.
pub open spec fn spec_step(state: CycleState, event: CycleEvent) -> StepResult {
    match state {
        CycleState::AwaitingCount => match event {
            CycleEvent::CountOk { count } => StepResult {
                state: CycleState::AwaitingLastId { count },
                upsert: None,
                command: Some(CycleCommand::QueryLastId),
            },
            _ => StepResult {
                // A failed ledger read aborts the cycle and fires the probe.
                state: CycleState::Aborted,
                upsert: None,
                command: Some(CycleCommand::Probe),
            },
        },
        CycleState::AwaitingLastId { count } => match event {
            CycleEvent::LastIdOk { last_id } => {
                if spec_no_new_entries(count, last_id) {
                    StepResult { state: CycleState::Completed, upsert: None, command: None }
                } else {
                    StepResult {
                        state: CycleState::AwaitingPayload {
                            count,
                            current: spec_first_candidate(last_id) as u64,
                        },
                        upsert: None,
                        command: Some(
                            CycleCommand::QueryPayload {
                                id: spec_first_candidate(last_id) as u64,
                            },
                        ),
                    }
                }
            },
            _ => StepResult {
                // A failed store lookup aborts the cycle; the probe diagnoses
                // the ledger node only, so it is not fired here.
                state: CycleState::Aborted,
                upsert: None,
                command: None,
            },
        },
        CycleState::AwaitingPayload { count, current } => match event {
            CycleEvent::PayloadOk { payload } => StepResult {
                state: CycleState::AwaitingMarker { count, current, payload },
                upsert: None,
                command: Some(CycleCommand::QueryMarker { id: current }),
            },
            _ => StepResult {
                state: CycleState::Aborted,
                upsert: None,
                command: Some(CycleCommand::Probe),
            },
        },
        CycleState::AwaitingMarker { count, current, payload } => match event {
            CycleEvent::MarkerOk { marker, now } => {
                let upsert = Some(
                    SetDrInfoBridge { dr_id: current, dr_info: spec_classify(payload, marker, now) },
                );
                if current + 1 < count {
                    StepResult {
                        state: CycleState::AwaitingPayload { count, current: (current + 1) as u64 },
                        upsert,
                        command: Some(CycleCommand::QueryPayload { id: (current + 1) as u64 }),
                    }
                } else {
                    StepResult { state: CycleState::Completed, upsert, command: None }
                }
            },
            _ => StepResult {
                state: CycleState::Aborted,
                upsert: None,
                command: Some(CycleCommand::Probe),
            },
        },
        _ => StepResult { state, upsert: None, command: None },
    }
}

/// Begin a cycle: the first thing it wants is the ledger count.
pub fn start_cycle() -> (r: StepResult)
    ensures
        r.state == CycleState::AwaitingCount,
        r.upsert is None,
        r.command == Some(CycleCommand::QueryCount),
{
    StepResult {
        state: CycleState::AwaitingCount,
        upsert: None,
        command: Some(CycleCommand::QueryCount),
    }
}

/// Advance the cycle by the outcome of the I/O it last asked for.
pub fn step(state: CycleState, event: CycleEvent) -> (r: StepResult)
    requires
        state.wf(),
        state.expects(event),
    ensures
        r == spec_step(state, event),
        r.state.wf(),
{
    match state {
        CycleState::AwaitingCount => match event {
            CycleEvent::CountOk { count } => StepResult {
                state: CycleState::AwaitingLastId { count },
                upsert: None,
                command: Some(CycleCommand::QueryLastId),
            },
            _ => StepResult {
                state: CycleState::Aborted,
                upsert: None,
                command: Some(CycleCommand::Probe),
            },
        },
        CycleState::AwaitingLastId { count } => match event {
            CycleEvent::LastIdOk { last_id } => {
                let no_new: bool = match last_id {
                    None => count == 0,
                    Some(l) => l >= count || l == count - 1,
                };
                if no_new {
                    StepResult { state: CycleState::Completed, upsert: None, command: None }
                } else {
                    let first: u64 = match last_id {
                        None => 0,
                        Some(l) => l + 1,
                    };
                    StepResult {
                        state: CycleState::AwaitingPayload { count, current: first },
                        upsert: None,
                        command: Some(CycleCommand::QueryPayload { id: first }),
                    }
                }
            },
            _ => StepResult { state: CycleState::Aborted, upsert: None, command: None },
        },
        CycleState::AwaitingPayload { count, current } => match event {
            CycleEvent::PayloadOk { payload } => StepResult {
                state: CycleState::AwaitingMarker { count, current, payload },
                upsert: None,
                command: Some(CycleCommand::QueryMarker { id: current }),
            },
            _ => StepResult {
                state: CycleState::Aborted,
                upsert: None,
                command: Some(CycleCommand::Probe),
            },
        },
        CycleState::AwaitingMarker { count, current, payload } => match event {
            CycleEvent::MarkerOk { marker, now } => {
                let upsert: Option<SetDrInfoBridge> = Some(
                    SetDrInfoBridge { dr_id: current, dr_info: classify(payload, marker, now) },
                );
                if current + 1 < count {
                    StepResult {
                        state: CycleState::AwaitingPayload { count, current: current + 1 },
                        upsert,
                        command: Some(CycleCommand::QueryPayload { id: current + 1 }),
                    }
                } else {
                    StepResult { state: CycleState::Completed, upsert, command: None }
                }
            },
            _ => StepResult {
                state: CycleState::Aborted,
                upsert: None,
                command: Some(CycleCommand::Probe),
            },
        },
        _ => StepResult { state, upsert: None, command: None },
    }
}

/// The per-entry outcome of the two ledger reads a cycle makes for one
/// candidate id: the payload read, then the resolution marker read.
#[derive(Clone, PartialEq, Eq, Debug)]
pub enum FetchOutcome {
    /// The payload read failed; nothing further is read for this id.
    PayloadFailed,
    /// The payload was read, but the marker read failed.
    MarkerFailed { payload: Vec<u8> },
    /// Both reads succeeded; `now` is the time the marker was observed.
    Fetched { payload: Vec<u8>, marker: u64, now: i64 },
}

/// What one whole cycle did: the store upserts it issued in order, whether
/// the health probe was invoked, and whether the cycle ran to its end.
pub struct CycleReport {
    pub upserts: Vec<SetDrInfoBridge>,
    pub probed: bool,
    pub completed: bool,
}

/// The index of the first candidate whose ledger reads did not both
/// succeed, or the length of `outs` when every read succeeded.
pub open spec fn first_failure(outs: Seq<FetchOutcome>) -> int
    decreases outs.len(),
{
    if outs.len() == 0 {
        0
    } else if !(outs[0] is Fetched) {
        0
    } else {
        1 + first_failure(outs.drop_first())
    }
}

/// The upsert a cycle starting at id `first` issues for the candidate at
/// index `j`, provided its reads succeeded.
pub open spec fn upsert_for(first: int, j: int, outs: Seq<FetchOutcome>) -> SetDrInfoBridge {
    match outs[j] {
        FetchOutcome::Fetched { payload, marker, now } => SetDrInfoBridge {
            dr_id: (first + j) as u64,
            dr_info: spec_classify(payload, marker, now),
        },
        _ => vstd::pervasive::arbitrary(),
    }
}

/// The upserts a cycle starting at id `first` issues for the outcomes
/// `outs`, in order: one per fetched candidate, stopping at the first
/// failed read.
pub open spec fn upserts_of(first: int, outs: Seq<FetchOutcome>) -> Seq<SetDrInfoBridge>
    decreases outs.len(),
{
    if outs.len() == 0 {
        Seq::empty()
    } else {
        match outs[0] {
            FetchOutcome::Fetched { payload, marker, now } => seq![
                SetDrInfoBridge { dr_id: first as u64, dr_info: spec_classify(payload, marker, now) },
            ] + upserts_of(first + 1, outs.drop_first()),
            _ => Seq::empty(),
        }
    }
}

/// The upserts of one whole cycle: none when the count query or the store
/// lookup failed, none when there is nothing new, and otherwise the upserts
/// for the candidates from the first unknown id on.
pub open spec fn spec_cycle_upserts(
    count: Option<u64>,
    last_lookup: Option<Option<u64>>,
    outs: Seq<FetchOutcome>,
) -> Seq<SetDrInfoBridge> {
    match (count, last_lookup) {
        (Some(n), Some(l)) => if spec_no_new_entries(n, l) {
            Seq::empty()
        } else {
            upserts_of(spec_first_candidate(l), outs)
        },
        _ => Seq::empty(),
    }
}

/// Whether one whole cycle invokes the health probe: exactly when a ledger
/// read failed (the count query, a payload read, or a marker read). A
/// failed store lookup does not probe the ledger node.
pub open spec fn spec_cycle_probed(
    count: Option<u64>,
    last_lookup: Option<Option<u64>>,
    outs: Seq<FetchOutcome>,
) -> bool {
    match (count, last_lookup) {
        (None, _) => true,
        (Some(n), None) => false,
        (Some(n), Some(l)) => !spec_no_new_entries(n, l) && first_failure(outs) < outs.len(),
    }
}

/// Whether one whole cycle ran to its end: the two initial queries
/// succeeded and either there was nothing new or every candidate's reads
/// succeeded.
pub open spec fn spec_cycle_completed(
    count: Option<u64>,
    last_lookup: Option<Option<u64>>,
    outs: Seq<FetchOutcome>,
) -> bool {
    match (count, last_lookup) {
        (Some(n), Some(l)) => spec_no_new_entries(n, l) || first_failure(outs) == outs.len(),
        _ => false,
    }
}

/// The last id the store knows once the upserts of one cycle reached it:
/// unchanged when the cycle issued none, else the id of the last upsert,
/// the highest one issued.
pub open spec fn spec_last_after(
    last_id: Option<u64>,
    ups: Seq<SetDrInfoBridge>,
) -> Option<u64> {
    if ups.len() == 0 {
        last_id
    } else {
        Some(ups.last().dr_id)
    }
}

pub proof fn lemma_first_failure_bounds(outs: Seq<FetchOutcome>)
    ensures
        0 <= first_failure(outs) <= outs.len(),
    decreases outs.len(),
{
    if outs.len() == 0 {
    } else if !(outs[0] is Fetched) {
    } else {
        lemma_first_failure_bounds(outs.drop_first());
    }
}

/// `first_failure` is exactly the first index whose reads did not both
/// succeed.
pub proof fn lemma_first_failure_at(outs: Seq<FetchOutcome>, k: int)
    requires
        0 <= k <= outs.len(),
        forall|j: int| 0 <= j < k ==> outs[j] is Fetched,
        k < outs.len() ==> !(outs[k] is Fetched),
    ensures
        first_failure(outs) == k,
    decreases outs.len(),
{
    if outs.len() == 0 {
    } else if k == 0 {
    } else {
        assert(outs[0] is Fetched);
        assert forall|j: int| 0 <= j < k - 1 implies outs.drop_first()[j] is Fetched by {
            assert(outs.drop_first()[j] == outs[j + 1]);
        }
        assert(k - 1 < outs.drop_first().len() ==> !(outs.drop_first()[k - 1] is Fetched));
        lemma_first_failure_at(outs.drop_first(), k - 1);
    }
}

/// Every candidate before the first failed read had both reads succeed.
pub proof fn lemma_first_failure_prefix_fetched(outs: Seq<FetchOutcome>)
    ensures
        forall|j: int| 0 <= j < first_failure(outs) ==> #[trigger] outs[j] is Fetched,
    decreases outs.len(),
{
    if outs.len() == 0 {
    } else if !(outs[0] is Fetched) {
    } else {
        let rest = outs.drop_first();
        lemma_first_failure_prefix_fetched(rest);
        lemma_first_failure_bounds(rest);
        assert forall|j: int| 0 <= j < first_failure(outs) implies #[trigger] outs[j] is Fetched by {
            if j > 0 {
                assert(rest[j - 1] is Fetched);
                assert(rest[j - 1] == outs[j]);
            }
        }
    }
}

/// What the upserts of a cycle are, element by element: one upsert per
/// candidate before the first failed read, carrying the candidate's id and
/// its classified record, and none from the failure on.
pub proof fn lemma_upserts_characterized(first: int, outs: Seq<FetchOutcome>)
    requires
        0 <= first,
        first + outs.len() <= u64::MAX + 1,
    ensures
        upserts_of(first, outs).len() == first_failure(outs),
        forall|j: int|
            0 <= j < first_failure(outs) ==> #[trigger] upserts_of(first, outs)[j]
                == upsert_for(first, j, outs),
    decreases outs.len(),
{
    lemma_first_failure_bounds(outs);
    if outs.len() == 0 {
    } else if !(outs[0] is Fetched) {
    } else {
        let rest = outs.drop_first();
        lemma_upserts_characterized(first + 1, rest);
        lemma_first_failure_bounds(rest);
        assert forall|j: int| 0 <= j < first_failure(outs) implies #[trigger] upserts_of(
            first,
            outs,
        )[j] == upsert_for(first, j, outs) by {
            if j == 0 {
            } else {
                assert(upserts_of(first, outs)[j] == upserts_of(first + 1, rest)[j - 1]);
                assert(rest[j - 1] == outs[j]);
            }
        }
    }
}

/// Run one whole reconciliation cycle by driving [`step`] from the ledger
/// count, the store's last-id lookup, and the per-candidate read outcomes,
/// `outcomes[j]` being the outcome for the candidate at index `j` (id
/// `first + j`). Returns the upserts the cycle issued in order, whether the
/// health probe fired, and whether the cycle ran to its end.
pub fn run_cycle(
    count: Option<u64>,
    last_lookup: Option<Option<u64>>,
    outcomes: Vec<FetchOutcome>,
) -> (r: CycleReport)
    requires
        count matches Some(n) ==> last_lookup matches Some(l) ==> !spec_no_new_entries(n, l)
            ==> outcomes@.len() == n - spec_first_candidate(l),
    ensures
        r.upserts@ == spec_cycle_upserts(count, last_lookup, outcomes@),
        r.probed == spec_cycle_probed(count, last_lookup, outcomes@),
        r.completed == spec_cycle_completed(count, last_lookup, outcomes@),
{
    let ghost all = outcomes@;
    let mut outs = outcomes;
    let mut upserts: Vec<SetDrInfoBridge> = Vec::new();

    let start = start_cycle();
    let ev = match count {
        Some(c) => CycleEvent::CountOk { count: c },
        None => CycleEvent::CountFailed,
    };
    let r1 = step(start.state, ev);
    let aborted_on_count: bool = match &r1.state {
        CycleState::Aborted => true,
        _ => false,
    };
    if aborted_on_count {
        return CycleReport { upserts, probed: true, completed: false };
    }

    let ev = match last_lookup {
        Some(l) => CycleEvent::LastIdOk { last_id: l },
        None => CycleEvent::LastIdFailed,
    };
    let r2 = step(r1.state, ev);
    let mut st = r2.state;
    match &st {
        CycleState::Aborted => {
            return CycleReport { upserts, probed: false, completed: false };
        },
        CycleState::Completed => {
            return CycleReport { upserts, probed: false, completed: true };
        },
        _ => {},
    }

    let ghost n_g: int = match count {
        Some(c) => c as int,
        None => 0,
    };
    let ghost first: int = match last_lookup {
        Some(l) => spec_first_candidate(l),
        None => 0,
    };
    let ghost mut k: int = 0;
    let mut probed: bool = false;
    proof {
        assert(all.skip(0) =~= all);
        assert(upserts@ + upserts_of(first, all) =~= upserts_of(first, all));
    }

    let mut running: bool = match &st {
        CycleState::AwaitingPayload { .. } => true,
        _ => false,
    };
    while running
        invariant
            running == (st is AwaitingPayload),
            st.wf(),
            st is AwaitingPayload || st is Completed || st is Aborted,
            0 <= k <= all.len(),
            all.len() == n_g - first,
            0 <= first < n_g,
            n_g <= u64::MAX,
            st is AwaitingPayload ==> outs@ == all.skip(k),
            upserts@.len() == k,
            st matches CycleState::AwaitingPayload { count: c2, current: cur } ==> c2 == n_g
                && cur == first + k && k < all.len(),
            st is AwaitingPayload ==> !probed && upserts_of(first, all) == upserts@
                + upserts_of(first + k, all.skip(k)),
            st is AwaitingPayload ==> forall|j: int| 0 <= j < k ==> #[trigger] all[j] is Fetched,
            st is Completed ==> upserts@ == upserts_of(first, all)
                && first_failure(all) == all.len() && !probed,
            st is Aborted ==> upserts@ == upserts_of(first, all)
                && first_failure(all) < all.len() && probed,
        decreases all.len() - k + (if st is AwaitingPayload { 1int } else { 0int }),
    {
        let o = outs.remove(0);
        proof {
            assert(o == all[k]);
            assert(outs@ =~= all.skip(k + 1));
        }
        match o {
            FetchOutcome::PayloadFailed => {
                let r = step(st, CycleEvent::PayloadFailed);
                st = r.state;
                probed = true;
                proof {
                    lemma_first_failure_at(all, k);
                    assert(upserts_of(first + k, all.skip(k)) =~= Seq::<SetDrInfoBridge>::empty());
                    assert(upserts@ =~= upserts@ + upserts_of(first + k, all.skip(k)));
                }
            },
            FetchOutcome::MarkerFailed { payload } => {
                let r = step(st, CycleEvent::PayloadOk { payload });
                let r2 = step(r.state, CycleEvent::MarkerFailed);
                st = r2.state;
                probed = true;
                proof {
                    lemma_first_failure_at(all, k);
                    assert(upserts_of(first + k, all.skip(k)) =~= Seq::<SetDrInfoBridge>::empty());
                    assert(upserts@ =~= upserts@ + upserts_of(first + k, all.skip(k)));
                }
            },
            FetchOutcome::Fetched { payload, marker, now } => {
                let r = step(st, CycleEvent::PayloadOk { payload });
                let r2 = step(r.state, CycleEvent::MarkerOk { marker, now });
                let ghost old_upserts = upserts@;
                match r2.upsert {
                    Some(u) => upserts.push(u),
                    None => {},
                }
                st = r2.state;
                proof {
                    assert(all.skip(k)[0] == all[k]);
                    assert(all.skip(k).drop_first() =~= all.skip(k + 1));
                    assert(upserts_of(first + k, all.skip(k)) == seq![
                        upsert_for(first, k, all),
                    ] + upserts_of(first + k + 1, all.skip(k + 1)));
                    assert(upserts@ =~= old_upserts + seq![upsert_for(first, k, all)]);
                    k = k + 1;
                    assert(upserts_of(first, all) =~= upserts@ + upserts_of(
                        first + k,
                        all.skip(k),
                    ));
                    if st is Completed {
                        assert(k == all.len());
                        assert(all.skip(k) =~= Seq::<FetchOutcome>::empty());
                        assert(upserts@ =~= upserts@ + upserts_of(first + k, all.skip(k)));
                        lemma_first_failure_at(all, k);
                    }
                }
            },
        }
        running = match &st {
            CycleState::AwaitingPayload { .. } => true,
            _ => false,
        };
    }

    match &st {
        CycleState::Completed => CycleReport { upserts, probed, completed: true },
        _ => CycleReport { upserts, probed, completed: false },
    }
}

/// A cycle whose reads all succeed upserts exactly the ids the store does
/// not know yet — the first unknown id through the last ledger entry — in
/// strictly increasing order, one upsert each.
pub proof fn lemma_successful_cycle_upserts(n: u64, l: Option<u64>, outs: Seq<FetchOutcome>)
    requires
        !spec_no_new_entries(n, l),
        outs.len() == n - spec_first_candidate(l),
        first_failure(outs) == outs.len(),
    ensures
        spec_cycle_upserts(Some(n), Some(l), outs).len() == n - spec_first_candidate(l),
        forall|j: int|
            0 <= j < outs.len() ==> #[trigger] spec_cycle_upserts(Some(n), Some(l), outs)[j].dr_id
                == spec_first_candidate(l) + j,
        spec_cycle_completed(Some(n), Some(l), outs),
        !spec_cycle_probed(Some(n), Some(l), outs),
{
    let first = spec_first_candidate(l);
    lemma_upserts_characterized(first, outs);
    lemma_first_failure_prefix_fetched(outs);
    let ups = spec_cycle_upserts(Some(n), Some(l), outs);
    assert forall|j: int| 0 <= j < outs.len() implies #[trigger] ups[j].dr_id == first + j by {
        assert(ups[j] == upsert_for(first, j, outs));
        assert(outs[j] is Fetched);
    }
}

/// A cycle that finds nothing new — the store already knows the last
/// ledger entry — issues no upsert, reads no entry, and probes nothing.
pub proof fn lemma_noop_cycle(n: u64, l: Option<u64>, outs: Seq<FetchOutcome>)
    requires
        spec_no_new_entries(n, l),
    ensures
        spec_cycle_upserts(Some(n), Some(l), outs) == Seq::<SetDrInfoBridge>::empty(),
        !spec_cycle_probed(Some(n), Some(l), outs),
        spec_cycle_completed(Some(n), Some(l), outs),
{
}

/// When the reads for the candidate at index `k` fail — its id being
/// `first + k` — the cycle upserts exactly the `k` candidates before it
/// and nothing at or beyond the failed id.
pub proof fn lemma_aborted_cycle_upserts(n: u64, l: Option<u64>, outs: Seq<FetchOutcome>, k: int)
    requires
        !spec_no_new_entries(n, l),
        outs.len() == n - spec_first_candidate(l),
        0 <= k < outs.len(),
        forall|j: int| 0 <= j < k ==> outs[j] is Fetched,
        !(outs[k] is Fetched),
    ensures
        spec_cycle_upserts(Some(n), Some(l), outs).len() == k,
        forall|j: int|
            0 <= j < k ==> #[trigger] spec_cycle_upserts(Some(n), Some(l), outs)[j].dr_id
                < spec_first_candidate(l) + k,
        spec_cycle_probed(Some(n), Some(l), outs),
        !spec_cycle_completed(Some(n), Some(l), outs),
{
    let first = spec_first_candidate(l);
    lemma_first_failure_at(outs, k);
    lemma_upserts_characterized(first, outs);
}

/// Resumability: the store's last known id advances exactly to the entry
/// before the first failed read, so the next cycle re-attempts from the
/// very id whose reads failed — or from the ledger's end after a fully
/// successful cycle.
pub proof fn lemma_cycle_resumable(n: u64, l: Option<u64>, outs: Seq<FetchOutcome>)
    requires
        !spec_no_new_entries(n, l),
        outs.len() == n - spec_first_candidate(l),
    ensures
        spec_first_candidate(
            spec_last_after(l, spec_cycle_upserts(Some(n), Some(l), outs)),
        ) == spec_first_candidate(l) + first_failure(outs),
{
    let first = spec_first_candidate(l);
    let ups = spec_cycle_upserts(Some(n), Some(l), outs);
    lemma_first_failure_bounds(outs);
    lemma_upserts_characterized(first, outs);
    let ff = first_failure(outs);
    lemma_first_failure_prefix_fetched(outs);
    if ff == 0 {
    } else {
        assert(ups.last() == upsert_for(first, ff - 1, outs));
        assert(outs[ff - 1] is Fetched);
        assert(ups.last().dr_id == first + ff - 1);
    }
}

/// The store's notion of progress never moves backward: whatever a cycle
/// upserts lies above the last id the store already knew, so the last
/// known id after the cycle is at least the one before it.
pub proof fn lemma_last_known_id_monotone(n: u64, l: Option<u64>, outs: Seq<FetchOutcome>)
    requires
        !spec_no_new_entries(n, l) ==> outs.len() == n - spec_first_candidate(l),
    ensures
        spec_first_candidate(spec_last_after(l, spec_cycle_upserts(Some(n), Some(l), outs)))
            >= spec_first_candidate(l),
{
    if !spec_no_new_entries(n, l) {
        lemma_cycle_resumable(n, l, outs);
        lemma_first_failure_bounds(outs);
    }
}

/// Idempotence: after a completed cycle, re-running against an unchanged
/// ledger and the store state the cycle left behind issues no further
/// upsert, whatever outcomes the (never issued) reads would have had.
pub proof fn lemma_cycle_idempotent(
    n: u64,
    l: Option<u64>,
    outs: Seq<FetchOutcome>,
    outs2: Seq<FetchOutcome>,
)
    requires
        spec_cycle_completed(Some(n), Some(l), outs),
        !spec_no_new_entries(n, l) ==> outs.len() == n - spec_first_candidate(l),
    ensures
        spec_cycle_upserts(
            Some(n),
            Some(spec_last_after(l, spec_cycle_upserts(Some(n), Some(l), outs))),
            outs2,
        ) == Seq::<SetDrInfoBridge>::empty(),
        !spec_cycle_probed(
            Some(n),
            Some(spec_last_after(l, spec_cycle_upserts(Some(n), Some(l), outs))),
            outs2,
        ),
{
    if !spec_no_new_entries(n, l) {
        lemma_cycle_resumable(n, l, outs);
        lemma_first_failure_bounds(outs);
        assert(first_failure(outs) == outs.len());
    }
}

} // verus!
