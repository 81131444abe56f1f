use eth_poller::cycle::{
    run_cycle, start_cycle, step, CycleCommand, CycleEvent, CycleState, FetchOutcome,
};
use eth_poller::records::{DrState, SetDrInfoBridge};

fn fetched(payload: Vec<u8>, marker: u64, now: i64) -> FetchOutcome {
    FetchOutcome::Fetched { payload, marker, now }
}

fn upsert_ids(upserts: &[SetDrInfoBridge]) -> Vec<u64> {
    upserts.iter().map(|u| u.dr_id).collect()
}

#[test]
fn successful_cycle_upserts_exactly_the_missing_ids() {
    // N = 6, store knows up to id 2: candidates are 3, 4, 5, in order.
    let outcomes = vec![
        fetched(vec![1], 0, 10),
        fetched(vec![2], 7, 11),
        fetched(vec![3], 0, 12),
    ];
    let report = run_cycle(Some(6), Some(Some(2)), outcomes);
    assert!(report.completed);
    assert!(!report.probed);
    assert_eq!(upsert_ids(&report.upserts), vec![3, 4, 5]);
}

#[test]
fn first_cycle_starts_at_id_zero() {
    // The store knows nothing yet: candidates are 0 and 1.
    let outcomes = vec![fetched(vec![9], 0, 1), fetched(vec![8], 0, 2)];
    let report = run_cycle(Some(2), Some(None), outcomes);
    assert!(report.completed);
    assert_eq!(upsert_ids(&report.upserts), vec![0, 1]);
}

#[test]
fn up_to_date_cycle_issues_nothing() {
    // L == N - 1: nothing new, no reads, no probe.
    let report = run_cycle(Some(4), Some(Some(3)), vec![]);
    assert!(report.completed);
    assert!(!report.probed);
    assert!(report.upserts.is_empty());
}

#[test]
fn store_ahead_of_ledger_is_a_noop() {
    let report = run_cycle(Some(2), Some(Some(5)), vec![]);
    assert!(report.completed);
    assert!(report.upserts.is_empty());
}

#[test]
fn empty_ledger_is_a_noop() {
    let report = run_cycle(Some(0), Some(None), vec![]);
    assert!(report.completed);
    assert!(!report.probed);
    assert!(report.upserts.is_empty());
}

#[test]
fn count_failure_aborts_without_upserts_and_probes() {
    let report = run_cycle(None, Some(Some(0)), vec![]);
    assert!(!report.completed);
    assert!(report.probed);
    assert!(report.upserts.is_empty());
}

#[test]
fn store_failure_aborts_without_probe() {
    let report = run_cycle(Some(5), None, vec![]);
    assert!(!report.completed);
    assert!(!report.probed);
    assert!(report.upserts.is_empty());
}

#[test]
fn marker_failure_stops_the_cycle_at_that_id() {
    // N = 5, L = 0: candidates 1..4; the marker read for id 2 fails.
    let outcomes = vec![
        fetched(vec![1], 0, 1),
        FetchOutcome::MarkerFailed { payload: vec![2] },
        fetched(vec![3], 0, 3),
        fetched(vec![4], 0, 4),
    ];
    let report = run_cycle(Some(5), Some(Some(0)), outcomes);
    assert!(!report.completed);
    assert!(report.probed);
    // Only id 1 was upserted: nothing for id 2 nor for any id after it.
    assert_eq!(upsert_ids(&report.upserts), vec![1]);
}

#[test]
fn rerunning_an_unchanged_cycle_issues_nothing() {
    // First cycle succeeds and brings the store up to id 3.
    let outcomes = vec![fetched(vec![1], 0, 1), fetched(vec![2], 5, 2)];
    let report = run_cycle(Some(4), Some(Some(1)), outcomes);
    assert!(report.completed);
    assert_eq!(upsert_ids(&report.upserts), vec![2, 3]);
    let new_last = report.upserts.last().unwrap().dr_id;
    assert_eq!(new_last, 3);

    // Ledger and store unchanged: the next cycle upserts nothing.
    let again = run_cycle(Some(4), Some(Some(new_last)), vec![]);
    assert!(again.completed);
    assert!(!again.probed);
    assert!(again.upserts.is_empty());
}

#[test]
fn aborted_cycle_resumes_at_the_failed_id() {
    // N = 6, L = 1: candidates 2..5; the payload read for id 4 fails.
    let outcomes = vec![
        fetched(vec![1], 0, 1),
        fetched(vec![2], 0, 2),
        FetchOutcome::PayloadFailed,
        fetched(vec![5], 0, 5),
    ];
    let report = run_cycle(Some(6), Some(Some(1)), outcomes);
    assert!(!report.completed);
    assert_eq!(upsert_ids(&report.upserts), vec![2, 3]);

    // The store advanced only to id 3, so the next cycle re-attempts id 4.
    let new_last = report.upserts.last().unwrap().dr_id;
    assert_eq!(new_last, 3);
    let retry = vec![fetched(vec![4], 0, 6), fetched(vec![5], 0, 7)];
    let second = run_cycle(Some(6), Some(Some(new_last)), retry);
    assert!(second.completed);
    assert_eq!(upsert_ids(&second.upserts), vec![4, 5]);
}

#[test]
fn two_new_requests_with_zero_markers_stay_new() {
    // N = 5, L = 2; ids 3 and 4 both return the zero marker.
    let outcomes = vec![fetched(vec![0xAA], 0, 100), fetched(vec![0xBB], 0, 101)];
    let report = run_cycle(Some(5), Some(Some(2)), outcomes);
    assert!(report.completed);
    assert_eq!(report.upserts.len(), 2);

    let first = &report.upserts[0];
    assert_eq!(first.dr_id, 3);
    assert_eq!(first.dr_info.dr_state, DrState::New);
    assert_eq!(first.dr_info.dr_tx_hash, None);
    assert_eq!(first.dr_info.dr_tx_creation_timestamp, None);

    let second = &report.upserts[1];
    assert_eq!(second.dr_id, 4);
    assert_eq!(second.dr_info.dr_state, DrState::New);
    assert_eq!(second.dr_info.dr_tx_hash, None);
    assert_eq!(second.dr_info.dr_tx_creation_timestamp, None);
}

#[test]
fn non_zero_marker_is_recorded_finished_with_hash_and_time() {
    // N = 3, L = 1; id 2 returns the marker 0xABC at time 777.
    let outcomes = vec![fetched(vec![1, 2, 3], 0xABC, 777)];
    let report = run_cycle(Some(3), Some(Some(1)), outcomes);
    assert!(report.completed);
    assert_eq!(report.upserts.len(), 1);

    let up = &report.upserts[0];
    assert_eq!(up.dr_id, 2);
    assert_eq!(up.dr_info.dr_bytes, vec![1, 2, 3]);
    assert_eq!(up.dr_info.dr_state, DrState::Finished);
    assert_eq!(up.dr_info.dr_tx_hash, Some(0xABC));
    assert_eq!(up.dr_info.dr_tx_creation_timestamp, Some(777));
}

#[test]
fn payload_failure_probes_once_and_stops_the_cycle() {
    // N = 4, L = 1; the payload read for id 2 fails.
    let outcomes = vec![FetchOutcome::PayloadFailed, fetched(vec![3], 0, 3)];
    let report = run_cycle(Some(4), Some(Some(1)), outcomes);
    assert!(!report.completed);
    assert!(report.probed);
    assert!(report.upserts.is_empty());
}

#[test]
fn step_machine_walks_one_entry_in_order() {
    let start = start_cycle();
    assert_eq!(start.command, Some(CycleCommand::QueryCount));

    let r = step(start.state, CycleEvent::CountOk { count: 2 });
    assert_eq!(r.command, Some(CycleCommand::QueryLastId));

    let r = step(r.state, CycleEvent::LastIdOk { last_id: Some(0) });
    assert_eq!(r.command, Some(CycleCommand::QueryPayload { id: 1 }));

    let r = step(r.state, CycleEvent::PayloadOk { payload: vec![7] });
    assert_eq!(r.command, Some(CycleCommand::QueryMarker { id: 1 }));

    let r = step(r.state, CycleEvent::MarkerOk { marker: 0, now: 5 });
    assert_eq!(r.command, None);
    assert_eq!(r.state, CycleState::Completed);
    let up = r.upsert.expect("the fetched entry is upserted");
    assert_eq!(up.dr_id, 1);
    assert_eq!(up.dr_info.dr_state, DrState::New);
}

#[test]
fn step_machine_probes_on_ledger_failure_but_not_on_store_failure() {
    let start = start_cycle();
    let r = step(start.state, CycleEvent::CountFailed);
    assert_eq!(r.state, CycleState::Aborted);
    assert_eq!(r.command, Some(CycleCommand::Probe));

    let start = start_cycle();
    let r = step(start.state, CycleEvent::CountOk { count: 3 });
    let r = step(r.state, CycleEvent::LastIdFailed);
    assert_eq!(r.state, CycleState::Aborted);
    assert_eq!(r.command, None);
}
