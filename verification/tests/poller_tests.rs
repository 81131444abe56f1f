use eth_poller::poller::{Config, EthPoller};
use eth_poller::records::{classify, DrState};

#[test]
fn from_config_copies_the_polling_rate_and_account() {
    let config = Config {
        eth_new_dr_polling_rate_ms: 15_000,
        eth_account: [7; 20],
        wrb_contract_addr: [9; 20],
    };
    let poller = EthPoller::from_config(&config).unwrap();
    assert_eq!(poller.eth_new_dr_polling_rate_ms, 15_000);
    assert_eq!(poller.eth_account, [7; 20]);
}

#[test]
fn next_cycle_start_is_completion_plus_period() {
    let poller = EthPoller { eth_new_dr_polling_rate_ms: 15_000, eth_account: [0; 20] };
    // However late the cycle completed, the next one starts a full period
    // after that completion, never earlier.
    assert_eq!(poller.next_cycle_start(1_000_000), Some(1_015_000));
    assert_eq!(poller.next_cycle_start(0), Some(15_000));
}

#[test]
fn next_cycle_start_reports_clock_overflow() {
    let poller = EthPoller { eth_new_dr_polling_rate_ms: 10, eth_account: [0; 20] };
    assert_eq!(poller.next_cycle_start(u64::MAX - 9), None);
    assert_eq!(poller.next_cycle_start(u64::MAX - 10), Some(u64::MAX));
}

#[test]
fn classify_zero_marker_gives_a_new_record() {
    let rec = classify(vec![1, 2], 0, 123);
    assert_eq!(rec.dr_bytes, vec![1, 2]);
    assert_eq!(rec.dr_state, DrState::New);
    assert_eq!(rec.dr_tx_hash, None);
    assert_eq!(rec.dr_tx_creation_timestamp, None);
}

#[test]
fn classify_non_zero_marker_gives_a_finished_record() {
    let rec = classify(vec![4], 0xDEAD, 456);
    assert_eq!(rec.dr_bytes, vec![4]);
    assert_eq!(rec.dr_state, DrState::Finished);
    assert_eq!(rec.dr_tx_hash, Some(0xDEAD));
    assert_eq!(rec.dr_tx_creation_timestamp, Some(456));
}
