use candid::Principal;
use loans_backend::chance::{
    check_for_new_transactions, check_transaction_status, is_transaction_rejected,
};
use loans_backend::deposits::{DepositRound, RoundStep};
use loans_backend::records::PendingTransaction;
use loans_backend::state::State;

fn tx(amount: u64, confirmations: u8) -> PendingTransaction {
    PendingTransaction { amount, confirmations }
}

/// Runs a round to its end, taking verdicts in turn.
fn run(round: DepositRound, verdicts: &[bool]) -> DepositRound {
    let mut verdicts = verdicts.iter();
    let mut step = round.advance();
    loop {
        match step {
            RoundStep::Undecided(round) => {
                step = round.resolve(*verdicts.next().unwrap()).advance();
            }
            RoundStep::Settled(round) => {
                assert!(verdicts.next().is_none());
                return round;
            }
        }
    }
}

#[test]
fn round_credits_drops_and_keeps() {
    let lender = Principal::from_slice(&[1]);
    let pending = vec![tx(10, 6), tx(20, 0), tx(40, 7), tx(80, 5), tx(160, 3), tx(320, 6)];
    let round = run(
        DepositRound::new(lender, "addr".to_string(), pending),
        &[false, true, false],
    );
    assert_eq!(round.lender(), lender);
    assert_eq!(round.btc_address(), "addr");
    // 630 in all: 370 credited, 80 dropped, 180 kept.
    assert_eq!(round.credit(), 370);
    assert_eq!(round.into_pending(), vec![tx(20, 1), tx(160, 4)]);
}

#[test]
fn round_over_nothing_is_settled_at_once() {
    let round = DepositRound::new(Principal::anonymous(), "addr".to_string(), vec![]);
    let round = run(round, &[]);
    assert_eq!(round.credit(), 0);
    assert!(round.into_pending().is_empty());
}

#[test]
fn round_adds_up_large_deposits() {
    let pending = vec![tx(u64::MAX, 6), tx(u64::MAX, 6)];
    let round = run(
        DepositRound::new(Principal::anonymous(), "addr".to_string(), pending),
        &[],
    );
    assert_eq!(round.credit(), 2 * (u64::MAX as u128));
}

#[test]
fn deposit_is_credited_in_the_seventh_round() {
    let lender = Principal::from_slice(&[1]);
    let mut state = State::default();
    state.register_lender(lender, "addr".to_string());
    state.record_deposit(lender, 55);
    for n in 1..7 {
        let round = state.process_lender_transactions(lender).unwrap();
        state.finish_round(run(round, &[false]));
        let info = state.get_lender_info(lender).unwrap();
        assert_eq!(info.balance, 0);
        assert_eq!(info.pending_txs, vec![tx(55, n)]);
    }
    let round = state.process_lender_transactions(lender).unwrap();
    state.finish_round(run(round, &[]));
    let info = state.get_lender_info(lender).unwrap();
    assert_eq!(info.balance, 55);
    assert!(info.pending_txs.is_empty());
}

#[test]
fn deposit_noticed_during_a_round_stays_pending() {
    let lender = Principal::from_slice(&[1]);
    let mut state = State::default();
    state.register_lender(lender, "addr".to_string());
    state.record_deposit(lender, 3);
    state.record_deposit(lender, 4);
    let round = state.process_lender_transactions(lender).unwrap();
    let round = state.notice_deposit(round, 9);
    assert_eq!(
        state.get_lender_info(lender).unwrap().pending_txs,
        vec![tx(3, 0), tx(4, 0), tx(9, 0)]
    );
    state.finish_round(run(round, &[true, false]));
    let info = state.get_lender_info(lender).unwrap();
    assert_eq!(info.pending_txs, vec![tx(4, 1), tx(9, 0)]);
    assert_eq!(info.balance, 0);
}

#[test]
fn deposit_is_followed_from_notice_to_credit() {
    let lender = Principal::from_slice(&[1]);
    let mut state = State::default();
    state.register_lender(lender, "addr".to_string());
    let round = state.process_lender_transactions(lender).unwrap();
    let round = state.notice_deposit(round, 42);
    state.finish_round(run(round, &[]));
    assert_eq!(state.get_lender_info(lender).unwrap().pending_txs, vec![tx(42, 0)]);
    for _ in 0..6 {
        let round = state.process_lender_transactions(lender).unwrap();
        state.finish_round(run(round, &[false]));
    }
    assert_eq!(state.get_lender_info(lender).unwrap().pending_txs, vec![tx(42, 6)]);
    assert_eq!(state.get_lender_info(lender).unwrap().balance, 0);
    let round = state.process_lender_transactions(lender).unwrap();
    state.finish_round(run(round, &[]));
    assert!(state.get_lender_info(lender).unwrap().pending_txs.is_empty());
    assert_eq!(state.get_lender_info(lender).unwrap().balance, 42);
}

#[test]
fn deposits_noticed_before_and_after_a_verdict_come_last() {
    let round = DepositRound::new(
        Principal::anonymous(),
        "addr".to_string(),
        vec![tx(1, 0), tx(2, 0)],
    );
    let round = run(round.notice(7), &[false, false]).notice(8);
    assert_eq!(round.credit(), 0);
    assert_eq!(
        round.into_pending(),
        vec![tx(1, 1), tx(2, 1), tx(7, 0), tx(8, 0)]
    );
}

#[test]
fn rounds_of_two_lenders_do_not_mix() {
    let (a, b) = (Principal::from_slice(&[1]), Principal::from_slice(&[2]));
    let mut state = State::default();
    state.register_lender(a, "a".to_string());
    state.register_lender(b, "b".to_string());
    state.record_deposit(a, 1);
    state.record_deposit(b, 2);
    let round_a = state.process_lender_transactions(a).unwrap();
    let round_b = state.process_lender_transactions(b).unwrap();
    state.finish_round(run(round_b, &[true]));
    state.finish_round(run(round_a, &[false]));
    assert_eq!(state.get_lender_info(a).unwrap().pending_txs, vec![tx(1, 1)]);
    assert!(state.get_lender_info(b).unwrap().pending_txs.is_empty());
}

#[test]
fn strangers_have_no_rounds() {
    let stranger = Principal::from_slice(&[1]);
    let mut state = State::default();
    assert!(state.process_lender_transactions(stranger).is_none());
    state.record_deposit(stranger, 5);
    let round = DepositRound::new(stranger, "addr".to_string(), vec![tx(5, 6)]);
    state.finish_round(run(round, &[]));
    assert!(state.get_lender_info(stranger).is_none());
    assert!(state.monitor_btc_transactions().is_empty());
}

#[test]
fn bytes_decide_what_the_network_does() {
    assert_eq!(check_for_new_transactions(0), Some(1));
    assert_eq!(check_for_new_transactions(1), None);
    assert_eq!(check_for_new_transactions(98), Some(99));
    assert_eq!(check_for_new_transactions(100), Some(1));
    assert_eq!(check_for_new_transactions(254), Some(55));
    assert_eq!(check_for_new_transactions(255), None);
    assert!(!check_transaction_status(0));
    assert!(check_transaction_status(1));
    assert!(check_transaction_status(5));
    assert!(!check_transaction_status(240));
    assert!(check_transaction_status(255));
    assert!(is_transaction_rejected(0));
    assert!(is_transaction_rejected(240));
    assert!(!is_transaction_rejected(10));

    let deposits = (0..=255u8).filter(|b| check_for_new_transactions(*b).is_some()).count();
    let confirmed = (0..=255u8).filter(|b| check_transaction_status(*b)).count();
    let rejected = (0..=255u8).filter(|b| is_transaction_rejected(*b)).count();
    assert_eq!((deposits, confirmed, rejected), (128, 243, 13));
}
