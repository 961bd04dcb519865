use candid::Principal;
use loans_backend::ltv::Ltv;
use loans_backend::model::LoanEvent;
use loans_backend::records::{ActiveLoan, LenderInfo, LoanOffer, LoanStatus};
use loans_backend::state::{check_acceptance, check_offer_terms, Acceptance, State};

fn ltv(value: f64) -> Ltv {
    Ltv { bits: value.to_bits() }
}

fn principal(byte: u8) -> Principal {
    Principal::from_slice(&[byte, 1, 2, 3])
}

/// A ledger with one lender of the given balance.
fn with_lender(lender: Principal, balance: u64) -> State {
    let mut state = State::default();
    state.register_lender(lender, "btc_address_test".to_string());
    state.update_lender_balance(lender, balance).unwrap();
    state
}

#[test]
fn test_deposit_tracking() {
    let mut state = State::default();

    let lender_principal = Principal::from_text("aaaaa-aa").unwrap();
    let btc_address = "btc_address_test".to_string();
    let lender_info = LenderInfo {
        btc_address: btc_address.clone(),
        balance: 0,
        pending_txs: Vec::new(),
        loan_offers: Vec::new(),
    };
    state.lenders.insert(lender_principal.clone(), lender_info);

    let amount_deposited = 1000;
    if let Some(lender_info) = state.lenders.get_mut(&lender_principal) {
        lender_info.balance += amount_deposited;
    }

    let lender_info = state.lenders.get(&lender_principal).expect("Lender info should exist");
    assert_eq!(
        lender_info.balance, amount_deposited,
        "Balance should be updated after deposit"
    );
}

#[test]
fn test_create_loan_offer() {
    let mut state = State::default();
    let btc_amount = 100_000;

    let lender_principal = Principal::from_text("aaaaa-aa").unwrap();
    let lender_info = LenderInfo {
        btc_address: "btc_address_test".to_string(),
        balance: 1_000_000,
        pending_txs: Vec::new(),
        loan_offers: Vec::new(),
    };
    state.lenders.insert(lender_principal.clone(), lender_info);

    let offer_id = state.next_offer_id;
    let created = state.create_loan_offer(lender_principal, btc_amount, 100, ltv(0.7));
    assert_eq!(created, Ok(offer_id));
    assert_eq!(state.next_offer_id, offer_id + 1);

    let lender_info = state.lenders.get(&lender_principal).expect("Lender info should exist");
    assert_eq!(lender_info.loan_offers.len(), 1, "There should be one loan offer");
    assert_eq!(lender_info.loan_offers[0].offer_id, offer_id, "Offer ID should match");
    assert_eq!(lender_info.loan_offers[0].btc_amount, btc_amount, "BTC amount should match");
    assert_eq!(lender_info.loan_offers[0].runes_required, 100);
    assert_eq!(f64::from_bits(lender_info.loan_offers[0].max_ltv.bits), 0.7);
}

#[test]
fn test_borrower_acceptance() {
    let mut state = State::default();
    let btc_amount = 500_000;

    let lender_principal = Principal::from_text("aaaaa-aa").unwrap();
    let lender_info = LenderInfo {
        btc_address: "btc_address_test".to_string(),
        balance: 1_000_000,
        pending_txs: Vec::new(),
        loan_offers: Vec::new(),
    };
    state.lenders.insert(lender_principal.clone(), lender_info);

    let offer_id = state.next_offer_id;
    state.next_offer_id += 1;
    let loan_offer = LoanOffer {
        offer_id,
        btc_amount,
        runes_required: 100,
        max_ltv: ltv(0.7),
    };
    if let Some(lender_info) = state.lenders.get_mut(&lender_principal) {
        lender_info.loan_offers.push(loan_offer.clone());
    }

    let borrower_principal = Principal::from_text("2vxsx-fae").unwrap();
    let runes = 100;

    let (found_lender_principal, found_loan_offer) =
        state.find_loan_offer(offer_id).expect("Loan offer not found");
    assert!(runes >= found_loan_offer.runes_required, "Insufficient collateral");
    assert!(
        state.lenders.get(&found_lender_principal).unwrap().balance >= found_loan_offer.btc_amount,
        "Not enough Lender balance to fulfill the loan"
    );

    let settled = state.settle_acceptance(
        borrower_principal,
        Acceptance {
            lender: found_lender_principal,
            offer: found_loan_offer,
            collateral: runes,
            signed_tx: vec![],
        },
    );
    assert_eq!(settled, Ok(()));

    let lender_info = state
        .lenders
        .get(&found_lender_principal)
        .expect("Lender info should exist");
    assert_eq!(
        lender_info.balance, btc_amount,
        "Lender's balance should be deducted by the loan amount"
    );
    assert!(lender_info.loan_offers.is_empty(), "Loan offer should be removed");
    assert!(
        state.active_loans.contains_key(&offer_id),
        "Active loan should be recorded"
    );
}

#[test]
fn lenders_are_told_apart() {
    // Same bytes but for the length, and same length but for one byte.
    let a = Principal::from_slice(&[7]);
    let b = Principal::from_slice(&[7, 0]);
    let c = Principal::from_slice(&[8]);
    let mut state = State::default();
    state.register_lender(a, "a".to_string());
    state.register_lender(b, "b".to_string());
    assert_eq!(state.update_lender_balance(a, 1), Ok(()));
    assert_eq!(state.update_lender_balance(b, 2), Ok(()));
    assert_eq!(
        state.update_lender_balance(c, 3),
        Err("Lender not registered".to_string())
    );
    assert_eq!(state.get_lender_info(a).unwrap().balance, 1);
    assert_eq!(state.get_lender_info(a).unwrap().btc_address, "a");
    assert_eq!(state.get_lender_info(b).unwrap().balance, 2);
    assert_eq!(state.get_lender_info(b).unwrap().btc_address, "b");
    assert!(state.get_lender_info(c).is_none());
}

#[test]
fn registering_again_starts_anew() {
    let lender = principal(1);
    let mut state = with_lender(lender, 500);
    state.create_loan_offer(lender, 10, 20, ltv(1.0)).unwrap();
    state.record_deposit(lender, 5);
    let address = state.register_lender(lender, "another".to_string());
    assert_eq!(address, "another");
    let info = state.get_lender_info(lender).unwrap();
    assert_eq!(info.btc_address, "another");
    assert_eq!(info.balance, 0);
    assert!(info.pending_txs.is_empty());
    assert!(info.loan_offers.is_empty());
    // The next id is not given out a second time.
    assert_eq!(state.create_loan_offer(lender, 10, 20, ltv(1.0)), Ok(1));
}

#[test]
fn offers_with_bad_terms_are_refused() {
    let lender = principal(1);
    let mut state = with_lender(lender, 0);
    let stranger = principal(2);
    let zero_amount = Err("BTC amount must be greater than zero".to_string());
    let zero_runes = Err("Runes required must be greater than zero".to_string());
    let bad_ltv = Err("Max LTV must be between 0 and 1".to_string());
    assert_eq!(state.create_loan_offer(lender, 0, 0, ltv(2.0)), zero_amount);
    assert_eq!(state.create_loan_offer(lender, 1, 0, ltv(2.0)), zero_runes);
    assert_eq!(state.create_loan_offer(lender, 1, 1, ltv(2.0)), bad_ltv);
    assert_eq!(state.create_loan_offer(lender, 1, 1, ltv(f64::NAN)), bad_ltv);
    assert_eq!(state.create_loan_offer(stranger, 1, 1, ltv(2.0)), bad_ltv);
    assert_eq!(
        state.create_loan_offer(stranger, 1, 1, ltv(0.5)),
        Err("Lender not registered".to_string())
    );
    assert_eq!(state.next_offer_id, 0);
    assert_eq!(state.get_loan_offers(lender), Ok(vec![]));
    assert_eq!(
        state.get_loan_offers(stranger),
        Err("Lender not registered".to_string())
    );
    assert_eq!(check_offer_terms(1, 1, ltv(0.5)), Ok(()));
}

#[test]
fn offers_are_listed_in_order() {
    let (a, b) = (principal(1), principal(2));
    let mut state = with_lender(a, 0);
    state.register_lender(b, "b".to_string());
    assert_eq!(state.create_loan_offer(a, 10, 1, ltv(0.5)), Ok(0));
    assert_eq!(state.create_loan_offer(b, 20, 2, ltv(0.5)), Ok(1));
    assert_eq!(state.create_loan_offer(a, 30, 3, ltv(0.5)), Ok(2));
    let of_a: Vec<u64> = state.get_loan_offers(a).unwrap().iter().map(|o| o.offer_id).collect();
    assert_eq!(of_a, vec![0, 2]);
    let mut all: Vec<u64> = state.get_all_loan_offers().iter().map(|o| o.offer_id).collect();
    all.sort();
    assert_eq!(all, vec![0, 1, 2]);
    let principals = state.monitor_btc_transactions();
    assert_eq!(principals.len(), 2);
    assert!(principals.contains(&a) && principals.contains(&b));
}

#[test]
fn acceptance_is_checked_signed_sent_and_settled() {
    let (lender, borrower) = (principal(1), principal(2));
    let mut state = with_lender(lender, 1_000);
    state.create_loan_offer(lender, 300, 50, ltv(0.5)).unwrap();
    let offer_id = state.create_loan_offer(lender, 400, 50, ltv(0.5)).unwrap();
    let mut sent: Vec<Vec<u8>> = Vec::new();
    let result = state.accept_loan_offer(borrower, offer_id, vec![1, 2], 60, |tx: &Vec<u8>| {
        sent.push(tx.clone());
        Ok(())
    });
    assert_eq!(result, Ok(()));
    assert_eq!(sent, vec![b"\x01\x02signed".to_vec()]);
    let info = state.get_lender_info(lender).unwrap();
    assert_eq!(info.balance, 600);
    assert_eq!(info.loan_offers.len(), 1);
    assert_eq!(info.loan_offers[0].offer_id, 0);
    let loans = state.get_active_loans();
    assert_eq!(loans.len(), 1);
    assert_eq!(loans[0].lender, lender);
    assert_eq!(loans[0].borrower, borrower);
    assert_eq!(loans[0].btc_amount, 400);
    assert_eq!(loans[0].collateral_amount, 60);
    assert_eq!(loans[0].status, LoanStatus::PendingConfirmation);
    assert_eq!(loans[0].signed_tx, b"\x01\x02signed".to_vec());
    assert_eq!(state.monitor_active_loans(), vec![offer_id]);

    // An offer is accepted once.
    assert_eq!(
        state.accept_loan_offer(borrower, offer_id, vec![1], 60, |_: &Vec<u8>| Ok(())),
        Err("Loan offer not found".to_string())
    );
}

#[test]
fn refused_acceptances_change_nothing() {
    let (lender, borrower) = (principal(1), principal(2));
    let mut state = with_lender(lender, 1_000);
    let offer_id = state.create_loan_offer(lender, 1_001, 50, ltv(0.5)).unwrap();
    let mut calls = 0;
    for (id, tx, runes, message) in [
        (offer_id + 1, vec![], 0, "Loan offer not found"),
        (offer_id, vec![], 0, "Unsigned transaction is empty"),
        (offer_id, vec![9], 49, "Borrower's collateral verification has failed"),
    ] {
        let result = state.accept_loan_offer(borrower, id, tx, runes, |_: &Vec<u8>| {
            calls += 1;
            Ok(())
        });
        assert_eq!(result, Err(message.to_string()));
    }
    assert_eq!(calls, 0);
    assert_eq!(
        state.accept_loan_offer(borrower, offer_id, vec![9], 50, |_: &Vec<u8>| Err(
            "network down".to_string()
        )),
        Err("network down".to_string())
    );
    // The balance is looked at only after the transaction was sent.
    let result = state.accept_loan_offer(borrower, offer_id, vec![9], 50, |_: &Vec<u8>| {
        calls += 1;
        Ok(())
    });
    assert_eq!(
        result,
        Err("Not enough Lender balance to fulfill the loan".to_string())
    );
    assert_eq!(calls, 1);
    let info = state.get_lender_info(lender).unwrap();
    assert_eq!(info.balance, 1_000);
    assert_eq!(info.loan_offers.len(), 1);
    assert!(state.get_active_loans().is_empty());
}

#[test]
fn acceptance_of_an_unknown_lender_is_refused() {
    let lender = principal(1);
    let offer = LoanOffer { offer_id: 4, btc_amount: 1, runes_required: 1, max_ltv: ltv(1.0) };
    let acceptance = check_acceptance(Some((lender, offer)), &vec![5], 1).unwrap();
    assert_eq!(acceptance.lender, lender);
    assert_eq!(acceptance.offer, offer);
    assert_eq!(acceptance.collateral, 1);
    assert_eq!(acceptance.signed_tx, b"\x05signed".to_vec());
    let mut state = State::default();
    assert_eq!(
        state.settle_acceptance(principal(2), acceptance),
        Err("Lender not found".to_string())
    );
    assert!(state.get_active_loans().is_empty());
    assert_eq!(
        check_acceptance(None, &vec![5], 1).unwrap_err(),
        "Loan offer not found"
    );
}

#[test]
fn whole_balance_can_be_lent() {
    let lender = principal(1);
    let mut state = with_lender(lender, 77);
    let id = state.create_loan_offer(lender, 77, 1, ltv(1.0)).unwrap();
    let result = state.accept_loan_offer(principal(2), id, vec![0], 1, |_: &Vec<u8>| Ok(()));
    assert_eq!(result, Ok(()));
    assert_eq!(state.get_lender_info(lender).unwrap().balance, 0);
}

#[test]
fn rejected_loans_are_refunded_and_final() {
    let lender = principal(1);
    let mut state = with_lender(lender, 1_000);
    let id = state.create_loan_offer(lender, 400, 1, ltv(1.0)).unwrap();
    state.accept_loan_offer(principal(2), id, vec![0], 1, |_: &Vec<u8>| Ok(())).unwrap();
    assert_eq!(state.process_active_loan(id + 1, false), LoanEvent::Unchanged);
    assert_eq!(state.process_active_loan(id, false), LoanEvent::Rejected);
    assert_eq!(state.active_loans[&id].status, LoanStatus::Rejected);
    let info = state.get_lender_info(lender).unwrap();
    assert_eq!(info.balance, 1_000);
    assert!(info.loan_offers.is_empty());
    assert_eq!(state.process_active_loan(id, true), LoanEvent::Unchanged);
    assert_eq!(state.process_active_loan(id, false), LoanEvent::Unchanged);
    assert_eq!(state.active_loans[&id].status, LoanStatus::Rejected);
    assert_eq!(state.get_lender_info(lender).unwrap().balance, 1_000);
}

#[test]
fn confirmed_loans_stay_paid() {
    let lender = principal(1);
    let mut state = with_lender(lender, 1_000);
    let id = state.create_loan_offer(lender, 400, 1, ltv(1.0)).unwrap();
    state.accept_loan_offer(principal(2), id, vec![0], 1, |_: &Vec<u8>| Ok(())).unwrap();
    assert_eq!(state.process_active_loan(id, true), LoanEvent::Confirmed);
    assert_eq!(state.active_loans[&id].status, LoanStatus::Confirmed);
    assert_eq!(state.process_active_loan(id, false), LoanEvent::Unchanged);
    assert_eq!(state.get_lender_info(lender).unwrap().balance, 600);
}

#[test]
fn loans_resolve_in_any_order() {
    let mut balances = Vec::new();
    for order in [[0, 1], [1, 0]] {
        let lender = principal(1);
        let mut state = with_lender(lender, 1_000);
        for amount in [100, 200] {
            let id = state.create_loan_offer(lender, amount, 1, ltv(1.0)).unwrap();
            state.accept_loan_offer(principal(2), id, vec![0], 1, |_: &Vec<u8>| Ok(())).unwrap();
        }
        for id in order {
            state.process_active_loan(id, false);
        }
        balances.push(state.get_lender_info(lender).unwrap().balance);
    }
    assert_eq!(balances, vec![1_000, 1_000]);
}

#[test]
fn a_loan_whose_lender_is_gone_is_rejected_without_refund() {
    let mut state = State::default();
    state.active_loans.insert(
        3,
        ActiveLoan {
            lender: principal(1),
            borrower: principal(2),
            btc_amount: 10,
            collateral_amount: 1,
            status: LoanStatus::PendingConfirmation,
            signed_tx: vec![],
        },
    );
    assert_eq!(state.process_active_loan(3, false), LoanEvent::Rejected);
    assert_eq!(state.active_loans[&3].status, LoanStatus::Rejected);
}

#[test]
fn dropped_loans_are_left_alone() {
    let mut state = State::default();
    state.active_loans.insert(
        3,
        ActiveLoan {
            lender: principal(1),
            borrower: principal(2),
            btc_amount: 10,
            collateral_amount: 1,
            status: LoanStatus::Dropped,
            signed_tx: vec![],
        },
    );
    assert_eq!(state.process_active_loan(3, true), LoanEvent::Unchanged);
    assert_eq!(state.active_loans[&3].status, LoanStatus::Dropped);
}
