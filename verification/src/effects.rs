//! What each request does, field by field: which values change, to what, and
//! what stays.
use crate::deposits::RoundView;
use crate::ltv::Ltv;
use crate::model::{AcceptanceView, LoanEvent, StateView};
use crate::records::{ActiveLoan, LenderInfo, LoanOffer, LoanStatus, PendingTransaction};
use crate::state::{Acceptance, State};
use candid::Principal;
use vstd::prelude::*;

verus! {

/// Law: setting a balance replaces it. Whatever the lender had before, the
/// balance is the given amount, and everything else is as it was.
pub proof fn law_set_balance_replaces_the_balance(
    state: StateView,
    caller: Principal,
    amount: int,
)
    requires
        state.lenders.contains_key(caller),
    ensures
        ({
            let next = state.set_balance(caller, amount);
            let before = state.lenders[caller];
            let after = next.lenders[caller];
            &&& after.balance == amount
            &&& after.btc_address == before.btc_address
            &&& after.pending_txs == before.pending_txs
            &&& after.loan_offers == before.loan_offers
            &&& next.lenders.dom() == state.lenders.dom()
            &&& forall|p: Principal|
                p != caller ==> #[trigger] next.lenders[p] == state.lenders[p]
            &&& next.next_offer_id == state.next_offer_id
            &&& next.active_loans == state.active_loans
        }),
{
    assert(state.set_balance(caller, amount).lenders.dom() =~= state.lenders.dom());
}

/// Law: of two settings of a balance the second counts.
pub proof fn law_last_balance_counts(state: StateView, caller: Principal, first: int, second: int)
    requires
        state.lenders.contains_key(caller),
    ensures
        state.set_balance(caller, first).set_balance(caller, second) == state.set_balance(
            caller,
            second,
        ),
{
    assert(state.set_balance(caller, first).set_balance(caller, second).lenders
        =~= state.set_balance(caller, second).lenders);
}

/// Law: registering gives the caller the address and nothing else: no funds, no
/// deposits, no offers, whatever was there before. Everyone else is as before.
pub proof fn law_register_gives_a_fresh_record(
    state: StateView,
    caller: Principal,
    btc_address: Seq<char>,
)
    ensures
        ({
            let next = state.register(caller, btc_address);
            let after = next.lenders[caller];
            &&& next.lenders.dom() == state.lenders.dom().insert(caller)
            &&& after.btc_address == btc_address
            &&& after.balance == 0
            &&& after.pending_txs.len() == 0
            &&& after.loan_offers.len() == 0
            &&& forall|p: Principal|
                p != caller ==> #[trigger] next.lenders[p] == state.lenders[p]
            &&& next.next_offer_id == state.next_offer_id
            &&& next.active_loans == state.active_loans
        }),
{
    assert(state.register(caller, btc_address).lenders.dom() =~= state.lenders.dom().insert(
        caller,
    ));
}

/// Law: a new ledger holds no lender and no loan, and starts its ids at zero.
pub proof fn law_new_ledger_holds_nothing(principal: Principal, offer_id: u64)
    ensures
        !StateView::empty().lenders.contains_key(principal),
        !StateView::empty().active_loans.contains_key(offer_id),
        StateView::empty().next_offer_id == 0,
{
}

/// Law: the terms of an offer are accepted exactly if both amounts are above
/// zero and the ratio is a number above zero and at most one. Otherwise the
/// first fault, in this order, is named.
pub proof fn law_terms_are_accepted_exactly(btc_amount: u64, runes_required: u64, max_ltv: Ltv)
    ensures
        ({
            let refusal = crate::model::terms_refusal(btc_amount, runes_required, max_ltv);
            &&& refusal is None <==> btc_amount > 0 && runes_required > 0 && max_ltv.acceptable()
            &&& refusal is None <==> {
                &&& btc_amount > 0
                &&& runes_required > 0
                &&& !max_ltv.is_nan()
                &&& 0 < max_ltv.scaled_value() <= vstd::arithmetic::power2::pow2(1074)
            }
            &&& refusal is None <==> {
                &&& btc_amount > 0
                &&& runes_required > 0
                &&& 0 < max_ltv.bits <= 0x3ff0_0000_0000_0000
            }
            &&& btc_amount == 0 ==> refusal == Some("BTC amount must be greater than zero"@)
            &&& btc_amount > 0 && runes_required == 0 ==> refusal == Some(
                "Runes required must be greater than zero"@,
            )
            &&& btc_amount > 0 && runes_required > 0 && !max_ltv.acceptable() ==> refusal == Some(
                "Max LTV must be between 0 and 1"@,
            )
        }),
{
    max_ltv.law_acceptable_bits();
}

/// Law: an offer is refused for its terms, or else because the caller is not
/// registered, or else not at all.
pub proof fn law_offer_is_refused_exactly(
    state: StateView,
    caller: Principal,
    btc_amount: u64,
    runes_required: u64,
    max_ltv: Ltv,
)
    ensures
        ({
            let refusal = state.offer_refusal(caller, btc_amount, runes_required, max_ltv);
            let good_terms = btc_amount > 0 && runes_required > 0 && 0 < max_ltv.bits
                <= 0x3ff0_0000_0000_0000;
            &&& refusal is None <==> good_terms && state.lenders.contains_key(caller)
            &&& good_terms && !state.lenders.contains_key(caller) ==> refusal == Some(
                "Lender not registered"@,
            )
            &&& !good_terms ==> refusal == crate::model::terms_refusal(
                btc_amount,
                runes_required,
                max_ltv,
            )
        }),
{
    law_terms_are_accepted_exactly(btc_amount, runes_required, max_ltv);
}

/// Law: a new offer comes last among the caller's, as it was given, and uses up
/// one id. Nothing else changes.
pub proof fn law_offer_is_added_last(state: StateView, caller: Principal, offer: LoanOffer)
    requires
        state.lenders.contains_key(caller),
    ensures
        ({
            let next = state.with_offer(caller, offer);
            let before = state.lenders[caller];
            let after = next.lenders[caller];
            &&& after.loan_offers.len() == before.loan_offers.len() + 1
            &&& after.loan_offers.last() == offer
            &&& after.loan_offers.drop_last() == before.loan_offers
            &&& after.balance == before.balance
            &&& after.btc_address == before.btc_address
            &&& after.pending_txs == before.pending_txs
            &&& next.next_offer_id == state.next_offer_id + 1
            &&& next.lenders.dom() == state.lenders.dom()
            &&& forall|p: Principal|
                p != caller ==> #[trigger] next.lenders[p] == state.lenders[p]
            &&& next.active_loans == state.active_loans
        }),
{
    let next = state.with_offer(caller, offer);
    assert(next.lenders[caller].loan_offers.drop_last() =~= state.lenders[caller].loan_offers);
    assert(next.lenders.dom() =~= state.lenders.dom());
}

/// Law: every open offer of a consistent ledger is of some amount against some
/// runes, with a ratio above zero and at most one and an id that was given out.
pub proof fn law_open_offers_have_good_terms(state: StateView, principal: Principal, i: int)
    requires
        state.consistent(),
        state.lenders.contains_key(principal),
        0 <= i < state.lenders[principal].loan_offers.len(),
    ensures
        ({
            let offer = state.lenders[principal].loan_offers[i];
            &&& offer.btc_amount > 0
            &&& offer.runes_required > 0
            &&& 0 < offer.max_ltv.bits <= 0x3ff0_0000_0000_0000
            &&& offer.max_ltv.acceptable()
            &&& offer.offer_id < state.next_offer_id
        }),
{
    let offer = state.lenders[principal].loan_offers[i];
    law_terms_are_accepted_exactly(offer.btc_amount, offer.runes_required, offer.max_ltv);
}

/// Law: in a consistent ledger no two open offers share an id.
pub proof fn law_open_offers_have_their_own_ids(
    state: StateView,
    p: Principal,
    i: int,
    q: Principal,
    j: int,
)
    requires
        state.consistent(),
        state.lenders.contains_key(p),
        0 <= i < state.lenders[p].loan_offers.len(),
        state.lenders.contains_key(q),
        0 <= j < state.lenders[q].loan_offers.len(),
        p != q || i != j,
    ensures
        state.lenders[p].loan_offers[i].offer_id != state.lenders[q].loan_offers[j].offer_id,
{
}

/// Law: in a consistent ledger a loan has an id that was given out and belongs
/// to no open offer, its lender is registered, and it is of some amount against
/// some collateral.
pub proof fn law_loans_are_sound(state: StateView, offer_id: u64, p: Principal, i: int)
    requires
        state.consistent(),
        state.active_loans.contains_key(offer_id),
        state.lenders.contains_key(p),
        0 <= i < state.lenders[p].loan_offers.len(),
    ensures
        offer_id < state.next_offer_id,
        state.lenders[p].loan_offers[i].offer_id != offer_id,
        state.lenders.contains_key(state.active_loans[offer_id].lender),
        state.active_loans[offer_id].btc_amount > 0,
        state.active_loans[offer_id].collateral_amount > 0,
{
    if state.lenders[p].loan_offers[i].offer_id == offer_id {
        assert(state.lenders[p].offers_id(offer_id));
        assert(state.is_offered(offer_id));
    }
}

/// Law: in a consistent ledger no pending deposit has more than six confirmations.
pub proof fn law_deposits_are_sound(state: StateView, principal: Principal, i: int)
    requires
        state.consistent(),
        state.lenders.contains_key(principal),
        0 <= i < state.lenders[principal].pending_txs.len(),
    ensures
        state.lenders[principal].pending_txs[i].confirmations <= 6,
{
}

/// Law: a search comes back empty exactly if no lender has an offer with the id.
/// What it finds is an open offer of a registered lender, with that id, and none
/// before it in the lender's list has the id.
pub proof fn law_search_finds_an_open_offer(
    state: StateView,
    offer_id: u64,
    principal: Principal,
    offer: LoanOffer,
)
    ensures
        state.finds(offer_id, None) <==> forall|p: Principal, i: int|
            #![trigger state.lenders[p].loan_offers[i]]
            state.lenders.contains_key(p) && 0 <= i < state.lenders[p].loan_offers.len()
                ==> state.lenders[p].loan_offers[i].offer_id != offer_id,
        state.finds(offer_id, Some((principal, offer))) <==> {
            &&& state.lenders.contains_key(principal)
            &&& offer.offer_id == offer_id
            &&& exists|i: int|
                {
                    &&& 0 <= i < state.lenders[principal].loan_offers.len()
                    &&& #[trigger] state.lenders[principal].loan_offers[i] == offer
                    &&& forall|j: int|
                        0 <= j < i ==> (
                        #[trigger] state.lenders[principal].loan_offers[j]).offer_id != offer_id
                }
        },
{
    if state.finds(offer_id, None) {
        assert forall|p: Principal, i: int|
            #![trigger state.lenders[p].loan_offers[i]]
            state.lenders.contains_key(p) && 0 <= i < state.lenders[p].loan_offers.len() implies
            state.lenders[p].loan_offers[i].offer_id != offer_id by {
            if state.lenders[p].loan_offers[i].offer_id == offer_id {
                assert(state.lenders[p].offers_id(offer_id));
            }
        }
    }
    if forall|p: Principal, i: int|
        #![trigger state.lenders[p].loan_offers[i]]
        state.lenders.contains_key(p) && 0 <= i < state.lenders[p].loan_offers.len()
            ==> state.lenders[p].loan_offers[i].offer_id != offer_id {
        if state.is_offered(offer_id) {
            let p = choose|p: Principal| #[trigger]
                state.lenders.contains_key(p) && state.lenders[p].offers_id(offer_id);
            let i = choose|i: int|
                0 <= i < state.lenders[p].loan_offers.len()
                    && #[trigger] state.lenders[p].loan_offers[i].offer_id == offer_id;
            assert(state.lenders[p].loan_offers[i].offer_id != offer_id);
        }
    }
}

/// Law: a borrower passes the checks exactly if the offer was found, the
/// transaction is not empty, and the runes cover what the offer requires.
/// Otherwise the first fault, in this order, is named.
pub proof fn law_acceptance_is_checked_exactly(
    found: Option<(Principal, LoanOffer)>,
    unsigned_tx: Seq<u8>,
    runes: int,
)
    ensures
        ({
            let refusal = crate::model::acceptance_refusal(found, unsigned_tx, runes);
            &&& refusal is None <==> {
                &&& found matches Some((_, offer))
                &&& unsigned_tx.len() > 0
                &&& runes >= offer.runes_required
            }
            &&& found is None ==> refusal == Some("Loan offer not found"@)
            &&& found is Some && unsigned_tx.len() == 0 ==> refusal == Some(
                "Unsigned transaction is empty"@,
            )
            &&& found is Some && unsigned_tx.len() > 0 && runes < (found->0).1.runes_required
                ==> refusal == Some("Borrower's collateral verification has failed"@)
        }),
{
}

/// Law: an acceptance is settled exactly if its lender is registered and has at
/// least the amount of the offer.
pub proof fn law_settlement_is_refused_exactly(state: StateView, acceptance: AcceptanceView)
    ensures
        ({
            let refusal = state.settlement_refusal(acceptance);
            let known = state.lenders.contains_key(acceptance.lender);
            let balance = state.lenders[acceptance.lender].balance;
            &&& refusal is None <==> known && balance >= acceptance.offer.btc_amount
            &&& !known ==> refusal == Some("Lender not found"@)
            &&& known && balance < acceptance.offer.btc_amount ==> refusal == Some(
                "Not enough Lender balance to fulfill the loan"@,
            )
        }),
{
}

/// Law: a settlement pays out the offer. The lender's balance drops by the amount
/// of the offer, which is the amount of the loan; the offers with its id are no
/// longer open and the others are; the loan names who is part of it, what was
/// put up and what was signed, and waits. Nothing else changes.
pub proof fn law_settlement_pays_out_the_offer(
    state: StateView,
    borrower: Principal,
    acceptance: AcceptanceView,
)
    requires
        state.settlement_refusal(acceptance) is None,
    ensures
        ({
            let id = acceptance.offer.offer_id;
            let next = state.settle(borrower, acceptance);
            let before = state.lenders[acceptance.lender];
            let after = next.lenders[acceptance.lender];
            let loan = next.active_loans[id];
            &&& after.balance == before.balance - acceptance.offer.btc_amount
            &&& after.balance >= 0
            &&& after.loan_offers == before.loan_offers.filter(|o: LoanOffer| o.offer_id != id)
            &&& forall|o: LoanOffer| #[trigger]
                after.loan_offers.contains(o) <==> before.loan_offers.contains(o) && o.offer_id
                    != id
            &&& after.btc_address == before.btc_address
            &&& after.pending_txs == before.pending_txs
            &&& loan.lender == acceptance.lender
            &&& loan.borrower == borrower
            &&& loan.btc_amount == acceptance.offer.btc_amount
            &&& loan.collateral_amount == acceptance.collateral
            &&& loan.status == LoanStatus::PendingConfirmation
            &&& loan.signed_tx == acceptance.signed_tx
            &&& next.lenders.dom() == state.lenders.dom()
            &&& forall|p: Principal|
                p != acceptance.lender ==> #[trigger] next.lenders[p] == state.lenders[p]
            &&& next.active_loans.dom() == state.active_loans.dom().insert(id)
            &&& forall|other: u64|
                other != id ==> #[trigger] next.active_loans[other] == state.active_loans[other]
            &&& next.next_offer_id == state.next_offer_id
        }),
{
    let id = acceptance.offer.offer_id;
    let next = state.settle(borrower, acceptance);
    let before = state.lenders[acceptance.lender].loan_offers;
    let after = next.lenders[acceptance.lender].loan_offers;
    let other_id = |o: LoanOffer| o.offer_id != id;
    assert(next.lenders.dom() =~= state.lenders.dom());
    assert(next.active_loans.dom() =~= state.active_loans.dom().insert(id));
    assert(after == before.filter(other_id));
    assert forall|o: LoanOffer| #[trigger]
        after.contains(o) <==> before.contains(o) && o.offer_id != id by {
        if after.contains(o) {
            before.lemma_filter_contains_rev(other_id, o);
            let i = choose|i: int| 0 <= i < after.len() && after[i] == o;
            before.lemma_filter_pred(other_id, i);
        }
        if before.contains(o) && o.offer_id != id {
            let i = choose|i: int| 0 <= i < before.len() && before[i] == o;
            assert(other_id(before[i]));
            before.lemma_filter_contains(other_id, i);
        }
    }
}

/// Law: an acceptance can be settled without harm exactly if it is of an offer
/// that a search finds, against no fewer runes than the offer requires.
pub proof fn law_admitted_exactly(state: StateView, acceptance: AcceptanceView)
    ensures
        state.admits(acceptance) <==> {
            &&& state.finds(
                acceptance.offer.offer_id,
                Some((acceptance.lender, acceptance.offer)),
            )
            &&& acceptance.collateral >= acceptance.offer.runes_required
        },
{
}

/// Law: the answer on a waiting loan decides its status: confirmed if the
/// transaction was confirmed, rejected if not. A loan that is not waiting keeps
/// its status.
pub proof fn law_answer_decides_the_status(state: StateView, offer_id: u64, confirmed: bool)
    requires
        state.active_loans.contains_key(offer_id),
    ensures
        ({
            let before = state.active_loans[offer_id];
            let after = state.resolve_loan(offer_id, confirmed).active_loans[offer_id];
            let waiting = before.status == LoanStatus::PendingConfirmation;
            &&& waiting && confirmed ==> after.status == LoanStatus::Confirmed
            &&& waiting && !confirmed ==> after.status == LoanStatus::Rejected
            &&& !waiting ==> after.status == before.status
            &&& after.status == LoanStatus::Rejected ==> !confirmed || before.status
                == LoanStatus::Rejected
            &&& after.lender == before.lender
            &&& after.borrower == before.borrower
            &&& after.btc_amount == before.btc_amount
            &&& after.collateral_amount == before.collateral_amount
            &&& after.signed_tx == before.signed_tx
        }),
{
}

/// Law: the answer on a loan is reported as it was taken.
pub proof fn law_answer_is_reported(state: StateView, offer_id: u64, confirmed: bool)
    ensures
        ({
            let event = state.loan_event(offer_id, confirmed);
            let waiting = state.active_loans.contains_key(offer_id)
                && state.active_loans[offer_id].status == LoanStatus::PendingConfirmation;
            &&& event == LoanEvent::Confirmed <==> waiting && confirmed
            &&& event == LoanEvent::Rejected <==> waiting && !confirmed
            &&& event == LoanEvent::Unchanged <==> !waiting
        }),
{
}

/// Law: a balance changes only by the refund of a waiting loan that is rejected:
/// its lender gets its amount back. No other field of a lender changes, and no
/// other loan.
pub proof fn law_only_a_rejection_refunds(
    state: StateView,
    offer_id: u64,
    confirmed: bool,
    principal: Principal,
)
    ensures
        ({
            let next = state.resolve_loan(offer_id, confirmed);
            let loan = state.active_loans[offer_id];
            let refunded = {
                &&& state.active_loans.contains_key(offer_id)
                &&& loan.status == LoanStatus::PendingConfirmation
                &&& !confirmed
                &&& loan.lender == principal
            };
            let before = state.lenders[principal];
            let after = next.lenders[principal];
            &&& next.lenders.dom() == state.lenders.dom()
            &&& state.lenders.contains_key(principal) && refunded ==> after.balance
                == before.balance + loan.btc_amount
            &&& !refunded ==> after == before
            &&& state.lenders.contains_key(principal) ==> {
                &&& after.btc_address == before.btc_address
                &&& after.pending_txs == before.pending_txs
                &&& after.loan_offers == before.loan_offers
            }
            &&& next.active_loans.dom() == state.active_loans.dom()
            &&& forall|other: u64|
                other != offer_id ==> #[trigger] next.active_loans[other]
                    == state.active_loans[other]
            &&& next.next_offer_id == state.next_offer_id
        }),
{
    let next = state.resolve_loan(offer_id, confirmed);
    assert(next.lenders.dom() =~= state.lenders.dom());
    assert(next.active_loans.dom() =~= state.active_loans.dom());
}

/// Law: a noticed deposit becomes the last pending one of a registered lender,
/// without confirmations. Nothing else changes, and a stranger's changes nothing.
pub proof fn law_deposit_becomes_pending(state: StateView, principal: Principal, amount: u64)
    ensures
        ({
            let next = state.record_deposit(principal, amount);
            let before = state.lenders[principal];
            let after = next.lenders[principal];
            &&& state.lenders.contains_key(principal) ==> {
                &&& after.pending_txs.len() == before.pending_txs.len() + 1
                &&& after.pending_txs.last().amount == amount
                &&& after.pending_txs.last().confirmations == 0
                &&& after.pending_txs.drop_last() == before.pending_txs
                &&& after.balance == before.balance
                &&& after.btc_address == before.btc_address
                &&& after.loan_offers == before.loan_offers
            }
            &&& !state.lenders.contains_key(principal) ==> next == state
            &&& next.lenders.dom() == state.lenders.dom()
            &&& forall|p: Principal|
                p != principal ==> #[trigger] next.lenders[p] == state.lenders[p]
            &&& next.next_offer_id == state.next_offer_id
            &&& next.active_loans == state.active_loans
        }),
{
    let next = state.record_deposit(principal, amount);
    assert(next.lenders.dom() =~= state.lenders.dom());
    if state.lenders.contains_key(principal) {
        assert(next.lenders[principal].pending_txs.drop_last()
            =~= state.lenders[principal].pending_txs);
    }
}

/// Law: the end of a round adds to the lender's balance what the deposits of the
/// round with at least six confirmations come to, and nothing if there are none.
/// Pending are then, in order, the deposits with fewer confirmations that were
/// not rejected, each with one confirmation more, and after them those noticed
/// during the round, without confirmations. Nothing else changes.
pub proof fn law_round_credits_what_is_confirmed(state: StateView, round: RoundView)
    requires
        round.rejected.len() == round.pending.len(),
    ensures
        ({
            let next = state.finish_round(round);
            let before = state.lenders[round.lender];
            let after = next.lenders[round.lender];
            let confirmed = round.pending.filter(
                |tx: PendingTransaction| tx.confirmations >= 6,
            );
            let survivors = Seq::new(round.pending.len(), |i: int| i).fold_left(
                Seq::<PendingTransaction>::empty(),
                |kept: Seq<PendingTransaction>, i: int|
                    if round.pending[i].confirmations < 6 && !round.rejected[i] {
                        kept.push(
                            PendingTransaction {
                                amount: round.pending[i].amount,
                                confirmations: (round.pending[i].confirmations + 1) as u8,
                            },
                        )
                    } else {
                        kept
                    },
            );
            &&& state.lenders.contains_key(round.lender) ==> {
                &&& after.balance == before.balance + confirmed.fold_left(
                    0int,
                    |sum: int, tx: PendingTransaction| sum + tx.amount,
                )
                &&& confirmed.len() == 0 ==> after.balance == before.balance
                &&& after.pending_txs.len() == survivors.len() + round.noticed.len()
                &&& after.pending_txs.take(survivors.len() as int) == survivors
                &&& forall|i: int|
                    0 <= i < round.noticed.len() ==> #[trigger] round.noticed[i]
                        == after.pending_txs[survivors.len() + i].amount
                        && after.pending_txs[survivors.len() + i].confirmations == 0
                &&& after.btc_address == before.btc_address
                &&& after.loan_offers == before.loan_offers
            }
            &&& !state.lenders.contains_key(round.lender) ==> next == state
            &&& next.lenders.dom() == state.lenders.dom()
            &&& forall|p: Principal|
                p != round.lender ==> #[trigger] next.lenders[p] == state.lenders[p]
            &&& next.next_offer_id == state.next_offer_id
            &&& next.active_loans == state.active_loans
        }),
{
    let next = state.finish_round(round);
    assert(next.lenders.dom() =~= state.lenders.dom());
    crate::deposits::law_credit_is_the_confirmed_sum(round.pending, round.pending.len());
    crate::deposits::law_kept_are_the_survivors(round.pending, round.rejected);
    assert(round.pending.take(round.pending.len() as int) =~= round.pending);
    if state.lenders.contains_key(round.lender) {
        let after = next.lenders[round.lender].pending_txs;
        assert(after.take(round.kept().len() as int) =~= round.kept());
        assert forall|i: int| 0 <= i < round.noticed.len() implies #[trigger] round.noticed[i]
            == after[round.kept().len() + i].amount && after[round.kept().len() + i].confirmations
            == 0 by {
            assert(after[round.kept().len() + i] == round.new_deposits()[i]);
        }
    }
}

/// Law: the list of all offers grows, lender by lender, by the offers of each in
/// their order.
pub proof fn law_all_offers_lender_by_lender(
    state: StateView,
    order: Seq<Principal>,
    principal: Principal,
)
    ensures
        state.offers_in(Seq::empty()).len() == 0,
        state.offers_in(order.push(principal)) == state.offers_in(order)
            + state.lenders[principal].loan_offers,
{
    assert(order.push(principal).drop_last() =~= order);
}

/// Law: a listing names each key at exactly one place, and nothing but keys.
pub proof fn law_listing_names_each_key_once<K>(order: Seq<K>, keys: Set<K>)
    ensures
        crate::model::is_listing(order, keys) <==> {
            &&& forall|i: int, j: int|
                0 <= i < j < order.len() ==> #[trigger] order[i] != #[trigger] order[j]
            &&& forall|i: int| 0 <= i < order.len() ==> keys.contains(#[trigger] order[i])
            &&& forall|k: K| #[trigger]
                keys.contains(k) ==> exists|i: int| 0 <= i < order.len() && order[i] == k
        },
{
    if crate::model::is_listing(order, keys) {
        assert forall|i: int| 0 <= i < order.len() implies keys.contains(#[trigger] order[i]) by {
            assert(order.to_set().contains(order[i]));
        }
        assert forall|k: K| #[trigger] keys.contains(k) implies exists|i: int|
            0 <= i < order.len() && order[i] == k by {
            assert(order.to_set().contains(k));
            assert(order.contains(k));
        }
    }
    if {
        &&& forall|i: int, j: int|
            0 <= i < j < order.len() ==> #[trigger] order[i] != #[trigger] order[j]
        &&& forall|i: int| 0 <= i < order.len() ==> keys.contains(#[trigger] order[i])
        &&& forall|k: K| #[trigger]
            keys.contains(k) ==> exists|i: int| 0 <= i < order.len() && order[i] == k
    } {
        assert forall|k: K| order.to_set().contains(k) <==> keys.contains(k) by {
            if keys.contains(k) {
                let i = choose|i: int| 0 <= i < order.len() && order[i] == k;
                assert(order.contains(order[i]));
            }
        }
        assert(order.to_set() =~= keys);
        assert forall|i: int, j: int|
            0 <= i < order.len() && 0 <= j < order.len() && i != j implies order[i] != order[j] by {
            if i < j {
                assert(order[i] != order[j]);
            } else {
                assert(order[j] != order[i]);
            }
        }
    }
}

/// Law: the mathematical records say what the stored ones hold.
pub proof fn law_views_are_faithful(
    info: LenderInfo,
    loan: ActiveLoan,
    acceptance: Acceptance,
    state: State,
    offer_id: u64,
)
    ensures
        info@.btc_address == info.btc_address@,
        info@.balance == info.balance,
        info@.pending_txs == info.pending_txs@,
        info@.loan_offers == info.loan_offers@,
        loan@.lender == loan.lender,
        loan@.borrower == loan.borrower,
        loan@.btc_amount == loan.btc_amount,
        loan@.collateral_amount == loan.collateral_amount,
        loan@.status == loan.status,
        loan@.signed_tx == loan.signed_tx@,
        acceptance@.lender == acceptance.lender,
        acceptance@.offer == acceptance.offer,
        acceptance@.collateral == acceptance.collateral,
        acceptance@.signed_tx == acceptance.signed_tx@,
        state@.lenders == state.lenders@,
        state@.next_offer_id == state.next_offer_id,
        state@.active_loans.contains_key(offer_id) == state.active_loans@.contains_key(offer_id),
        state.active_loans@.contains_key(offer_id) ==> state@.active_loans[offer_id]
            == state.active_loans@[offer_id]@,
{
}

} // verus!
