//! What holds of the ledger as a whole.
use crate::deposits::RoundView;
use crate::model::{AcceptanceView, StateView};
use crate::records::{LenderView, LoanOffer, LoanStatus, LoanView, PendingTransaction};
use candid::Principal;
use vstd::prelude::*;

verus! {

/// Law: the empty ledger is consistent.
pub proof fn law_empty_is_consistent()
    ensures
        StateView::empty().consistent(),
{
}

/// Law: registering keeps the ledger consistent.
pub proof fn law_register_keeps_consistency(
    state: StateView,
    caller: Principal,
    btc_address: Seq<char>,
)
    requires
        state.consistent(),
    ensures
        state.register(caller, btc_address).consistent(),
{
    lemma_fewer_offers_keep_consistency(state, caller, LenderView::fresh(btc_address));
}

/// Law: setting a balance keeps the ledger consistent.
pub proof fn law_set_balance_keeps_consistency(state: StateView, caller: Principal, amount: int)
    requires
        state.consistent(),
        state.lenders.contains_key(caller),
    ensures
        state.set_balance(caller, amount).consistent(),
{
    let lender = LenderView { balance: amount, ..state.lenders[caller] };
    assert(forall|i: int|
        0 <= i < lender.pending_txs.len() ==> lender.pending_txs[i]
            == #[trigger] state.lenders[caller].pending_txs[i]);
    lemma_fewer_offers_keep_consistency(state, caller, lender);
}

/// Law: an accepted offer keeps the ledger consistent, under the next id.
pub proof fn law_offer_keeps_consistency(state: StateView, caller: Principal, offer: LoanOffer)
    requires
        state.consistent(),
        state.offer_refusal(caller, offer.btc_amount, offer.runes_required, offer.max_ltv) is None,
        offer.offer_id == state.next_offer_id < u64::MAX,
    ensures
        state.with_offer(caller, offer).consistent(),
{
    let next = state.with_offer(caller, offer);
    let at = state.lenders[caller].loan_offers.len() as int;
    assert forall|p: Principal, i: int|
        #![trigger next.lenders[p].loan_offers[i]]
        next.lenders.contains_key(p) && 0 <= i < next.lenders[p].loan_offers.len() implies {
        ||| p == caller && i == at && next.lenders[p].loan_offers[i] == offer
        ||| {
            &&& state.lenders.contains_key(p)
            &&& i < state.lenders[p].loan_offers.len()
            &&& state.lenders[p].loan_offers[i] == next.lenders[p].loan_offers[i]
        }
    } by {
    }
    assert forall|id: u64| next.is_offered(id) implies id == offer.offer_id || state.is_offered(
        id,
    ) by {
        let (p, i) = lemma_offered_somewhere(next, id);
        if id != offer.offer_id {
            lemma_offered(state, p, i);
        }
    }
    assert forall|p: Principal, i: int|
        #![trigger next.lenders[p].pending_txs[i]]
        next.lenders.contains_key(p) && 0 <= i < next.lenders[p].pending_txs.len() implies
        next.lenders[p].pending_txs[i] == state.lenders[p].pending_txs[i] by {
    }
}

/// Law: settling an acceptance of an open offer keeps the ledger consistent.
pub proof fn law_settle_keeps_consistency(
    state: StateView,
    borrower: Principal,
    acceptance: AcceptanceView,
)
    requires
        state.consistent(),
        state.admits(acceptance),
    ensures
        state.settle(borrower, acceptance).consistent(),
{
    let id = acceptance.offer.offer_id;
    let lender = acceptance.lender;
    let next = state.settle(borrower, acceptance);
    let before = state.lenders[lender].loan_offers;
    let after = next.lenders[lender].loan_offers;
    assert forall|i: int, j: int|
        0 <= i < before.len() && 0 <= j < before.len() && #[trigger] before[i].offer_id
            == #[trigger] before[j].offer_id implies i == j by {
        assert(state.lenders[lender].loan_offers[i].offer_id
            == state.lenders[lender].loan_offers[j].offer_id);
    }
    lemma_filter_offers(before, id);
    assert forall|p: Principal, i: int|
        #![trigger next.lenders[p].loan_offers[i]]
        next.lenders.contains_key(p) && 0 <= i < next.lenders[p].loan_offers.len() implies {
        &&& state.lenders.contains_key(p)
        &&& state.lenders[p].loan_offers.contains(next.lenders[p].loan_offers[i])
    } by {
        if p == lender {
            assert(after[i] == next.lenders[p].loan_offers[i]);
        }
    }
    let k = choose|k: int| 0 <= k < before.len() && #[trigger] before[k] == acceptance.offer;
    assert(state.lenders[lender].loan_offers[k] == acceptance.offer);
    assert forall|other: u64| next.is_offered(other) implies other != id && state.is_offered(
        other,
    ) by {
        let (p, i) = lemma_offered_somewhere(next, other);
        let j = choose|j: int|
            0 <= j < state.lenders[p].loan_offers.len() && state.lenders[p].loan_offers[j]
                == next.lenders[p].loan_offers[i];
        lemma_offered(state, p, j);
        if p == lender {
            assert(after[i].offer_id == other);
        } else {
            assert(state.lenders[p].loan_offers[j].offer_id
                != state.lenders[lender].loan_offers[k].offer_id);
        }
    }
    assert forall|p: Principal, i: int|
        #![trigger next.lenders[p].loan_offers[i]]
        next.lenders.contains_key(p) && 0 <= i < next.lenders[p].loan_offers.len() implies {
        let offer = next.lenders[p].loan_offers[i];
        &&& offer.offer_id < next.next_offer_id
        &&& crate::model::terms_refusal(
            offer.btc_amount,
            offer.runes_required,
            offer.max_ltv,
        ) is None
    } by {
        let j = choose|j: int|
            0 <= j < state.lenders[p].loan_offers.len() && state.lenders[p].loan_offers[j]
                == next.lenders[p].loan_offers[i];
        assert(state.lenders[p].loan_offers[j] == next.lenders[p].loan_offers[i]);
    }
    assert forall|p: Principal, i: int, q: Principal, j: int|
        #![trigger next.lenders[p].loan_offers[i], next.lenders[q].loan_offers[j]]
        {
            &&& next.lenders.contains_key(p)
            &&& 0 <= i < next.lenders[p].loan_offers.len()
            &&& next.lenders.contains_key(q)
            &&& 0 <= j < next.lenders[q].loan_offers.len()
            &&& next.lenders[p].loan_offers[i].offer_id == next.lenders[q].loan_offers[j].offer_id
        } implies p == q && i == j by {
        let k = choose|k: int|
            0 <= k < state.lenders[p].loan_offers.len() && state.lenders[p].loan_offers[k]
                == next.lenders[p].loan_offers[i];
        let l = choose|l: int|
            0 <= l < state.lenders[q].loan_offers.len() && state.lenders[q].loan_offers[l]
                == next.lenders[q].loan_offers[j];
        assert(state.lenders[p].loan_offers[k].offer_id
            == state.lenders[q].loan_offers[l].offer_id);
        if p == lender {
            assert(after[i].offer_id == after[j].offer_id);
        }
    }
    assert forall|p: Principal, i: int|
        #![trigger next.lenders[p].pending_txs[i]]
        next.lenders.contains_key(p) && 0 <= i < next.lenders[p].pending_txs.len() implies
        next.lenders[p].pending_txs[i] == state.lenders[p].pending_txs[i] by {
    }
}

/// Law: noticing a deposit keeps the ledger consistent.
pub proof fn law_deposit_keeps_consistency(state: StateView, principal: Principal, amount: u64)
    requires
        state.consistent(),
    ensures
        state.record_deposit(principal, amount).consistent(),
{
    if state.lenders.contains_key(principal) {
        let before = state.lenders[principal];
        let tx = PendingTransaction { amount, confirmations: 0 };
        let lender = LenderView { pending_txs: before.pending_txs.push(tx), ..before };
        assert(forall|i: int|
            0 <= i < before.pending_txs.len() ==> lender.pending_txs[i]
                == #[trigger] state.lenders[principal].pending_txs[i]);
        lemma_fewer_offers_keep_consistency(state, principal, lender);
    }
}

/// Law: ending a round keeps the ledger consistent.
pub proof fn law_round_keeps_consistency(state: StateView, round: RoundView)
    requires
        state.consistent(),
    ensures
        state.finish_round(round).consistent(),
{
    if state.lenders.contains_key(round.lender) {
        crate::deposits::law_kept_are_within_confirmations(round.pending, round.rejected);
        let kept = round.kept();
        assert forall|i: int| 0 <= i < round.pending_after().len() implies (
        #[trigger] round.pending_after()[i]).confirmations
            <= crate::records::REQUIRED_CONFIRMATIONS by {
            if i < kept.len() {
                assert(round.pending_after()[i] == kept[i]);
            } else {
                assert(round.pending_after()[i] == round.new_deposits()[i - kept.len()]);
            }
        }
        lemma_fewer_offers_keep_consistency(
            state,
            round.lender,
            LenderView {
                pending_txs: round.pending_after(),
                balance: state.lenders[round.lender].balance + round.credit(),
                ..state.lenders[round.lender]
            },
        );
    }
}

/// Law: asking after a loan keeps the ledger consistent.
pub proof fn law_resolve_keeps_consistency(state: StateView, offer_id: u64, confirmed: bool)
    requires
        state.consistent(),
    ensures
        state.resolve_loan(offer_id, confirmed).consistent(),
{
    if state.is_waiting(offer_id) {
        let status = if confirmed {
            LoanStatus::Confirmed
        } else {
            LoanStatus::Rejected
        };
        let loan = state.active_loans[offer_id];
        let marked = state.with_loan(offer_id, LoanView { status, ..loan });
        assert forall|id: u64| marked.is_offered(id) implies state.is_offered(id) by {
            let (p, i) = lemma_offered_somewhere(marked, id);
            lemma_offered(state, p, i);
        }
        assert(marked.offers_valid()) by {
            assert forall|p: Principal, i: int|
                #![trigger marked.lenders[p].loan_offers[i]]
                marked.lenders[p].loan_offers[i] == state.lenders[p].loan_offers[i] by {
            }
        }
        assert(marked.offers_distinct()) by {
            assert forall|p: Principal, i: int|
                #![trigger marked.lenders[p].loan_offers[i]]
                marked.lenders[p].loan_offers[i] == state.lenders[p].loan_offers[i] by {
            }
        }
        assert(marked.deposits_valid()) by {
            assert forall|p: Principal, i: int|
                #![trigger marked.lenders[p].pending_txs[i]]
                marked.lenders[p].pending_txs[i] == state.lenders[p].pending_txs[i] by {
            }
        }
        assert(marked.consistent());
        if !confirmed {
            law_set_balance_keeps_consistency(
                marked,
                loan.lender,
                state.lenders[loan.lender].balance + loan.btc_amount,
            );
        }
    }
}

/// The offer at a place of a lender's list is offered.
proof fn lemma_offered(state: StateView, principal: Principal, i: int)
    requires
        state.lenders.contains_key(principal),
        0 <= i < state.lenders[principal].loan_offers.len(),
    ensures
        state.is_offered(state.lenders[principal].loan_offers[i].offer_id),
{
    let id = state.lenders[principal].loan_offers[i].offer_id;
    assert(state.lenders[principal].offers_id(id));
}

/// An offer that is open stands at some place of some lender's list.
proof fn lemma_offered_somewhere(state: StateView, offer_id: u64) -> (at: (Principal, int))
    requires
        state.is_offered(offer_id),
    ensures
        state.lenders.contains_key(at.0),
        0 <= at.1 < state.lenders[at.0].loan_offers.len(),
        state.lenders[at.0].loan_offers[at.1].offer_id == offer_id,
{
    let p = choose|p: Principal| #[trigger]
        state.lenders.contains_key(p) && state.lenders[p].offers_id(offer_id);
    let i = choose|i: int|
        0 <= i < state.lenders[p].loan_offers.len()
            && #[trigger] state.lenders[p].loan_offers[i].offer_id == offer_id;
    (p, i)
}

/// Taking an id out of a list leaves offers of the list, none with that id, and
/// brings no id in twice.
proof fn lemma_filter_offers(offers: Seq<LoanOffer>, id: u64)
    ensures
        ({
            let left = offers.filter(|o: LoanOffer| o.offer_id != id);
            &&& forall|i: int|
                0 <= i < left.len() ==> offers.contains(#[trigger] left[i]) && left[i].offer_id
                    != id
            &&& (forall|i: int, j: int|
                0 <= i < offers.len() && 0 <= j < offers.len() && #[trigger] offers[i].offer_id
                    == #[trigger] offers[j].offer_id ==> i == j) ==> (forall|i: int, j: int|
                0 <= i < left.len() && 0 <= j < left.len() && #[trigger] left[i].offer_id
                    == #[trigger] left[j].offer_id ==> i == j)
        }),
    decreases offers.len(),
{
    reveal(Seq::filter);
    let other = |o: LoanOffer| o.offer_id != id;
    let left = offers.filter(other);
    if offers.len() > 0 {
        let rest = offers.drop_last();
        let rest_left = rest.filter(other);
        lemma_filter_offers(rest, id);
        assert(forall|i: int| 0 <= i < rest.len() ==> #[trigger] rest[i] == offers[i]);
        assert forall|i: int| 0 <= i < left.len() implies offers.contains(#[trigger] left[i])
            && left[i].offer_id != id by {
            if i < rest_left.len() {
                assert(rest.contains(rest_left[i]));
                let k = choose|k: int| 0 <= k < rest.len() && rest[k] == rest_left[i];
                assert(offers[k] == left[i]);
            } else {
                assert(left[i] == offers.last());
            }
        }
        if forall|i: int, j: int|
            0 <= i < offers.len() && 0 <= j < offers.len() && #[trigger] offers[i].offer_id
                == #[trigger] offers[j].offer_id ==> i == j {
            assert forall|i: int, j: int|
                0 <= i < rest.len() && 0 <= j < rest.len() && #[trigger] rest[i].offer_id
                    == #[trigger] rest[j].offer_id implies i == j by {
                assert(offers[i].offer_id == offers[j].offer_id);
            }
            assert forall|i: int| 0 <= i < rest_left.len() implies (
            #[trigger] rest_left[i]).offer_id != offers.last().offer_id by {
                assert(rest.contains(rest_left[i]));
                let k = choose|k: int| 0 <= k < rest.len() && rest[k] == rest_left[i];
                assert(offers[k].offer_id == rest_left[i].offer_id);
            }
            assert forall|i: int, j: int|
                0 <= i < left.len() && 0 <= j < left.len() && #[trigger] left[i].offer_id
                    == #[trigger] left[j].offer_id implies i == j by {
                if i < rest_left.len() && j < rest_left.len() {
                    assert(rest_left[i].offer_id == rest_left[j].offer_id);
                } else if i < rest_left.len() {
                    assert(rest_left[i].offer_id != offers.last().offer_id);
                } else if j < rest_left.len() {
                    assert(rest_left[j].offer_id != offers.last().offer_id);
                }
            }
        }
    }
}

/// A lender's record may change while its offers become fewer and its deposits
/// stay within their confirmations.
proof fn lemma_fewer_offers_keep_consistency(
    state: StateView,
    principal: Principal,
    lender: LenderView,
)
    requires
        state.consistent(),
        forall|i: int|
            0 <= i < lender.pending_txs.len() ==> (#[trigger] lender.pending_txs[i]).confirmations
                <= crate::records::REQUIRED_CONFIRMATIONS,
        lender.loan_offers.len() == 0 || (state.lenders.contains_key(principal)
            && lender.loan_offers == state.lenders[principal].loan_offers),
    ensures
        state.with_lender(principal, lender).consistent(),
{
    let next = state.with_lender(principal, lender);
    assert forall|p: Principal, i: int|
        #![trigger next.lenders[p].loan_offers[i]]
        next.lenders.contains_key(p) && 0 <= i < next.lenders[p].loan_offers.len() implies {
        &&& state.lenders.contains_key(p)
        &&& i < state.lenders[p].loan_offers.len()
        &&& state.lenders[p].loan_offers[i] == next.lenders[p].loan_offers[i]
    } by {
    }
    assert(next.offers_valid());
    assert(next.offers_distinct());
    assert forall|id: u64| next.is_offered(id) implies state.is_offered(id) by {
        let (p, i) = lemma_offered_somewhere(next, id);
        assert(next.lenders[p].loan_offers[i].offer_id == id);
        lemma_offered(state, p, i);
    }
    assert(next.loans_valid());
    assert forall|p: Principal, i: int|
        #![trigger next.lenders[p].pending_txs[i]]
        next.lenders.contains_key(p) && 0 <= i < next.lenders[p].pending_txs.len() implies
        next.lenders[p].pending_txs[i].confirmations <= crate::records::REQUIRED_CONFIRMATIONS by {
        if p == principal {
            assert(next.lenders[p].pending_txs[i] == lender.pending_txs[i]);
        } else {
            assert(next.lenders[p].pending_txs[i] == state.lenders[p].pending_txs[i]);
        }
    }
}

/// Law: a search has one answer. Whatever order the lenders are walked in, the
/// same offer of the same lender is found.
pub proof fn law_search_has_one_answer(
    state: StateView,
    offer_id: u64,
    a: Option<(Principal, LoanOffer)>,
    b: Option<(Principal, LoanOffer)>,
)
    requires
        state.consistent(),
        state.finds(offer_id, a),
        state.finds(offer_id, b),
    ensures
        a == b,
{
    if let Some((p, x)) = a {
        let i = lemma_found_somewhere(state, p, x);
        lemma_offered(state, p, i);
        if let Some((q, y)) = b {
            let j = lemma_found_somewhere(state, q, y);
            assert(state.lenders[p].loan_offers[i].offer_id
                == state.lenders[q].loan_offers[j].offer_id);
        }
    } else if let Some((q, y)) = b {
        let j = lemma_found_somewhere(state, q, y);
        lemma_offered(state, q, j);
    }
}

/// A found offer stands at some place of its lender's list.
proof fn lemma_found_somewhere(state: StateView, principal: Principal, offer: LoanOffer) -> (at:
    int)
    requires
        state.lenders[principal].offers_first(offer),
    ensures
        0 <= at < state.lenders[principal].loan_offers.len(),
        state.lenders[principal].loan_offers[at] == offer,
{
    choose|i: int|
        0 <= i < state.lenders[principal].loan_offers.len()
            && #[trigger] state.lenders[principal].loan_offers[i] == offer
}

/// Law: the id of a new offer was never in use, and from then on a search for it
/// finds the new offer.
pub proof fn law_new_offer_is_found(state: StateView, caller: Principal, offer: LoanOffer)
    requires
        state.consistent(),
        state.offer_refusal(caller, offer.btc_amount, offer.runes_required, offer.max_ltv) is None,
        offer.offer_id == state.next_offer_id,
    ensures
        !state.is_offered(offer.offer_id),
        !state.active_loans.contains_key(offer.offer_id),
        state.with_offer(caller, offer).finds(offer.offer_id, Some((caller, offer))),
{
    if state.is_offered(offer.offer_id) {
        let (p, i) = lemma_offered_somewhere(state, offer.offer_id);
        assert(state.lenders[p].loan_offers[i].offer_id < state.next_offer_id);
    }
    let before = state.lenders[caller].loan_offers;
    let after = state.with_offer(caller, offer).lenders[caller];
    assert(after.loan_offers[before.len() as int] == offer);
    assert forall|j: int| 0 <= j < before.len() implies (
    #[trigger] after.loan_offers[j]).offer_id != offer.offer_id by {
        assert(state.lenders[caller].loan_offers[j].offer_id < state.next_offer_id);
    }
}

/// Law: an offer is accepted once. After it has been settled no search finds it,
/// so that whoever asks for it again is refused, and its loan is waiting.
pub proof fn law_offer_is_accepted_once(
    state: StateView,
    borrower: Principal,
    acceptance: AcceptanceView,
    found: Option<(Principal, LoanOffer)>,
    unsigned_tx: Seq<u8>,
    runes: int,
)
    requires
        state.consistent(),
        state.admits(acceptance),
        state.settle(borrower, acceptance).finds(acceptance.offer.offer_id, found),
    ensures
        !state.active_loans.contains_key(acceptance.offer.offer_id),
        found is None,
        crate::model::acceptance_refusal(found, unsigned_tx, runes) == Some(
            "Loan offer not found"@,
        ),
        state.settle(borrower, acceptance).is_waiting(acceptance.offer.offer_id),
{
    let id = acceptance.offer.offer_id;
    let next = state.settle(borrower, acceptance);
    let i = lemma_found_somewhere(state, acceptance.lender, acceptance.offer);
    lemma_offered(state, acceptance.lender, i);
    law_settle_keeps_consistency(state, borrower, acceptance);
    assert(next.active_loans.contains_key(id));
    if let Some((p, offer)) = found {
        let j = lemma_found_somewhere(next, p, offer);
        lemma_offered(next, p, j);
    }
}

/// Law: a settlement moves the amount of the offer from the balance of its lender
/// into the loan, and changes nothing else but that the offer is closed.
pub proof fn law_settlement_moves_the_amount(
    state: StateView,
    borrower: Principal,
    acceptance: AcceptanceView,
    other: Principal,
    other_id: u64,
)
    requires
        state.settlement_refusal(acceptance) is None,
        other != acceptance.lender,
        other_id != acceptance.offer.offer_id,
    ensures
        ({
            let next = state.settle(borrower, acceptance);
            let loan = next.active_loans[acceptance.offer.offer_id];
            let before = state.lenders[acceptance.lender];
            let after = next.lenders[acceptance.lender];
            &&& after.balance + loan.btc_amount == before.balance
            &&& after.balance >= 0
            &&& loan.lender == acceptance.lender
            &&& loan.borrower == borrower
            &&& loan.collateral_amount == acceptance.collateral
            &&& loan.signed_tx == acceptance.signed_tx
            &&& after.loan_offers == before.closing(acceptance.offer.offer_id).loan_offers
            &&& after.pending_txs == before.pending_txs
            &&& after.btc_address == before.btc_address
            &&& next.lenders.contains_key(other) == state.lenders.contains_key(other)
            &&& next.lenders[other] == state.lenders[other]
            &&& next.active_loans.contains_key(other_id) == state.active_loans.contains_key(
                other_id,
            )
            &&& next.active_loans[other_id] == state.active_loans[other_id]
            &&& next.next_offer_id == state.next_offer_id
        }),
{
}

/// Law: the rejection of a loan undoes its payment. Afterwards the lender is as
/// before the acceptance, but for the offer, which stays closed.
pub proof fn law_rejection_undoes_the_payment(
    state: StateView,
    borrower: Principal,
    acceptance: AcceptanceView,
)
    requires
        state.settlement_refusal(acceptance) is None,
    ensures
        ({
            let id = acceptance.offer.offer_id;
            let next = state.settle(borrower, acceptance).resolve_loan(id, false);
            &&& next.lenders == state.lenders.insert(
                acceptance.lender,
                state.lenders[acceptance.lender].closing(id),
            )
            &&& next.active_loans[id].status == LoanStatus::Rejected
        }),
{
    let id = acceptance.offer.offer_id;
    let settled = state.settle(borrower, acceptance);
    let next = settled.resolve_loan(id, false);
    assert(next.lenders[acceptance.lender] =~= state.lenders[acceptance.lender].closing(id));
    assert(next.lenders =~= state.lenders.insert(
        acceptance.lender,
        state.lenders[acceptance.lender].closing(id),
    ));
}

/// Law: in a consistent ledger the rejection of a waiting loan always finds the
/// lender to refund, and a confirmation leaves every lender as it was.
pub proof fn law_rejection_finds_the_lender(state: StateView, offer_id: u64)
    requires
        state.consistent(),
        state.is_waiting(offer_id),
    ensures
        ({
            let loan = state.active_loans[offer_id];
            &&& state.lenders.contains_key(loan.lender)
            &&& state.resolve_loan(offer_id, false).lenders[loan.lender].balance
                == state.lenders[loan.lender].balance + loan.btc_amount
            &&& state.resolve_loan(offer_id, true).lenders == state.lenders
        }),
{
}

/// Law: what became of a loan is final. Asking again changes nothing.
pub proof fn law_resolution_is_final(
    state: StateView,
    offer_id: u64,
    first: bool,
    second: bool,
)
    ensures
        ({
            let next = state.resolve_loan(offer_id, first);
            &&& next.loan_event(offer_id, second) is Unchanged
            &&& next.resolve_loan(offer_id, second) == next
        }),
{
}

/// Law: it does not matter in which order two loans are asked after.
pub proof fn law_loans_resolve_in_any_order(
    state: StateView,
    a: u64,
    a_confirmed: bool,
    b: u64,
    b_confirmed: bool,
)
    requires
        a != b,
    ensures
        state.resolve_loan(a, a_confirmed).resolve_loan(b, b_confirmed) == state.resolve_loan(
            b,
            b_confirmed,
        ).resolve_loan(a, a_confirmed),
{
    let ab = state.resolve_loan(a, a_confirmed).resolve_loan(b, b_confirmed);
    let ba = state.resolve_loan(b, b_confirmed).resolve_loan(a, a_confirmed);
    assert(ab.active_loans =~= ba.active_loans);
    assert forall|p: Principal| ab.lenders.contains_key(p) implies #[trigger] ab.lenders[p]
        =~= ba.lenders[p] by {
    }
    assert(ab.lenders =~= ba.lenders);
}

/// Law: it does not matter in which order the rounds of two lenders end.
pub proof fn law_rounds_finish_in_any_order(state: StateView, a: RoundView, b: RoundView)
    requires
        a.lender != b.lender,
    ensures
        state.finish_round(a).finish_round(b) == state.finish_round(b).finish_round(a),
{
    let ab = state.finish_round(a).finish_round(b);
    let ba = state.finish_round(b).finish_round(a);
    assert(ab.lenders =~= ba.lenders);
}

/// Law: a noticed deposit is tracked. The round during which it is noticed ends
/// as it would have without it, but for the deposit, which is pending behind all
/// others and has no confirmations.
pub proof fn law_noticed_deposit_stays_pending(state: StateView, round: RoundView, amount: u64)
    requires
        state.lenders.contains_key(round.lender),
    ensures
        ({
            let noticed = state.record_deposit(round.lender, amount);
            let before = noticed.lenders[round.lender];
            let after = noticed.finish_round(round.notice(amount)).lenders[round.lender];
            let without = state.finish_round(round).lenders[round.lender];
            let tx = PendingTransaction { amount, confirmations: 0 };
            &&& before.pending_txs == state.lenders[round.lender].pending_txs.push(tx)
            &&& after == (LenderView { pending_txs: without.pending_txs.push(tx), ..without })
            &&& round.noticed.len() == 0 ==> after.pending_txs == round.kept().push(tx)
        }),
{
    let tx = PendingTransaction { amount, confirmations: 0 };
    assert(round.notice(amount).new_deposits() =~= round.new_deposits().push(tx));
    assert(round.notice(amount).pending_after() =~= round.pending_after().push(tx));
    if round.noticed.len() == 0 {
        assert(round.pending_after() =~= round.kept());
    }
}

/// Law: it does not matter when during a round a deposit is noticed.
pub proof fn law_deposit_is_noticed_at_any_time(round: RoundView, amount: u64, rejected: bool)
    ensures
        round.notice(amount).decide(rejected) == round.decide(rejected).notice(amount),
        round.notice(amount).credit() == round.credit(),
        round.notice(amount).kept() == round.kept(),
{
}

/// Law: the requests of a lender leave the records of all others alone.
pub proof fn law_requests_touch_only_the_caller(
    state: StateView,
    caller: Principal,
    other: Principal,
    btc_address: Seq<char>,
    amount: int,
    offer: LoanOffer,
)
    requires
        caller != other,
    ensures
        ({
            let registered = state.register(caller, btc_address);
            let set = state.set_balance(caller, amount);
            let offered = state.with_offer(caller, offer);
            &&& registered.lenders.contains_key(other) == state.lenders.contains_key(other)
            &&& registered.lenders[other] == state.lenders[other]
            &&& set.lenders.contains_key(other) == state.lenders.contains_key(other)
            &&& set.lenders[other] == state.lenders[other]
            &&& offered.lenders.contains_key(other) == state.lenders.contains_key(other)
            &&& offered.lenders[other] == state.lenders[other]
            &&& registered.active_loans == state.active_loans
            &&& set.active_loans == state.active_loans
            &&& offered.active_loans == state.active_loans
        }),
{
}

/// Law: a lender reads back what was written: the address of the registration,
/// the balance that was set, and the offers with the newest last.
pub proof fn law_lender_reads_back(
    state: StateView,
    caller: Principal,
    btc_address: Seq<char>,
    amount: int,
    offer: LoanOffer,
)
    ensures
        ({
            let registered = state.register(caller, btc_address);
            let set = registered.set_balance(caller, amount);
            let offered = set.with_offer(caller, offer);
            &&& registered.lenders[caller] == LenderView::fresh(btc_address)
            &&& set.lenders[caller].balance == amount
            &&& set.lenders[caller].btc_address == btc_address
            &&& offered.lenders[caller].balance == amount
            &&& offered.lenders[caller].loan_offers == set.lenders[caller].loan_offers.push(offer)
        }),
{
}

/// Law: the list of all offers holds an offer exactly if some lender has it
/// open, whatever order the lenders are walked in.
pub proof fn law_all_offers_are_listed(state: StateView, order: Seq<Principal>, offer: LoanOffer)
    requires
        crate::model::is_listing(order, state.lenders.dom()),
    ensures
        state.offers_in(order).contains(offer) <==> exists|p: Principal| #[trigger]
            state.lenders.contains_key(p) && state.lenders[p].loan_offers.contains(offer),
{
    lemma_offers_in(state, order, offer);
    if state.offers_in(order).contains(offer) {
        let k = choose|k: int|
            0 <= k < order.len() && state.lenders[#[trigger] order[k]].loan_offers.contains(offer);
        assert(order.to_set().contains(order[k]));
    }
    if exists|p: Principal| #[trigger]
        state.lenders.contains_key(p) && state.lenders[p].loan_offers.contains(offer) {
        let p = choose|p: Principal| #[trigger]
            state.lenders.contains_key(p) && state.lenders[p].loan_offers.contains(offer);
        assert(order.to_set().contains(p));
        let k = order.index_of(p);
        assert(state.lenders[order[k]].loan_offers.contains(offer));
    }
}

proof fn lemma_offers_in(state: StateView, order: Seq<Principal>, offer: LoanOffer)
    ensures
        state.offers_in(order).contains(offer) <==> exists|k: int|
            0 <= k < order.len() && state.lenders[#[trigger] order[k]].loan_offers.contains(offer),
    decreases order.len(),
{
    if order.len() > 0 {
        let rest = order.drop_last();
        let n = order.len() - 1;
        let head = state.offers_in(rest);
        let tail = state.lenders[order[n]].loan_offers;
        lemma_offers_in(state, rest, offer);
        assert(state.offers_in(order) == head + tail);
        if head.contains(offer) {
            let i = choose|i: int| 0 <= i < head.len() && head[i] == offer;
            assert((head + tail)[i] == offer);
            let k = choose|k: int|
                0 <= k < rest.len() && state.lenders[#[trigger] rest[k]].loan_offers.contains(
                    offer,
                );
            assert(order[k] == rest[k]);
        }
        if tail.contains(offer) {
            let i = choose|i: int| 0 <= i < tail.len() && tail[i] == offer;
            assert((head + tail)[head.len() + i] == offer);
        }
        if (head + tail).contains(offer) {
            let i = choose|i: int| 0 <= i < (head + tail).len() && (head + tail)[i] == offer;
            if i < head.len() {
                assert(head[i] == offer);
            } else {
                assert(tail[i - head.len()] == offer);
            }
        }
        if exists|k: int|
            0 <= k < order.len() && state.lenders[#[trigger] order[k]].loan_offers.contains(
                offer,
            ) {
            let k = choose|k: int|
                0 <= k < order.len() && state.lenders[#[trigger] order[k]].loan_offers.contains(
                    offer,
                );
            if k < n {
                assert(rest[k] == order[k]);
            }
        }
    }
}

/// Law: the list of all offers names no id twice.
pub proof fn law_all_offers_are_listed_once(state: StateView, order: Seq<Principal>, i: int, j: int)
    requires
        state.consistent(),
        crate::model::is_listing(order, state.lenders.dom()),
        0 <= i < j < state.offers_in(order).len(),
    ensures
        state.offers_in(order)[i].offer_id != state.offers_in(order)[j].offer_id,
{
    assert forall|k: int| 0 <= k < order.len() implies state.lenders.contains_key(
        #[trigger] order[k],
    ) by {
        assert(order.to_set().contains(order[k]));
    }
    lemma_offers_in_distinct(state, order, i, j);
}

proof fn lemma_offers_in_distinct(state: StateView, order: Seq<Principal>, i: int, j: int)
    requires
        state.offers_distinct(),
        order.no_duplicates(),
        forall|k: int| 0 <= k < order.len() ==> state.lenders.contains_key(#[trigger] order[k]),
        0 <= i < j < state.offers_in(order).len(),
    ensures
        state.offers_in(order)[i].offer_id != state.offers_in(order)[j].offer_id,
    decreases order.len(),
{
    let rest = order.drop_last();
    let last = order.last();
    let head = state.offers_in(rest);
    let tail = state.lenders[last].loan_offers;
    assert(state.lenders.contains_key(order[order.len() - 1]));
    assert(state.offers_in(order) == head + tail);
    assert(forall|k: int| 0 <= k < rest.len() ==> #[trigger] rest[k] == order[k]);
    if j < head.len() {
        lemma_offers_in_distinct(state, rest, i, j);
    } else if i < head.len() {
        let offer = head[i];
        lemma_offers_in(state, rest, offer);
        let k = choose|k: int|
            0 <= k < rest.len() && state.lenders[#[trigger] rest[k]].loan_offers.contains(offer);
        let p = rest[k];
        let a = choose|a: int|
            0 <= a < state.lenders[p].loan_offers.len() && state.lenders[p].loan_offers[a] == offer;
        assert(state.lenders[p].loan_offers[a] == head[i]);
        assert(state.lenders[last].loan_offers[j - head.len()] == tail[j - head.len()]);
        assert(p != last);
    } else {
        assert(state.lenders[last].loan_offers[i - head.len()] == tail[i - head.len()]);
        assert(state.lenders[last].loan_offers[j - head.len()] == tail[j - head.len()]);
    }
}

/// A change of the ledger.
pub enum Step {
    Register { caller: Principal, btc_address: Seq<char> },
    SetBalance { caller: Principal, amount: int },
    Offer { caller: Principal, offer: LoanOffer },
    Settle { borrower: Principal, acceptance: AcceptanceView },
    Deposit { principal: Principal, amount: u64 },
    FinishRound { round: RoundView },
    Resolve { offer_id: u64, confirmed: bool },
}

impl Step {
    /// Whether the ledger makes this change when asked to.
    pub open spec fn granted(self, state: StateView) -> bool {
        match self {
            Step::SetBalance { caller, .. } => state.lenders.contains_key(caller),
            Step::Offer { caller, offer } => {
                &&& state.offer_refusal(
                    caller,
                    offer.btc_amount,
                    offer.runes_required,
                    offer.max_ltv,
                ) is None
                &&& offer.offer_id == state.next_offer_id < u64::MAX
            },
            Step::Settle { acceptance, .. } => state.admits(acceptance)
                && state.settlement_refusal(acceptance) is None,
            _ => true,
        }
    }

    /// The ledger after the change.
    pub open spec fn apply(self, state: StateView) -> StateView {
        match self {
            Step::Register { caller, btc_address } => state.register(caller, btc_address),
            Step::SetBalance { caller, amount } => state.set_balance(caller, amount),
            Step::Offer { caller, offer } => state.with_offer(caller, offer),
            Step::Settle { borrower, acceptance } => state.settle(borrower, acceptance),
            Step::Deposit { principal, amount } => state.record_deposit(principal, amount),
            Step::FinishRound { round } => state.finish_round(round),
            Step::Resolve { offer_id, confirmed } => state.resolve_loan(offer_id, confirmed),
        }
    }
}

/// The ledger after a history of changes, from the empty one.
pub open spec fn after(history: Seq<Step>) -> StateView
    decreases history.len(),
{
    if history.len() == 0 {
        StateView::empty()
    } else {
        history.last().apply(after(history.drop_last()))
    }
}

/// Whether each change of a history was granted in its turn.
pub open spec fn is_history(history: Seq<Step>) -> bool
    decreases history.len(),
{
    history.len() == 0 || {
        &&& is_history(history.drop_last())
        &&& history.last().granted(after(history.drop_last()))
    }
}

/// Law: every ledger that grew from the empty one is consistent.
pub proof fn law_every_ledger_is_consistent(history: Seq<Step>)
    requires
        is_history(history),
    ensures
        after(history).consistent(),
    decreases history.len(),
{
    if history.len() == 0 {
        law_empty_is_consistent();
    } else {
        let before = after(history.drop_last());
        law_every_ledger_is_consistent(history.drop_last());
        match history.last() {
            Step::Register { caller, btc_address } => {
                law_register_keeps_consistency(before, caller, btc_address);
            },
            Step::SetBalance { caller, amount } => {
                law_set_balance_keeps_consistency(before, caller, amount);
            },
            Step::Offer { caller, offer } => {
                law_offer_keeps_consistency(before, caller, offer);
            },
            Step::Settle { borrower, acceptance } => {
                law_settle_keeps_consistency(before, borrower, acceptance);
            },
            Step::Deposit { principal, amount } => {
                law_deposit_keeps_consistency(before, principal, amount);
            },
            Step::FinishRound { round } => {
                law_round_keeps_consistency(before, round);
            },
            Step::Resolve { offer_id, confirmed } => {
                law_resolve_keeps_consistency(before, offer_id, confirmed);
            },
        }
    }
}

/// Law: nobody is forgotten. No change takes a lender or a loan away or lowers
/// the next id, none rewrites whom a loan is between and what it is about, and
/// the status of a loan changes only while the loan is waiting.
pub proof fn law_nothing_is_forgotten(
    state: StateView,
    step: Step,
    principal: Principal,
    offer_id: u64,
)
    requires
        state.consistent(),
        step.granted(state),
    ensures
        ({
            let next = step.apply(state);
            let loan = state.active_loans[offer_id];
            let later = next.active_loans[offer_id];
            &&& state.lenders.contains_key(principal) ==> next.lenders.contains_key(principal)
            &&& next.next_offer_id >= state.next_offer_id
            &&& state.active_loans.contains_key(offer_id) ==> {
                &&& next.active_loans.contains_key(offer_id)
                &&& later == (LoanView { status: later.status, ..loan })
                &&& state.is_waiting(offer_id) || later.status == loan.status
            }
        }),
{
    if let Step::Settle { borrower, acceptance } = step {
        let i = lemma_found_somewhere(state, acceptance.lender, acceptance.offer);
        lemma_offered(state, acceptance.lender, i);
    }
}

/// Two ledgers that differ in one loan at most differ in what is outstanding by
/// what that loan ties up.
proof fn lemma_outstanding(a: StateView, b: StateView, principal: Principal, id: u64, n: nat)
    requires
        n <= u64::MAX,
        forall|other: u64|
            other != id ==> #[trigger] a.tied_up(principal, other) == b.tied_up(principal, other),
    ensures
        b.outstanding(principal, n) == a.outstanding(principal, n) + if id < n {
            b.tied_up(principal, id) - a.tied_up(principal, id)
        } else {
            0
        },
    decreases n,
{
    if n > 0 {
        lemma_outstanding(a, b, principal, id, (n - 1) as nat);
        let last = (n - 1) as u64;
        if last != id {
            assert(a.tied_up(principal, last) == b.tied_up(principal, last));
        }
    }
}

/// Law: money is neither made nor lost when an offer is taken up. Every lender
/// has the same funds before and after.
pub proof fn law_settlement_conserves_funds(
    state: StateView,
    borrower: Principal,
    acceptance: AcceptanceView,
    principal: Principal,
)
    requires
        state.consistent(),
        state.admits(acceptance),
    ensures
        state.settle(borrower, acceptance).funds(principal) == state.funds(principal),
{
    let id = acceptance.offer.offer_id;
    let next = state.settle(borrower, acceptance);
    let i = lemma_found_somewhere(state, acceptance.lender, acceptance.offer);
    lemma_offered(state, acceptance.lender, i);
    assert(state.lenders[acceptance.lender].loan_offers[i].offer_id < state.next_offer_id);
    lemma_outstanding(state, next, principal, id, state.next_offer_id as nat);
}

/// Law: money is neither made nor lost when a loan is rejected; when it is
/// confirmed its lender has parted with its amount, and nobody else with any.
pub proof fn law_resolution_conserves_funds(
    state: StateView,
    offer_id: u64,
    confirmed: bool,
    principal: Principal,
)
    requires
        state.consistent(),
    ensures
        state.resolve_loan(offer_id, confirmed).funds(principal) == state.funds(principal)
            - if confirmed {
            state.tied_up(principal, offer_id)
        } else {
            0
        },
{
    if state.is_waiting(offer_id) {
        let next = state.resolve_loan(offer_id, confirmed);
        assert(state.active_loans.contains_key(offer_id));
        lemma_outstanding(state, next, principal, offer_id, state.next_offer_id as nat);
    }
}

/// Law: making an offer leaves the funds of every lender as they are.
pub proof fn law_offer_conserves_funds(
    state: StateView,
    caller: Principal,
    offer: LoanOffer,
    principal: Principal,
)
    requires
        state.consistent(),
        offer.offer_id == state.next_offer_id < u64::MAX,
    ensures
        state.with_offer(caller, offer).funds(principal) == state.funds(principal),
{
    let next = state.with_offer(caller, offer);
    let n = state.next_offer_id as nat;
    lemma_outstanding(state, next, principal, offer.offer_id, n);
    assert(!state.active_loans.contains_key(offer.offer_id));
    assert(next.tied_up(principal, n as u64) == 0);
}

} // verus!
