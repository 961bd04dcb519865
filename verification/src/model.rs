//! The ledger, mathematically: what it holds and how each request changes it.
use crate::deposits::RoundView;
use crate::ltv::Ltv;
use crate::records::{
    LenderView, LoanOffer, LoanStatus, LoanView, PendingTransaction, REQUIRED_CONFIRMATIONS,
};
use candid::Principal;
use vstd::prelude::*;

verus! {

/// Whether `order` names every key once and nothing else.
pub open spec fn is_listing<K>(order: Seq<K>, keys: Set<K>) -> bool {
    &&& order.no_duplicates()
    &&& order.to_set() == keys
}

/// Why the terms of an offer are refused, if they are.
pub open spec fn terms_refusal(btc_amount: u64, runes_required: u64, max_ltv: Ltv) -> Option<
    Seq<char>,
> {
    if btc_amount == 0 {
        Some("BTC amount must be greater than zero"@)
    } else if runes_required == 0 {
        Some("Runes required must be greater than zero"@)
    } else if !max_ltv.acceptable() {
        Some("Max LTV must be between 0 and 1"@)
    } else {
        None
    }
}

/// Why a borrower is refused before anything is signed, if so. `found` is the
/// offer asked for, with its lender, where there is one.
pub open spec fn acceptance_refusal(
    found: Option<(Principal, LoanOffer)>,
    unsigned_tx: Seq<u8>,
    runes: int,
) -> Option<Seq<char>> {
    match found {
        None => Some("Loan offer not found"@),
        Some((_, offer)) => if crate::transaction::tx_refusal(unsigned_tx) is Some {
            crate::transaction::tx_refusal(unsigned_tx)
        } else if runes < offer.runes_required {
            Some("Borrower's collateral verification has failed"@)
        } else {
            None
        },
    }
}

/// An acceptance that has been checked and signed, mathematically.
#[verifier::ext_equal]
pub struct AcceptanceView {
    pub lender: Principal,
    pub offer: LoanOffer,
    pub collateral: int,
    pub signed_tx: Seq<u8>,
}

/// What comes of asking after a loan's transaction.
#[derive(Clone, Copy, Debug, PartialEq, Eq, Structural)]
pub enum LoanEvent {
    /// The loan was waiting and is now confirmed.
    Confirmed,
    /// The loan was waiting and is now rejected.
    Rejected,
    /// There is no such loan, or it was not waiting.
    Unchanged,
}

/// The ledger, mathematically.
#[verifier::ext_equal]
pub struct StateView {
    pub lenders: Map<Principal, LenderView>,
    pub next_offer_id: int,
    pub active_loans: Map<u64, LoanView>,
}

impl StateView {
    /// A ledger without lenders and loans.
    pub open spec fn empty() -> StateView {
        StateView { lenders: Map::empty(), next_offer_id: 0, active_loans: Map::empty() }
    }

    /// The ledger with another record for one lender.
    pub open spec fn with_lender(self, principal: Principal, lender: LenderView) -> StateView {
        StateView { lenders: self.lenders.insert(principal, lender), ..self }
    }

    /// The ledger with another record for one loan.
    pub open spec fn with_loan(self, offer_id: u64, loan: LoanView) -> StateView {
        StateView { active_loans: self.active_loans.insert(offer_id, loan), ..self }
    }

    /// A lender registers. One who is registered already starts anew.
    pub open spec fn register(self, caller: Principal, btc_address: Seq<char>) -> StateView {
        self.with_lender(caller, LenderView::fresh(btc_address))
    }

    /// A lender's balance is set.
    pub open spec fn set_balance(self, caller: Principal, amount: int) -> StateView {
        self.with_lender(caller, LenderView { balance: amount, ..self.lenders[caller] })
    }

    /// Why an offer is refused, if it is.
    pub open spec fn offer_refusal(
        self,
        caller: Principal,
        btc_amount: u64,
        runes_required: u64,
        max_ltv: Ltv,
    ) -> Option<Seq<char>> {
        if terms_refusal(btc_amount, runes_required, max_ltv) is Some {
            terms_refusal(btc_amount, runes_required, max_ltv)
        } else if !self.lenders.contains_key(caller) {
            Some("Lender not registered"@)
        } else {
            None
        }
    }

    /// A lender's offer is added behind the lender's others, and its id is used up.
    pub open spec fn with_offer(self, caller: Principal, offer: LoanOffer) -> StateView {
        let lender = self.lenders[caller];
        StateView {
            next_offer_id: self.next_offer_id + 1,
            ..self.with_lender(
                caller,
                LenderView { loan_offers: lender.loan_offers.push(offer), ..lender },
            )
        }
    }

    /// Whether some lender has an open offer with this id.
    pub open spec fn is_offered(self, offer_id: u64) -> bool {
        exists|p: Principal| #[trigger]
            self.lenders.contains_key(p) && self.lenders[p].offers_id(offer_id)
    }

    /// What a search for an offer may find: the first offer with the id of some
    /// lender who has one, or nothing if no lender has.
    pub open spec fn finds(self, offer_id: u64, found: Option<(Principal, LoanOffer)>) -> bool {
        match found {
            None => !self.is_offered(offer_id),
            Some((p, offer)) => {
                &&& self.lenders.contains_key(p)
                &&& self.lenders[p].offers_first(offer)
                &&& offer.offer_id == offer_id
            },
        }
    }

    /// Whether an acceptance is of an open offer, against enough collateral.
    pub open spec fn admits(self, acceptance: AcceptanceView) -> bool {
        &&& self.finds(acceptance.offer.offer_id, Some((acceptance.lender, acceptance.offer)))
        &&& acceptance.collateral >= acceptance.offer.runes_required
    }

    /// Why a signed acceptance cannot be settled, if so.
    pub open spec fn settlement_refusal(self, acceptance: AcceptanceView) -> Option<Seq<char>> {
        if !self.lenders.contains_key(acceptance.lender) {
            Some("Lender not found"@)
        } else if self.lenders[acceptance.lender].balance < acceptance.offer.btc_amount {
            Some("Not enough Lender balance to fulfill the loan"@)
        } else {
            None
        }
    }

    /// The lender's record after an acceptance: the amount is gone from the
    /// balance and the offer from the open ones.
    pub open spec fn debited(self, acceptance: AcceptanceView) -> LenderView {
        let lender = self.lenders[acceptance.lender];
        LenderView {
            balance: lender.balance - acceptance.offer.btc_amount,
            ..lender.closing(acceptance.offer.offer_id)
        }
    }

    /// An acceptance is settled: the lender pays and the loan waits to be confirmed.
    pub open spec fn settle(self, borrower: Principal, acceptance: AcceptanceView) -> StateView {
        self.with_lender(acceptance.lender, self.debited(acceptance)).with_loan(
            acceptance.offer.offer_id,
            LoanView {
                lender: acceptance.lender,
                borrower,
                btc_amount: acceptance.offer.btc_amount as int,
                collateral_amount: acceptance.collateral,
                status: LoanStatus::PendingConfirmation,
                signed_tx: acceptance.signed_tx,
            },
        )
    }

    /// A deposit is noticed: it becomes pending if the lender is registered.
    pub open spec fn record_deposit(self, principal: Principal, amount: u64) -> StateView {
        if self.lenders.contains_key(principal) {
            let lender = self.lenders[principal];
            let tx = PendingTransaction { amount, confirmations: 0 };
            self.with_lender(
                principal,
                LenderView { pending_txs: lender.pending_txs.push(tx), ..lender },
            )
        } else {
            self
        }
    }

    /// A round ends: pending are now the deposits that stayed and then those
    /// noticed meanwhile, and the lender is credited.
    pub open spec fn finish_round(self, round: RoundView) -> StateView {
        if self.lenders.contains_key(round.lender) {
            let lender = self.lenders[round.lender];
            self.with_lender(
                round.lender,
                LenderView {
                    pending_txs: round.pending_after(),
                    balance: lender.balance + round.credit(),
                    ..lender
                },
            )
        } else {
            self
        }
    }

    /// Whether a loan is waiting for its transaction.
    pub open spec fn is_waiting(self, offer_id: u64) -> bool {
        &&& self.active_loans.contains_key(offer_id)
        &&& self.active_loans[offer_id].status == LoanStatus::PendingConfirmation
    }

    /// What is reported when a loan's transaction has been asked after.
    pub open spec fn loan_event(self, offer_id: u64, confirmed: bool) -> LoanEvent {
        if !self.is_waiting(offer_id) {
            LoanEvent::Unchanged
        } else if confirmed {
            LoanEvent::Confirmed
        } else {
            LoanEvent::Rejected
        }
    }

    /// The lender of a loan gets its amount back, if still registered.
    pub open spec fn refund(self, loan: LoanView) -> StateView {
        if self.lenders.contains_key(loan.lender) {
            let lender = self.lenders[loan.lender];
            self.with_lender(
                loan.lender,
                LenderView { balance: lender.balance + loan.btc_amount, ..lender },
            )
        } else {
            self
        }
    }

    /// A loan's transaction has been asked after. A waiting loan is confirmed, or
    /// rejected and refunded; any other stays as it is.
    pub open spec fn resolve_loan(self, offer_id: u64, confirmed: bool) -> StateView {
        let loan = self.active_loans[offer_id];
        match self.loan_event(offer_id, confirmed) {
            LoanEvent::Unchanged => self,
            LoanEvent::Confirmed => self.with_loan(
                offer_id,
                LoanView { status: LoanStatus::Confirmed, ..loan },
            ),
            LoanEvent::Rejected => self.with_loan(
                offer_id,
                LoanView { status: LoanStatus::Rejected, ..loan },
            ).refund(loan),
        }
    }

    /// The open offers of the lenders in `order`, lender by lender.
    pub open spec fn offers_in(self, order: Seq<Principal>) -> Seq<LoanOffer>
        decreases order.len(),
    {
        if order.len() == 0 {
            Seq::empty()
        } else {
            self.offers_in(order.drop_last()) + self.lenders[order.last()].loan_offers
        }
    }

    /// What a loan ties up of a lender's money: its amount, while it is waiting.
    pub open spec fn tied_up(self, principal: Principal, offer_id: u64) -> int {
        if self.is_waiting(offer_id) && self.active_loans[offer_id].lender == principal {
            self.active_loans[offer_id].btc_amount
        } else {
            0
        }
    }

    /// What the loans with the first `n` ids tie up of a lender's money.
    pub open spec fn outstanding(self, principal: Principal, n: nat) -> int
        decreases n,
    {
        if n == 0 {
            0
        } else {
            self.outstanding(principal, (n - 1) as nat) + self.tied_up(principal, (n - 1) as u64)
        }
    }

    /// A lender's money: the balance and what waiting loans tie up.
    pub open spec fn funds(self, principal: Principal) -> int {
        self.lenders[principal].balance + self.outstanding(principal, self.next_offer_id as nat)
    }

    /// Every open offer has acceptable terms and an id that was given out.
    pub open spec fn offers_valid(self) -> bool {
        forall|p: Principal, i: int|
            #![trigger self.lenders[p].loan_offers[i]]
            self.lenders.contains_key(p) && 0 <= i < self.lenders[p].loan_offers.len() ==> {
                let offer = self.lenders[p].loan_offers[i];
                &&& offer.offer_id < self.next_offer_id
                &&& terms_refusal(offer.btc_amount, offer.runes_required, offer.max_ltv) is None
            }
    }

    /// No two open offers share an id.
    pub open spec fn offers_distinct(self) -> bool {
        forall|p: Principal, i: int, q: Principal, j: int|
            #![trigger self.lenders[p].loan_offers[i], self.lenders[q].loan_offers[j]]
            {
                &&& self.lenders.contains_key(p)
                &&& 0 <= i < self.lenders[p].loan_offers.len()
                &&& self.lenders.contains_key(q)
                &&& 0 <= j < self.lenders[q].loan_offers.len()
                &&& self.lenders[p].loan_offers[i].offer_id
                    == self.lenders[q].loan_offers[j].offer_id
            } ==> p == q && i == j
    }

    /// Every loan comes from an offer that is no longer open, of a registered
    /// lender, and is of some amount against some collateral.
    pub open spec fn loans_valid(self) -> bool {
        forall|id: u64| #[trigger]
            self.active_loans.contains_key(id) ==> {
                &&& id < self.next_offer_id
                &&& !self.is_offered(id)
                &&& self.lenders.contains_key(self.active_loans[id].lender)
                &&& self.active_loans[id].btc_amount > 0
                &&& self.active_loans[id].collateral_amount > 0
            }
    }

    /// No pending deposit has more confirmations than it needs.
    pub open spec fn deposits_valid(self) -> bool {
        forall|p: Principal, i: int|
            #![trigger self.lenders[p].pending_txs[i]]
            self.lenders.contains_key(p) && 0 <= i < self.lenders[p].pending_txs.len()
                ==> self.lenders[p].pending_txs[i].confirmations <= REQUIRED_CONFIRMATIONS
    }

    /// What holds of every ledger that grew from the empty one.
    pub open spec fn consistent(self) -> bool {
        &&& 0 <= self.next_offer_id <= u64::MAX
        &&& self.offers_valid()
        &&& self.offers_distinct()
        &&& self.loans_valid()
        &&& self.deposits_valid()
    }
}

} // verus!
