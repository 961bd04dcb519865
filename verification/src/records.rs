//! The records that the ledger keeps, and their mathematical views.
use crate::ltv::Ltv;
use candid::Principal;
use vstd::prelude::*;

verus! {

/// The confirmations from which a deposit counts as settled.
pub const REQUIRED_CONFIRMATIONS: u8 = 6;

/// How far the transaction behind a loan has come.
#[derive(Clone, Copy, Debug, PartialEq, Eq, Structural)]
pub enum LoanStatus {
    PendingConfirmation,
    Confirmed,
    Rejected,
    Dropped,
}

/// A deposit that has been noticed and not yet credited.
#[derive(Clone, Copy, Debug, PartialEq, Eq, Structural)]
pub struct PendingTransaction {
    pub amount: u64,
    pub confirmations: u8,
}

impl PendingTransaction {
    /// Whether the deposit has all the confirmations it needs.
    pub open spec fn is_confirmed(self) -> bool {
        self.confirmations >= REQUIRED_CONFIRMATIONS
    }

    /// The deposit with one more confirmation.
    pub open spec fn confirmed_once_more(self) -> PendingTransaction {
        PendingTransaction {
            amount: self.amount,
            confirmations: (self.confirmations + 1) as u8,
        }
    }
}

/// An open offer of a lender.
#[derive(Clone, Copy, Debug, PartialEq, Eq, Structural)]
pub struct LoanOffer {
    pub offer_id: u64,
    pub btc_amount: u64,
    pub runes_required: u64,
    pub max_ltv: Ltv,
}

/// What the ledger knows of a lender.
#[derive(Debug)]
pub struct LenderInfo {
    pub btc_address: String,
    pub balance: u64,
    pub pending_txs: Vec<PendingTransaction>,
    pub loan_offers: Vec<LoanOffer>,
}

/// A lender, mathematically.
#[verifier::ext_equal]
pub struct LenderView {
    pub btc_address: Seq<char>,
    pub balance: int,
    pub pending_txs: Seq<PendingTransaction>,
    pub loan_offers: Seq<LoanOffer>,
}

impl View for LenderInfo {
    type V = LenderView;

    open spec fn view(&self) -> LenderView {
        LenderView {
            btc_address: self.btc_address@,
            balance: self.balance as int,
            pending_txs: self.pending_txs@,
            loan_offers: self.loan_offers@,
        }
    }
}

impl Clone for LenderInfo {
    fn clone(&self) -> (copy: Self)
        ensures
            copy@ == self@,
    {
        LenderInfo {
            btc_address: self.btc_address.clone(),
            balance: self.balance,
            pending_txs: self.pending_txs.clone(),
            loan_offers: self.loan_offers.clone(),
        }
    }
}

impl LenderView {
    /// A lender who has just registered: no funds, no deposits, no offers.
    pub open spec fn fresh(btc_address: Seq<char>) -> LenderView {
        LenderView {
            btc_address,
            balance: 0,
            pending_txs: Seq::empty(),
            loan_offers: Seq::empty(),
        }
    }

    /// Whether one of the open offers has this id.
    pub open spec fn offers_id(self, offer_id: u64) -> bool {
        exists|i: int|
            0 <= i < self.loan_offers.len() && #[trigger] self.loan_offers[i].offer_id == offer_id
    }

    /// Whether `offer` is the first of the open offers with its id.
    pub open spec fn offers_first(self, offer: LoanOffer) -> bool {
        exists|i: int|
            {
                &&& 0 <= i < self.loan_offers.len()
                &&& #[trigger] self.loan_offers[i] == offer
                &&& forall|j: int|
                    0 <= j < i ==> (#[trigger] self.loan_offers[j]).offer_id != offer.offer_id
            }
    }

    /// The lender without the open offers that have this id.
    pub open spec fn closing(self, offer_id: u64) -> LenderView {
        LenderView {
            loan_offers: self.loan_offers.filter(|o: LoanOffer| o.offer_id != offer_id),
            ..self
        }
    }
}

impl LenderInfo {
    /// The first open offer with an id.
    pub fn find_offer(&self, offer_id: u64) -> (found: Option<LoanOffer>)
        ensures
            match found {
                Some(offer) => offer.offer_id == offer_id && self@.offers_first(offer),
                None => !self@.offers_id(offer_id),
            },
    {
        let mut i: usize = 0;
        while i < self.loan_offers.len()
            invariant
                i <= self.loan_offers@.len(),
                forall|j: int|
                    0 <= j < i ==> (#[trigger] self.loan_offers@[j]).offer_id != offer_id,
            decreases self.loan_offers@.len() - i,
        {
            if self.loan_offers[i].offer_id == offer_id {
                assert(self@.loan_offers[i as int] == self.loan_offers@[i as int]);
                return Some(self.loan_offers[i]);
            }
            i += 1;
        }
        None
    }

    /// Takes the offers with an id out of the open ones.
    pub fn close_offer(&mut self, offer_id: u64)
        ensures
            final(self)@ == old(self)@.closing(offer_id),
    {
        let ghost other = |o: LoanOffer| o.offer_id != offer_id;
        let mut left: Vec<LoanOffer> = Vec::new();
        let mut i: usize = 0;
        reveal(Seq::filter);
        while i < self.loan_offers.len()
            invariant
                i <= self.loan_offers@.len(),
                other == (|o: LoanOffer| o.offer_id != offer_id),
                left@ == self.loan_offers@.take(i as int).filter(other),
                *self == *old(self),
            decreases self.loan_offers@.len() - i,
        {
            reveal(Seq::filter);
            assert(self.loan_offers@.take(i + 1).drop_last() =~= self.loan_offers@.take(i as int));
            if self.loan_offers[i].offer_id != offer_id {
                left.push(self.loan_offers[i]);
            }
            i += 1;
        }
        assert(self.loan_offers@.take(i as int) =~= self.loan_offers@);
        self.loan_offers = left;
    }
}

/// A loan that a borrower has taken up.
#[derive(Debug)]
pub struct ActiveLoan {
    pub lender: Principal,
    pub borrower: Principal,
    pub btc_amount: u64,
    pub collateral_amount: u64,
    pub status: LoanStatus,
    pub signed_tx: Vec<u8>,
}

/// A loan, mathematically.
#[verifier::ext_equal]
pub struct LoanView {
    pub lender: Principal,
    pub borrower: Principal,
    pub btc_amount: int,
    pub collateral_amount: int,
    pub status: LoanStatus,
    pub signed_tx: Seq<u8>,
}

impl View for ActiveLoan {
    type V = LoanView;

    open spec fn view(&self) -> LoanView {
        LoanView {
            lender: self.lender,
            borrower: self.borrower,
            btc_amount: self.btc_amount as int,
            collateral_amount: self.collateral_amount as int,
            status: self.status,
            signed_tx: self.signed_tx@,
        }
    }
}

impl Clone for ActiveLoan {
    fn clone(&self) -> (copy: Self)
        ensures
            copy@ == self@,
    {
        ActiveLoan {
            lender: self.lender,
            borrower: self.borrower,
            btc_amount: self.btc_amount,
            collateral_amount: self.collateral_amount,
            status: self.status,
            signed_tx: self.signed_tx.clone(),
        }
    }
}

} // verus!
