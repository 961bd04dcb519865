//! The ledger and the requests it answers.
use crate::deposits::{DepositRound, RoundView};
use crate::lenders::Lenders;
use crate::ltv::Ltv;
use crate::model::{AcceptanceView, LoanEvent, StateView};
use crate::records::{
    ActiveLoan, LenderInfo, LenderView, LoanOffer, LoanStatus, PendingTransaction,
};
use crate::transaction::{sign_transaction, validate_unsigned_tx};
use candid::Principal;
use std::collections::HashMap;
use vstd::prelude::*;

verus! {

broadcast use vstd::std_specs::hash::group_hash_axioms;

/// The ledger: the lenders with their open offers, and the loans taken up.
pub struct State {
    pub lenders: Lenders,
    pub next_offer_id: u64,
    pub active_loans: HashMap<u64, ActiveLoan>,
}

/// An acceptance that has been checked and signed, and waits to be settled.
#[derive(Debug)]
pub struct Acceptance {
    pub lender: Principal,
    pub offer: LoanOffer,
    pub collateral: u64,
    pub signed_tx: Vec<u8>,
}

impl View for Acceptance {
    type V = AcceptanceView;

    open spec fn view(&self) -> AcceptanceView {
        AcceptanceView {
            lender: self.lender,
            offer: self.offer,
            collateral: self.collateral as int,
            signed_tx: self.signed_tx@,
        }
    }
}

impl View for State {
    type V = StateView;

    open spec fn view(&self) -> StateView {
        StateView {
            lenders: self.lenders@,
            next_offer_id: self.next_offer_id as int,
            active_loans: self.active_loans@.map_values(|loan: ActiveLoan| loan@),
        }
    }
}

impl Default for State {
    /// A ledger without lenders and loans.
    fn default() -> (state: Self)
        ensures
            state@ == StateView::empty(),
    {
        let state = State {
            lenders: Lenders::new(),
            next_offer_id: 0,
            active_loans: HashMap::new(),
        };
        assert(state@ =~= StateView::empty());
        state
    }
}

/// Checks the terms of an offer.
pub fn check_offer_terms(btc_amount: u64, runes_required: u64, max_ltv: Ltv) -> (result: Result<
    (),
    String,
>)
    ensures
        match crate::model::terms_refusal(btc_amount, runes_required, max_ltv) {
            None => result is Ok,
            Some(message) => result matches Err(error) && error@ == message,
        },
{
    if btc_amount == 0 {
        return Err("BTC amount must be greater than zero".to_string());
    }
    if runes_required == 0 {
        return Err("Runes required must be greater than zero".to_string());
    }
    if !max_ltv.is_acceptable() {
        return Err("Max LTV must be between 0 and 1".to_string());
    }
    Ok(())
}

/// Checks a borrower's request against the offer that was found for it, and
/// signs the transaction.
pub fn check_acceptance(
    found: Option<(Principal, LoanOffer)>,
    unsigned_tx: &Vec<u8>,
    runes: u64,
) -> (result: Result<Acceptance, String>)
    ensures
        match crate::model::acceptance_refusal(found, unsigned_tx@, runes as int) {
            None => {
                &&& result matches Ok(acceptance)
                &&& Some((acceptance.lender, acceptance.offer)) == found
                &&& acceptance.collateral == runes
                &&& acceptance.signed_tx@ == crate::transaction::signed(unsigned_tx@)
            },
            Some(message) => result matches Err(error) && error@ == message,
        },
{
    match found {
        None => Err("Loan offer not found".to_string()),
        Some((lender, offer)) => {
            if let Err(error) = validate_unsigned_tx(unsigned_tx) {
                return Err(error);
            }
            if runes < offer.runes_required {
                return Err("Borrower's collateral verification has failed".to_string());
            }
            match sign_transaction(unsigned_tx) {
                Err(error) => Err(error),
                Ok(signed_tx) => Ok(Acceptance { lender, offer, collateral: runes, signed_tx }),
            }
        },
    }
}

impl State {
    /// Looks for an open offer.
    pub fn find_loan_offer(&self, offer_id: u64) -> (found: Option<(Principal, LoanOffer)>)
        ensures
            self@.finds(offer_id, found),
    {
        let mut i: usize = 0;
        let n: usize = self.lenders.len();
        while i < n
            invariant
                i <= n,
                n == self.lenders.order().len(),
                forall|j: int|
                    0 <= j < i ==> !self@.lenders[#[trigger] self.lenders.order()[j]].offers_id(
                        offer_id,
                    ),
            decreases n - i,
        {
            let (principal, info) = self.lenders.entry(i);
            if let Some(offer) = info.find_offer(offer_id) {
                return Some((*principal, offer));
            }
            i += 1;
        }
        proof {
            if self@.is_offered(offer_id) {
                let p = choose|p: Principal| #[trigger]
                    self@.lenders.contains_key(p) && self@.lenders[p].offers_id(offer_id);
                assert(self.lenders.order().to_set().contains(p));
                let j = self.lenders.order().index_of(p);
                assert(self.lenders.order()[j] == p);
            }
        }
        None
    }

    /// Settles a signed acceptance: the lender pays, the offer is closed, and the
    /// loan waits to be confirmed.
    pub fn settle_acceptance(&mut self, borrower: Principal, acceptance: Acceptance) -> (result:
        Result<(), String>)
        ensures
            match old(self)@.settlement_refusal(acceptance@) {
                None => result is Ok && final(self)@ == old(self)@.settle(borrower, acceptance@),
                Some(message) => {
                    &&& result matches Err(error)
                    &&& error@ == message
                    &&& final(self)@ == old(self)@
                },
            },
            old(self)@.consistent() && old(self)@.admits(acceptance@) ==> final(self)@.consistent(),
    {
        proof {
            if self@.consistent() && self@.admits(acceptance@) {
                crate::laws::law_settle_keeps_consistency(self@, borrower, acceptance@);
            }
        }
        let Acceptance { lender, offer, collateral, signed_tx } = acceptance;
        match self.lenders.get_mut(&lender) {
            None => {
                return Err("Lender not found".to_string());
            },
            Some(info) => {
                if info.balance < offer.btc_amount {
                    return Err("Not enough Lender balance to fulfill the loan".to_string());
                }
                info.balance -= offer.btc_amount;
                info.close_offer(offer.offer_id);
            },
        }
        self.active_loans.insert(
            offer.offer_id,
            ActiveLoan {
                lender,
                borrower,
                btc_amount: offer.btc_amount,
                collateral_amount: collateral,
                status: LoanStatus::PendingConfirmation,
                signed_tx,
            },
        );
        assert(self@ =~= old(self)@.settle(borrower, acceptance@));
        Ok(())
    }

    /// Accepts an offer for a borrower.
    ///
    /// The request is checked and its transaction signed; `broadcast` sends the
    /// signed transaction, once, and only if the checks have passed; the loan is
    /// settled if it was sent.
    pub fn accept_loan_offer<F: FnOnce(&Vec<u8>) -> Result<(), String>>(
        &mut self,
        borrower: Principal,
        offer_id: u64,
        unsigned_tx: Vec<u8>,
        runes: u64,
        broadcast: F,
    ) -> (result: Result<(), String>)
        requires
            forall|found: Option<(Principal, LoanOffer)>, tx: &Vec<u8>|
                {
                    &&& #[trigger] old(self)@.finds(offer_id, found)
                    &&& crate::model::acceptance_refusal(found, unsigned_tx@, runes as int) is None
                    &&& tx@ == crate::transaction::signed(unsigned_tx@)
                } ==> #[trigger] call_requires(broadcast, (tx,)),
        ensures
            exists|found: Option<(Principal, LoanOffer)>| #[trigger]
                old(self)@.finds(offer_id, found) && match crate::model::acceptance_refusal(
                    found,
                    unsigned_tx@,
                    runes as int,
                ) {
                    Some(message) => {
                        &&& result matches Err(error)
                        &&& error@ == message
                        &&& final(self)@ == old(self)@
                    },
                    None => exists|acceptance: Acceptance, sent: Result<(), String>|
                        {
                            &&& found == Some((acceptance.lender, acceptance.offer))
                            &&& acceptance.collateral == runes
                            &&& acceptance.signed_tx@ == crate::transaction::signed(unsigned_tx@)
                            &&& #[trigger] call_ensures(broadcast, (&acceptance.signed_tx,), sent)
                            &&& match sent {
                                Err(error) => result == Err::<(), String>(error) && final(self)@
                                    == old(self)@,
                                Ok(()) => match old(self)@.settlement_refusal(acceptance@) {
                                    None => result is Ok && final(self)@ == old(self)@.settle(
                                        borrower,
                                        acceptance@,
                                    ),
                                    Some(message) => {
                                        &&& result matches Err(error)
                                        &&& error@ == message
                                        &&& final(self)@ == old(self)@
                                    },
                                },
                            }
                        },
                },
            old(self)@.consistent() ==> final(self)@.consistent(),
    {
        let found = self.find_loan_offer(offer_id);
        match check_acceptance(found, &unsigned_tx, runes) {
            Err(error) => Err(error),
            Ok(acceptance) => match broadcast(&acceptance.signed_tx) {
                Err(error) => Err(error),
                Ok(()) => self.settle_acceptance(borrower, acceptance),
            },
        }
    }

    /// Registers a lender under the given address, and returns the address. One
    /// who is registered already starts anew: the former balance, deposits and
    /// offers are gone.
    pub fn register_lender(&mut self, caller: Principal, btc_address: String) -> (address: String)
        ensures
            address@ == btc_address@,
            final(self)@ == old(self)@.register(caller, btc_address@),
            old(self)@.consistent() ==> final(self)@.consistent(),
    {
        let info = LenderInfo {
            btc_address: btc_address.clone(),
            balance: 0,
            pending_txs: Vec::new(),
            loan_offers: Vec::new(),
        };
        assert(info@ =~= LenderView::fresh(btc_address@));
        self.lenders.insert(caller, info);
        proof {
            if old(self)@.consistent() {
                crate::laws::law_register_keeps_consistency(old(self)@, caller, btc_address@);
            }
        }
        btc_address
    }

    /// Sets the balance of a registered lender.
    pub fn update_lender_balance(&mut self, caller: Principal, amount: u64) -> (result: Result<
        (),
        String,
    >)
        ensures
            old(self)@.lenders.contains_key(caller) ==> {
                &&& result is Ok
                &&& final(self)@ == old(self)@.set_balance(caller, amount as int)
            },
            !old(self)@.lenders.contains_key(caller) ==> {
                &&& result matches Err(error)
                &&& error@ == "Lender not registered"@
                &&& final(self)@ == old(self)@
            },
            old(self)@.consistent() ==> final(self)@.consistent(),
    {
        proof {
            if self@.consistent() && self@.lenders.contains_key(caller) {
                crate::laws::law_set_balance_keeps_consistency(self@, caller, amount as int);
            }
        }
        match self.lenders.get_mut(&caller) {
            Some(info) => {
                info.balance = amount;
                Ok(())
            },
            None => Err("Lender not registered".to_string()),
        }
    }

    /// Adds an offer of a registered lender, and returns its id.
    pub fn create_loan_offer(
        &mut self,
        caller: Principal,
        btc_amount: u64,
        runes_required: u64,
        max_ltv: Ltv,
    ) -> (result: Result<u64, String>)
        requires
            old(self)@.offer_refusal(caller, btc_amount, runes_required, max_ltv) is None
                ==> old(self).next_offer_id < u64::MAX,
        ensures
            match old(self)@.offer_refusal(caller, btc_amount, runes_required, max_ltv) {
                None => {
                    let offer_id = old(self).next_offer_id;
                    &&& result == Ok::<u64, String>(offer_id)
                    &&& final(self)@ == old(self)@.with_offer(
                        caller,
                        LoanOffer { offer_id, btc_amount, runes_required, max_ltv },
                    )
                },
                Some(message) => {
                    &&& result matches Err(error)
                    &&& error@ == message
                    &&& final(self)@ == old(self)@
                },
            },
            old(self)@.consistent() ==> final(self)@.consistent(),
    {
        if let Err(error) = check_offer_terms(btc_amount, runes_required, max_ltv) {
            return Err(error);
        }
        let offer_id: u64 = self.next_offer_id;
        let offer = LoanOffer { offer_id, btc_amount, runes_required, max_ltv };
        proof {
            if self@.consistent() && self@.lenders.contains_key(caller) {
                crate::laws::law_offer_keeps_consistency(self@, caller, offer);
            }
        }
        match self.lenders.get_mut(&caller) {
            Some(info) => {
                info.loan_offers.push(offer);
            },
            None => {
                return Err("Lender not registered".to_string());
            },
        }
        self.next_offer_id += 1;
        assert(self@ =~= old(self)@.with_offer(caller, offer));
        Ok(offer_id)
    }

    /// The record of a lender.
    pub fn get_lender_info(&self, caller: Principal) -> (info: Option<LenderInfo>)
        ensures
            match info {
                Some(info) => self@.lenders.contains_key(caller) && info@ == self@.lenders[caller],
                None => !self@.lenders.contains_key(caller),
            },
    {
        match self.lenders.get(&caller) {
            Some(info) => Some(info.clone()),
            None => None,
        }
    }

    /// The open offers of a registered lender.
    pub fn get_loan_offers(&self, caller: Principal) -> (result: Result<Vec<LoanOffer>, String>)
        ensures
            match result {
                Ok(offers) => self@.lenders.contains_key(caller) && offers@
                    == self@.lenders[caller].loan_offers,
                Err(error) => !self@.lenders.contains_key(caller) && error@
                    == "Lender not registered"@,
            },
    {
        match self.lenders.get(&caller) {
            Some(info) => Ok(info.loan_offers.clone()),
            None => Err("Lender not registered".to_string()),
        }
    }

    /// The open offers of all lenders, lender by lender.
    pub fn get_all_loan_offers(&self) -> (offers: Vec<LoanOffer>)
        ensures
            exists|order: Seq<Principal>|
                crate::model::is_listing(order, self@.lenders.dom()) && offers@
                    == #[trigger] self@.offers_in(order),
    {
        let mut offers: Vec<LoanOffer> = Vec::new();
        let mut i: usize = 0;
        let n: usize = self.lenders.len();
        let ghost order = self.lenders.order();
        while i < n
            invariant
                i <= n,
                n == order.len(),
                order == self.lenders.order(),
                offers@ == self@.offers_in(order.take(i as int)),
            decreases n - i,
        {
            let (principal, info) = self.lenders.entry(i);
            let mut of_lender: Vec<LoanOffer> = info.loan_offers.clone();
            offers.append(&mut of_lender);
            i += 1;
            assert(order.take(i as int).drop_last() =~= order.take(i - 1));
        }
        assert(order.take(n as int) =~= order);
        offers
    }

    /// The loans that have been taken up, whatever their status.
    pub fn get_active_loans(&self) -> (loans: Vec<ActiveLoan>)
        ensures
            exists|order: Seq<u64>|
                {
                    &&& #[trigger] crate::model::is_listing(order, self@.active_loans.dom())
                    &&& loans@.map_values(|loan: ActiveLoan| loan@) == order.map_values(
                        |id: u64| self@.active_loans[id],
                    )
                },
    {
        let ids = self.monitor_active_loans();
        let mut loans: Vec<ActiveLoan> = Vec::new();
        let mut i: usize = 0;
        while i < ids.len()
            invariant
                i <= ids@.len(),
                crate::model::is_listing(ids@, self@.active_loans.dom()),
                loans@.len() == i,
                forall|j: int|
                    0 <= j < i ==> (#[trigger] loans@[j])@ == self@.active_loans[ids@[j]],
            decreases ids@.len() - i,
        {
            assert(ids@.to_set().contains(ids@[i as int]));
            if let Some(loan) = self.active_loans.get(&ids[i]) {
                loans.push(loan.clone());
            }
            i += 1;
        }
        assert(loans@.map_values(|loan: ActiveLoan| loan@) =~= ids@.map_values(
            |id: u64| self@.active_loans[id],
        ));
        loans
    }

    /// The lenders whose deposits are to be looked at.
    pub fn monitor_btc_transactions(&self) -> (principals: Vec<Principal>)
        ensures
            crate::model::is_listing(principals@, self@.lenders.dom()),
    {
        let mut principals: Vec<Principal> = Vec::new();
        let mut i: usize = 0;
        let n: usize = self.lenders.len();
        while i < n
            invariant
                i <= n,
                n == self.lenders.order().len(),
                principals@ == self.lenders.order().take(i as int),
            decreases n - i,
        {
            principals.push(*self.lenders.entry(i).0);
            i += 1;
            assert(principals@ =~= self.lenders.order().take(i as int));
        }
        assert(self.lenders.order().take(n as int) =~= self.lenders.order());
        principals
    }

    /// The loans whose transactions are to be asked after.
    pub fn monitor_active_loans(&self) -> (ids: Vec<u64>)
        ensures
            crate::model::is_listing(ids@, self@.active_loans.dom()),
    {
        let mut ids: Vec<u64> = Vec::new();
        let keys = self.active_loans.keys();
        let ghost order = vstd::std_specs::iter::IteratorSpec::remaining(&keys).unref();
        for id in it: keys
            invariant
                it.seq().unref() == order,
                ids@ == order.take(it.index() as int),
        {
            ids.push(*id);
            assert(ids@ =~= order.take(it.index() + 1));
        }
        assert(ids@ =~= order);
        assert(self@.active_loans.dom() =~= self.active_loans@.dom());
        ids
    }

    /// Begins a round over the pending deposits of a registered lender.
    pub fn process_lender_transactions(&self, principal: Principal) -> (round: Option<DepositRound>)
        ensures
            match round {
                Some(round) => {
                    let lender = self@.lenders[principal];
                    &&& self@.lenders.contains_key(principal)
                    &&& round@ == RoundView::begin(
                        principal,
                        lender.btc_address,
                        lender.pending_txs,
                    )
                },
                None => !self@.lenders.contains_key(principal),
            },
    {
        match self.lenders.get(&principal) {
            Some(info) => Some(
                DepositRound::new(principal, info.btc_address.clone(), info.pending_txs.clone()),
            ),
            None => None,
        }
    }

    /// Takes note of a new deposit of a lender.
    pub fn record_deposit(&mut self, principal: Principal, amount: u64)
        ensures
            final(self)@ == old(self)@.record_deposit(principal, amount),
            old(self)@.consistent() ==> final(self)@.consistent(),
    {
        proof {
            if self@.consistent() {
                crate::laws::law_deposit_keeps_consistency(self@, principal, amount);
            }
        }
        if let Some(info) = self.lenders.get_mut(&principal) {
            info.pending_txs.push(PendingTransaction { amount, confirmations: 0 });
        }
    }

    /// Takes note of a deposit that was noticed while a round is under way: it is
    /// pending from now on, and the round takes it along to its end.
    pub fn notice_deposit(&mut self, round: DepositRound, amount: u64) -> (noted: DepositRound)
        ensures
            noted@ == round@.notice(amount),
            final(self)@ == old(self)@.record_deposit(round@.lender, amount),
            old(self)@.consistent() ==> final(self)@.consistent(),
    {
        self.record_deposit(round.lender(), amount);
        round.notice(amount)
    }

    /// Ends a round: pending are now the deposits of the lender that stayed and
    /// then those noticed meanwhile. The lender is credited with what was
    /// confirmed.
    pub fn finish_round(&mut self, round: DepositRound)
        requires
            round@.is_settled(),
            old(self)@.lenders.contains_key(round@.lender)
                ==> old(self)@.lenders[round@.lender].balance + round@.credit() <= u64::MAX,
        ensures
            final(self)@ == old(self)@.finish_round(round@),
            old(self)@.consistent() ==> final(self)@.consistent(),
    {
        proof {
            if self@.consistent() {
                crate::laws::law_round_keeps_consistency(self@, round@);
            }
        }
        if let Some(info) = self.lenders.get_mut(&round.lender()) {
            info.balance = (info.balance as u128 + round.credit()) as u64;
            info.pending_txs = round.into_pending();
        }
    }

    /// Takes the answer on a loan's transaction. A waiting loan is confirmed, or
    /// rejected and its lender refunded; any other stays as it is.
    pub fn process_active_loan(&mut self, offer_id: u64, transaction_confirmed: bool) -> (event:
        LoanEvent)
        requires
            old(self)@.loan_event(offer_id, transaction_confirmed) is Rejected
                && old(self)@.lenders.contains_key(old(self)@.active_loans[offer_id].lender)
                ==> old(self)@.lenders[old(self)@.active_loans[offer_id].lender].balance
                + old(self)@.active_loans[offer_id].btc_amount <= u64::MAX,
        ensures
            event == old(self)@.loan_event(offer_id, transaction_confirmed),
            final(self)@ == old(self)@.resolve_loan(offer_id, transaction_confirmed),
            old(self)@.consistent() ==> final(self)@.consistent(),
    {
        proof {
            if self@.consistent() {
                crate::laws::law_resolve_keeps_consistency(self@, offer_id, transaction_confirmed);
            }
        }
        let (lender, btc_amount) = match self.active_loans.get(&offer_id) {
            Some(loan) => match loan.status {
                LoanStatus::PendingConfirmation => (loan.lender, loan.btc_amount),
                _ => {
                    return LoanEvent::Unchanged;
                },
            },
            None => {
                return LoanEvent::Unchanged;
            },
        };
        let status = if transaction_confirmed {
            LoanStatus::Confirmed
        } else {
            LoanStatus::Rejected
        };
        if let Some(loan) = self.active_loans.remove(&offer_id) {
            self.active_loans.insert(offer_id, ActiveLoan { status, ..loan });
        }
        if transaction_confirmed {
            assert(self@ =~= old(self)@.resolve_loan(offer_id, transaction_confirmed));
            return LoanEvent::Confirmed;
        }
        if let Some(info) = self.lenders.get_mut(&lender) {
            info.balance += btc_amount;
        }
        assert(self@ =~= old(self)@.resolve_loan(offer_id, transaction_confirmed));
        LoanEvent::Rejected
    }
}

} // verus!
