//! One round over the pending deposits of a lender.
//!
//! A round works on the deposits that were pending when it began. It goes
//! through them in order. A deposit with enough confirmations is credited. For
//! each of the others the network is asked whether it rejected the deposit: a
//! rejected one is dropped, any other gets one more confirmation and stays. A
//! deposit that is noticed while the round is under way joins those that stay,
//! behind them and without confirmations.
use crate::records::{PendingTransaction, REQUIRED_CONFIRMATIONS};
use candid::Principal;
use vstd::prelude::*;

verus! {

/// What stays pending of the deposits that have a verdict. `rejected[i]` is the
/// verdict on `pending[i]`; it does not matter for a confirmed deposit.
pub open spec fn kept(pending: Seq<PendingTransaction>, rejected: Seq<bool>) -> Seq<
    PendingTransaction,
>
    decreases rejected.len(),
{
    if rejected.len() == 0 {
        Seq::empty()
    } else {
        let rest = kept(pending, rejected.drop_last());
        let tx = pending[rejected.len() - 1];
        if tx.is_confirmed() || rejected.last() {
            rest
        } else {
            rest.push(tx.confirmed_once_more())
        }
    }
}

/// The sum of the confirmed deposits among the first `n`.
pub open spec fn credited(pending: Seq<PendingTransaction>, n: nat) -> int
    decreases n,
{
    if n == 0 {
        0
    } else {
        let tx = pending[n - 1];
        credited(pending, (n - 1) as nat) + if tx.is_confirmed() {
            tx.amount as int
        } else {
            0
        }
    }
}

/// A round, mathematically: the deposits it works on, the verdicts so far, and
/// the amounts of the deposits noticed since it began.
#[verifier::ext_equal]
pub struct RoundView {
    pub lender: Principal,
    pub btc_address: Seq<char>,
    pub pending: Seq<PendingTransaction>,
    pub rejected: Seq<bool>,
    pub noticed: Seq<u64>,
}

impl RoundView {
    /// A round that has not looked at any deposit.
    pub open spec fn begin(
        lender: Principal,
        btc_address: Seq<char>,
        pending: Seq<PendingTransaction>,
    ) -> RoundView {
        RoundView {
            lender,
            btc_address,
            pending,
            rejected: Seq::empty(),
            noticed: Seq::empty(),
        }
    }

    /// Every deposit has been dealt with.
    pub open spec fn is_settled(self) -> bool {
        self.rejected.len() == self.pending.len()
    }

    /// The next deposit needs a verdict.
    pub open spec fn is_undecided(self) -> bool {
        &&& self.rejected.len() < self.pending.len()
        &&& !self.pending[self.rejected.len() as int].is_confirmed()
    }

    /// The round with a verdict on the next deposit.
    pub open spec fn decide(self, rejected: bool) -> RoundView {
        RoundView { rejected: self.rejected.push(rejected), ..self }
    }

    /// The round with one more deposit noticed.
    pub open spec fn notice(self, amount: u64) -> RoundView {
        RoundView { noticed: self.noticed.push(amount), ..self }
    }

    /// What stays pending of the deposits that the round began with.
    pub open spec fn kept(self) -> Seq<PendingTransaction> {
        kept(self.pending, self.rejected)
    }

    /// The deposits noticed since the round began, none of them confirmed yet.
    pub open spec fn new_deposits(self) -> Seq<PendingTransaction> {
        self.noticed.map_values(|amount: u64| PendingTransaction { amount, confirmations: 0 })
    }

    /// What is pending when the round ends: what stayed, and then what is new.
    pub open spec fn pending_after(self) -> Seq<PendingTransaction> {
        self.kept() + self.new_deposits()
    }

    /// What the lender is credited with.
    pub open spec fn credit(self) -> int {
        credited(self.pending, self.rejected.len())
    }

    /// Whether `next` is this round moved on over confirmed deposits only, which
    /// count as not rejected.
    pub open spec fn skips_confirmed_to(self, next: RoundView) -> bool {
        &&& next == (RoundView { rejected: next.rejected, ..self })
        &&& self.rejected.len() <= next.rejected.len() <= self.pending.len()
        &&& next.rejected.take(self.rejected.len() as int) == self.rejected
        &&& forall|i: int|
            self.rejected.len() <= i < next.rejected.len() ==> (
            #[trigger] self.pending[i]).is_confirmed() && next.rejected[i] == false
    }
}

/// A round under way.
pub struct DepositRound {
    lender: Principal,
    btc_address: String,
    pending: Vec<PendingTransaction>,
    next: usize,
    kept: Vec<PendingTransaction>,
    credit: u128,
    rejected: Ghost<Seq<bool>>,
    noticed: Vec<PendingTransaction>,
}

/// Where a round stands.
pub enum RoundStep {
    /// The next deposit needs a verdict.
    Undecided(DepositRound),
    /// Every deposit has been dealt with.
    Settled(DepositRound),
}

impl View for DepositRound {
    type V = RoundView;

    closed spec fn view(&self) -> RoundView {
        RoundView {
            lender: self.lender,
            btc_address: self.btc_address@,
            pending: self.pending@,
            rejected: self.rejected@,
            noticed: self.noticed@.map_values(|tx: PendingTransaction| tx.amount),
        }
    }
}

impl DepositRound {
    #[verifier::type_invariant]
    spec fn well_formed(self) -> bool {
        &&& self.next == self.rejected@.len()
        &&& self.next <= self.pending@.len()
        &&& self.kept@ == kept(self.pending@, self.rejected@)
        &&& self.credit == credited(self.pending@, self.next as nat)
        &&& self.credit <= self.next * u64::MAX
        &&& forall|i: int|
            0 <= i < self.noticed@.len() ==> (#[trigger] self.noticed@[i]).confirmations == 0
    }

    /// Begins a round over the given deposits.
    pub fn new(
        lender: Principal,
        btc_address: String,
        pending: Vec<PendingTransaction>,
    ) -> (round: Self)
        ensures
            round@ == RoundView::begin(lender, btc_address@, pending@),
    {
        let round = DepositRound {
            lender,
            btc_address,
            pending,
            next: 0,
            kept: Vec::new(),
            credit: 0,
            rejected: Ghost(Seq::empty()),
            noticed: Vec::new(),
        };
        assert(round@ =~= RoundView::begin(lender, btc_address@, pending@));
        round
    }

    /// Takes a deposit along that was noticed since the round began.
    pub fn notice(self, amount: u64) -> (round: Self)
        ensures
            round@ == self@.notice(amount),
    {
        proof {
            use_type_invariant(&self);
        }
        let ghost start = self@;
        let DepositRound {
            lender,
            btc_address,
            pending,
            next,
            kept: remaining,
            credit,
            rejected,
            mut noticed,
        } = self;
        noticed.push(PendingTransaction { amount, confirmations: 0 });
        let round = DepositRound {
            lender,
            btc_address,
            pending,
            next,
            kept: remaining,
            credit,
            rejected,
            noticed,
        };
        assert(round@ =~= start.notice(amount));
        round
    }

    /// The lender whose deposits these are.
    pub fn lender(&self) -> (lender: Principal)
        ensures
            lender == self@.lender,
    {
        self.lender
    }

    /// The address of that lender.
    pub fn btc_address(&self) -> (btc_address: &String)
        ensures
            btc_address@ == self@.btc_address,
    {
        &self.btc_address
    }

    /// What the lender is credited with so far.
    pub fn credit(&self) -> (credit: u128)
        ensures
            credit == self@.credit(),
    {
        proof {
            use_type_invariant(self);
        }
        self.credit
    }

    /// Credits confirmed deposits until one needs a verdict or none is left.
    pub fn advance(self) -> (step: RoundStep)
        ensures
            match step {
                RoundStep::Undecided(round) => self@.skips_confirmed_to(round@)
                    && round@.is_undecided(),
                RoundStep::Settled(round) => self@.skips_confirmed_to(round@)
                    && round@.is_settled(),
            },
    {
        proof {
            use_type_invariant(&self);
        }
        let ghost start = self@;
        let DepositRound {
            lender,
            btc_address,
            pending,
            mut next,
            kept: remaining,
            mut credit,
            rejected,
            noticed,
        } = self;
        let ghost mut verdicts: Seq<bool> = rejected@;
        while next < pending.len() && pending[next].confirmations >= REQUIRED_CONFIRMATIONS
            invariant
                next == verdicts.len(),
                next <= pending@.len(),
                remaining@ == kept(pending@, verdicts),
                credit == credited(pending@, next as nat),
                credit <= next * u64::MAX,
                start.pending == pending@,
                start.rejected.len() <= next,
                verdicts.take(start.rejected.len() as int) == start.rejected,
                forall|i: int|
                    start.rejected.len() <= i < next ==> (
                    #[trigger] start.pending[i]).is_confirmed() && verdicts[i] == false,
            decreases pending@.len() - next,
        {
            let amount: u64 = pending[next].amount;
            proof {
                assert(next * u64::MAX + u64::MAX <= u128::MAX) by (nonlinear_arith)
                    requires
                        next < usize::MAX <= u64::MAX,
                ;
                assert((next + 1) * u64::MAX == next * u64::MAX + u64::MAX) by (nonlinear_arith);
                let before = verdicts;
                verdicts = verdicts.push(false);
                assert(verdicts.drop_last() =~= before);
                assert(verdicts.take(start.rejected.len() as int) =~= start.rejected);
            }
            credit += amount as u128;
            next += 1;
        }
        let done = next == pending.len();
        let round = DepositRound {
            lender,
            btc_address,
            pending,
            next,
            kept: remaining,
            credit,
            rejected: Ghost(verdicts),
            noticed,
        };
        assert(round@ =~= (RoundView { rejected: round@.rejected, ..start }));
        if done {
            RoundStep::Settled(round)
        } else {
            RoundStep::Undecided(round)
        }
    }

    /// Takes the verdict on the next deposit: drops it if it was rejected, else
    /// keeps it with one more confirmation.
    pub fn resolve(self, rejected: bool) -> (round: Self)
        requires
            self@.is_undecided(),
        ensures
            round@ == self@.decide(rejected),
    {
        proof {
            use_type_invariant(&self);
        }
        let ghost start = self@;
        let DepositRound {
            lender,
            btc_address,
            pending,
            next,
            kept: mut remaining,
            credit,
            rejected: verdicts,
            noticed,
        } = self;
        assert(next < pending.len());
        let tx: PendingTransaction = pending[next];
        if !rejected {
            remaining.push(
                PendingTransaction { amount: tx.amount, confirmations: tx.confirmations + 1 },
            );
        }
        proof {
            assert(start.rejected.push(rejected).drop_last() =~= start.rejected);
            assert((next + 1) * u64::MAX == next * u64::MAX + u64::MAX) by (nonlinear_arith);
        }
        DepositRound {
            lender,
            btc_address,
            pending,
            next: next + 1,
            kept: remaining,
            credit,
            rejected: Ghost(start.rejected.push(rejected)),
            noticed,
        }
    }

    /// Ends the round: what is pending now.
    pub fn into_pending(self) -> (pending: Vec<PendingTransaction>)
        ensures
            pending@ == self@.pending_after(),
    {
        proof {
            use_type_invariant(&self);
            assert(self@.new_deposits() =~= self.noticed@);
        }
        let DepositRound { mut kept, mut noticed, .. } = self;
        kept.append(&mut noticed);
        kept
    }
}

/// Law: what a round keeps has at least one confirmation and no more than it needs.
pub proof fn law_kept_are_within_confirmations(
    pending: Seq<PendingTransaction>,
    rejected: Seq<bool>,
)
    ensures
        forall|i: int|
            0 <= i < kept(pending, rejected).len() ==> 1 <= (
            #[trigger] kept(pending, rejected)[i]).confirmations <= REQUIRED_CONFIRMATIONS,
    decreases rejected.len(),
{
    if rejected.len() > 0 {
        law_kept_are_within_confirmations(pending, rejected.drop_last());
        let rest = kept(pending, rejected.drop_last());
        let tx = pending[rejected.len() - 1];
        assert(kept(pending, rejected) == rest || kept(pending, rejected) == rest.push(
            tx.confirmed_once_more(),
        ) && !tx.is_confirmed());
        assert(forall|i: int|
            0 <= i < rest.len() ==> kept(pending, rejected)[i] == #[trigger] rest[i]);
    }
}

/// The sum of a list of deposits.
pub open spec fn total(txs: Seq<PendingTransaction>) -> int
    decreases txs.len(),
{
    if txs.len() == 0 {
        0
    } else {
        total(txs.drop_last()) + txs.last().amount
    }
}

/// The sum of the deposits that were dropped: not confirmed, and rejected.
pub open spec fn dropped(pending: Seq<PendingTransaction>, rejected: Seq<bool>) -> int
    decreases rejected.len(),
{
    if rejected.len() == 0 {
        0
    } else {
        let tx = pending[rejected.len() - 1];
        dropped(pending, rejected.drop_last()) + if !tx.is_confirmed() && rejected.last() {
            tx.amount as int
        } else {
            0
        }
    }
}

/// Law: a round accounts for every deposit it has dealt with: what they came to
/// has been credited, is still pending, or was dropped with a rejected deposit.
pub proof fn law_round_accounts_for_every_deposit(
    pending: Seq<PendingTransaction>,
    rejected: Seq<bool>,
)
    requires
        rejected.len() <= pending.len(),
    ensures
        total(pending.take(rejected.len() as int)) == credited(pending, rejected.len()) + total(
            kept(pending, rejected),
        ) + dropped(pending, rejected),
    decreases rejected.len(),
{
    if rejected.len() > 0 {
        let n = rejected.len() as int;
        law_round_accounts_for_every_deposit(pending, rejected.drop_last());
        assert(pending.take(n).drop_last() =~= pending.take(n - 1));
        let rest = kept(pending, rejected.drop_last());
        let tx = pending[n - 1];
        assert(rest.push(tx.confirmed_once_more()).drop_last() =~= rest);
    }
}

/// Law: a round over one deposit that is not rejected keeps it with one more
/// confirmation if it has too few, and credits it if it has enough.
pub proof fn law_deposit_is_credited_once_confirmed(tx: PendingTransaction)
    ensures
        ({
            let round = seq![tx];
            let verdict = seq![false];
            &&& !tx.is_confirmed() ==> credited(round, 1) == 0 && kept(round, verdict)
                == seq![tx.confirmed_once_more()]
            &&& tx.is_confirmed() ==> credited(round, 1) == tx.amount && kept(round, verdict)
                == Seq::<PendingTransaction>::empty()
        }),
{
    reveal_with_fuel(credited, 2);
    reveal_with_fuel(kept, 2);
    assert(seq![false].drop_last() =~= Seq::<bool>::empty());
    assert(kept(seq![tx], Seq::<bool>::empty()).push(tx.confirmed_once_more())
        =~= seq![tx.confirmed_once_more()]);
}

/// Law: as long as none of the deposits has enough confirmations, nothing is
/// credited.
pub proof fn law_only_confirmed_deposits_are_credited(
    pending: Seq<PendingTransaction>,
    n: nat,
)
    requires
        n <= pending.len(),
        forall|i: int| 0 <= i < n ==> !(#[trigger] pending[i]).is_confirmed(),
    ensures
        credited(pending, n) == 0,
    decreases n,
{
    if n > 0 {
        law_only_confirmed_deposits_are_credited(pending, (n - 1) as nat);
    }
}

/// Law: what a round credits is the sum of the amounts of those deposits that
/// have at least six confirmations.
pub proof fn law_credit_is_the_confirmed_sum(pending: Seq<PendingTransaction>, n: nat)
    requires
        n <= pending.len(),
    ensures
        credited(pending, n) == pending.take(n as int).filter(
            |tx: PendingTransaction| tx.confirmations >= 6,
        ).fold_left(0int, |sum: int, tx: PendingTransaction| sum + tx.amount),
    decreases n,
{
    reveal(Seq::filter);
    let confirmed = |tx: PendingTransaction| tx.confirmations >= 6;
    let add = |sum: int, tx: PendingTransaction| sum + tx.amount;
    if n > 0 {
        law_credit_is_the_confirmed_sum(pending, (n - 1) as nat);
        let some = pending.take(n as int);
        assert(some.drop_last() =~= pending.take(n - 1));
        let rest = pending.take(n - 1).filter(confirmed);
        if confirmed(some.last()) {
            assert(some.filter(confirmed) =~= rest.push(some.last()));
            assert(rest.push(some.last()).drop_last() =~= rest);
        }
    }
}

/// Law: what a round keeps are, in order, the deposits with fewer than six
/// confirmations that were not rejected, each with one confirmation more and the
/// same amount.
pub proof fn law_kept_are_the_survivors(pending: Seq<PendingTransaction>, rejected: Seq<bool>)
    requires
        rejected.len() <= pending.len(),
    ensures
        kept(pending, rejected) == Seq::new(rejected.len(), |i: int| i).fold_left(
            Seq::<PendingTransaction>::empty(),
            |kept: Seq<PendingTransaction>, i: int|
                if pending[i].confirmations < 6 && !rejected[i] {
                    kept.push(
                        PendingTransaction {
                            amount: pending[i].amount,
                            confirmations: (pending[i].confirmations + 1) as u8,
                        },
                    )
                } else {
                    kept
                },
        ),
{
    lemma_kept_prefix(pending, rejected, rejected.len());
    assert(rejected.take(rejected.len() as int) =~= rejected);
}

proof fn lemma_kept_prefix(pending: Seq<PendingTransaction>, rejected: Seq<bool>, n: nat)
    requires
        n <= rejected.len() <= pending.len(),
    ensures
        kept(pending, rejected.take(n as int)) == Seq::new(n, |i: int| i).fold_left(
            Seq::<PendingTransaction>::empty(),
            |kept: Seq<PendingTransaction>, i: int|
                if pending[i].confirmations < 6 && !rejected[i] {
                    kept.push(
                        PendingTransaction {
                            amount: pending[i].amount,
                            confirmations: (pending[i].confirmations + 1) as u8,
                        },
                    )
                } else {
                    kept
                },
        ),
    decreases n,
{
    if n > 0 {
        lemma_kept_prefix(pending, rejected, (n - 1) as nat);
        assert(rejected.take(n as int).drop_last() =~= rejected.take(n - 1));
        assert(Seq::new(n, |i: int| i).drop_last() =~= Seq::new((n - 1) as nat, |i: int| i));
    }
}

/// Law: a round begins with the deposits of its lender and knows nothing more. A
/// verdict is put behind the others, and so is a noticed deposit; nothing else of
/// the round changes by it.
pub proof fn law_round_takes_verdicts_and_notices(
    lender: Principal,
    btc_address: Seq<char>,
    pending: Seq<PendingTransaction>,
    round: RoundView,
    rejected: bool,
    amount: u64,
)
    ensures
        ({
            let new = RoundView::begin(lender, btc_address, pending);
            let decided = round.decide(rejected);
            let noticed = round.notice(amount);
            &&& new.lender == lender
            &&& new.btc_address == btc_address
            &&& new.pending == pending
            &&& new.rejected.len() == 0
            &&& new.noticed.len() == 0
            &&& decided.lender == round.lender
            &&& decided.btc_address == round.btc_address
            &&& decided.pending == round.pending
            &&& decided.rejected == round.rejected.push(rejected)
            &&& decided.noticed == round.noticed
            &&& noticed.lender == round.lender
            &&& noticed.btc_address == round.btc_address
            &&& noticed.pending == round.pending
            &&& noticed.rejected == round.rejected
            &&& noticed.noticed == round.noticed.push(amount)
        }),
{
}

/// Law: a round is settled exactly if every deposit has its verdict. It is
/// undecided exactly if one has none and the first of these has fewer than six
/// confirmations.
pub proof fn law_round_asks_only_about_unconfirmed(round: RoundView)
    ensures
        round.is_settled() <==> round.rejected.len() == round.pending.len(),
        round.is_undecided() <==> round.rejected.len() < round.pending.len()
            && round.pending[round.rejected.len() as int].confirmations < 6,
{
}

/// Law: a round moves on by itself over deposits with at least six confirmations
/// only. None of these counts as rejected, and nothing else of it changes.
pub proof fn law_round_moves_over_confirmed_only(round: RoundView, next: RoundView, i: int)
    requires
        round.skips_confirmed_to(next),
    ensures
        next.lender == round.lender,
        next.btc_address == round.btc_address,
        next.pending == round.pending,
        next.noticed == round.noticed,
        round.rejected.len() <= next.rejected.len() <= round.pending.len(),
        0 <= i < round.rejected.len() ==> next.rejected[i] == round.rejected[i],
        round.rejected.len() <= i < next.rejected.len() ==> round.pending[i].confirmations >= 6
            && !next.rejected[i],
{
    let known = round.rejected.len() as int;
    if 0 <= i < known {
        assert(next.rejected.take(known)[i] == next.rejected[i]);
    }
    if known <= i < next.rejected.len() {
        assert(round.pending[i].is_confirmed());
    }
}

} // verus!
