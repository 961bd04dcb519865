//! What the simulated Bitcoin network does, given a random byte.
use vstd::prelude::*;

verus! {

/// The amount of the deposit that a random byte brings, if it brings one.
pub open spec fn deposit_of(random_value: u8) -> Option<u64> {
    if random_value % 2 == 0 {
        Some((random_value % 100 + 1) as u64)
    } else {
        None
    }
}

/// Whether a random byte confirms the transaction of a loan.
pub open spec fn confirms(random_value: u8) -> bool {
    random_value % 20 != 0
}

/// Whether a random byte rejects a pending deposit.
pub open spec fn rejects(random_value: u8) -> bool {
    random_value % 20 == 0
}

/// The amount of a new deposit, which comes with a chance of 50%: the even bytes
/// bring one of 1 to 100, the odd bytes bring none.
pub fn check_for_new_transactions(random_value: u8) -> (amount: Option<u64>)
    ensures
        amount == deposit_of(random_value),
        random_value % 2 == 0 ==> amount == Some((random_value % 100 + 1) as u64),
        random_value % 2 != 0 ==> amount is None,
        amount matches Some(amount) ==> 1 <= amount <= 100,
{
    if random_value % 2 == 0 {
        Some((random_value as u64 % 100) + 1)
    } else {
        None
    }
}

/// Whether the transaction of a loan is confirmed, which is so with a chance
/// of 95%: it is unless the byte is a multiple of twenty.
pub fn check_transaction_status(random_value: u8) -> (confirmed: bool)
    ensures
        confirmed == confirms(random_value),
        confirmed == (random_value % 20 != 0),
{
    random_value % 20 != 0
}

/// Whether a pending deposit is rejected, which is so with a chance of 5%: it
/// is when the byte is a multiple of twenty.
pub fn is_transaction_rejected(random_value: u8) -> (rejected: bool)
    ensures
        rejected == rejects(random_value),
        rejected == (random_value % 20 == 0),
{
    random_value % 20 == 0
}

/// How many of the bytes below `n` are multiples of `k`.
pub open spec fn multiples_below(k: int, n: nat) -> int
    decreases n,
{
    if n == 0 {
        0
    } else {
        multiples_below(k, (n - 1) as nat) + if (n - 1) % k == 0 {
            1int
        } else {
            0
        }
    }
}

/// How many of the bytes below `n` have a property.
pub open spec fn count_below(property: spec_fn(u8) -> bool, n: nat) -> int
    decreases n,
{
    if n == 0 {
        0
    } else {
        count_below(property, (n - 1) as nat) + if property((n - 1) as u8) {
            1int
        } else {
            0
        }
    }
}

/// Law: of the 256 bytes, 128 bring a deposit, 13 reject one, and 243 confirm a
/// loan. To the nearest percent these are 50%, 5% and 95%.
pub proof fn law_chances()
    ensures
        count_below(|b: u8| deposit_of(b) is Some, 256) == 128,
        count_below(|b: u8| rejects(b), 256) == 13,
        count_below(|b: u8| confirms(b), 256) == 243,
        multiples_below(2, 256) == 128,
        multiples_below(20, 256) == 13,
        256 - multiples_below(20, 256) == 243,
{
    lemma_counts(256);
    lemma_multiples(256);
}

proof fn lemma_multiples(n: nat)
    ensures
        multiples_below(2, n) == (n + 1) / 2,
        multiples_below(20, n) == (n + 19) / 20,
    decreases n,
{
    if n > 0 {
        lemma_multiples((n - 1) as nat);
    }
}

proof fn lemma_counts(n: nat)
    requires
        n <= 256,
    ensures
        count_below(|b: u8| deposit_of(b) is Some, n) == (n + 1) / 2,
        count_below(|b: u8| rejects(b), n) == (n + 19) / 20,
        count_below(|b: u8| confirms(b), n) == n - (n + 19) / 20,
    decreases n,
{
    if n > 0 {
        lemma_counts((n - 1) as nat);
    }
}

/// Law: every deposit is of 1 to 100. Of two neighbouring bytes exactly one brings
/// a deposit; a byte that is two greater brings two more, until the amounts start
/// over after a hundred bytes. Byte zero brings one.
pub proof fn law_deposits_are_spread_evenly(b: u8)
    ensures
        deposit_of(b) matches Some(amount) ==> 1 <= amount <= 100,
        b < 255 ==> (deposit_of(b) is Some <==> deposit_of((b + 1) as u8) is None),
        b < 98 && deposit_of(b) is Some ==> deposit_of((b + 2) as u8) is Some && deposit_of(
            (b + 2) as u8,
        )->0 == deposit_of(b)->0 + 2,
        b <= 155 ==> deposit_of((b + 100) as u8) == deposit_of(b),
        deposit_of(0) == Some(1u64),
{
}

/// Law: a byte confirms exactly if it does not reject. Of any twenty bytes in a
/// row exactly one rejects, and zero does.
pub proof fn law_verdicts_are_spread_evenly(a: u8, b: u8)
    ensures
        confirms(a) <==> !rejects(a),
        rejects(0),
        a < b < a + 20 ==> !(rejects(a) && rejects(b)),
        b == a + 20 ==> rejects(a) == rejects(b),
{
}

} // verus!
