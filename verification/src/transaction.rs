//! The borrower's transaction: what is taken as one, and how it is signed.
use vstd::prelude::*;

verus! {

/// Why an unsigned transaction is not accepted, if it is not: it must hold at
/// least one byte.
pub open spec fn tx_refusal(unsigned_tx: Seq<u8>) -> Option<Seq<char>> {
    if unsigned_tx.len() == 0 {
        Some("Unsigned transaction is empty"@)
    } else {
        None
    }
}

/// A transaction once signed: its bytes followed by the word "signed" in ASCII.
pub open spec fn signed(unsigned_tx: Seq<u8>) -> Seq<u8> {
    unsigned_tx + seq![0x73u8, 0x69u8, 0x67u8, 0x6eu8, 0x65u8, 0x64u8]
}

/// Accepts every transaction that is not empty.
pub fn validate_unsigned_tx(unsigned_tx: &Vec<u8>) -> (result: Result<(), String>)
    ensures
        match tx_refusal(unsigned_tx@) {
            None => result is Ok,
            Some(message) => result matches Err(error) && error@ == message,
        },
{
    if unsigned_tx.is_empty() {
        return Err("Unsigned transaction is empty".to_string());
    }
    Ok(())
}

/// Signs a transaction. Signing never fails.
pub fn sign_transaction(unsigned_tx: &Vec<u8>) -> (result: Result<Vec<u8>, String>)
    ensures
        result matches Ok(signed_tx) && signed_tx@ == signed(unsigned_tx@),
{
    let mut signed_tx: Vec<u8> = unsigned_tx.clone();
    let word: [u8; 6] = [0x73, 0x69, 0x67, 0x6e, 0x65, 0x64];
    signed_tx.extend_from_slice(&word);
    assert(signed_tx@ =~= signed(unsigned_tx@));
    Ok(signed_tx)
}

/// Law: a transaction is accepted exactly if it is not empty.
pub proof fn law_only_empty_transactions_are_refused(unsigned_tx: Seq<u8>)
    ensures
        tx_refusal(unsigned_tx) is None <==> unsigned_tx.len() > 0,
        unsigned_tx.len() == 0 ==> tx_refusal(unsigned_tx) == Some(
            "Unsigned transaction is empty"@,
        ),
{
}

/// Law: the signature is the word "signed", letter by letter, behind the bytes of
/// the transaction.
pub proof fn law_signature_is_the_word_signed(unsigned_tx: Seq<u8>, i: int)
    ensures
        0 <= i < unsigned_tx.len() ==> signed(unsigned_tx)[i] == unsigned_tx[i],
        signed(unsigned_tx).len() == unsigned_tx.len() + "signed"@.len(),
        0 <= i < "signed"@.len() ==> signed(unsigned_tx)[unsigned_tx.len() + i] as int
            == "signed"@[i] as int,
{
    reveal_strlit("signed");
    assert(0 <= i < 6 ==> i == 0 || i == 1 || i == 2 || i == 3 || i == 4 || i == 5);
}

/// Law: signing loses nothing. The unsigned bytes come first in the signed
/// transaction, and two transactions that are signed alike are alike.
pub proof fn law_signing_keeps_the_transaction(a: Seq<u8>, b: Seq<u8>)
    ensures
        signed(a).len() == a.len() + 6,
        signed(a).take(a.len() as int) == a,
        signed(a) == signed(b) ==> a == b,
{
    assert(signed(a).take(a.len() as int) =~= a);
    assert(signed(b).take(b.len() as int) =~= b);
}

} // verus!
