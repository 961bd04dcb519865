//! The ledger of a Bitcoin lending service.
//!
//! Lenders register, are given a Bitcoin address, and offer loans. A borrower
//! takes up an offer against collateral in runes: the transaction is signed and
//! sent, the lender's balance is debited, and the loan waits for its transaction
//! to be confirmed or rejected. Deposits of lenders become part of their balance
//! once they have enough confirmations.
//!
//! [`state::State`] answers the requests. What it holds and how each request
//! changes it is stated in [`model`]; [`effects`] says of each request which values
//! it changes and which it leaves alone, and [`laws`] what follows for the ledger
//! as a whole.
pub mod address;
pub mod chance;
pub mod deposits;
pub mod effects;
pub mod laws;
pub mod lenders;
pub mod ltv;
pub mod model;
pub mod principal;
pub mod records;
pub mod state;
pub mod transaction;
