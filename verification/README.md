# loans_backend

The ledger of a Bitcoin lending service, verified with Verus, and the Internet
Computer canister that serves it.

- `src/state.rs` holds the ledger, `State`, and the requests it answers:
  registering, setting a balance, making and accepting offers, following up
  loans and deposits, and the queries.
- `src/model.rs` says mathematically what the ledger holds and how each request
  changes it. The contracts in `state.rs` are stated over it.
- `src/laws.rs` states and proves what holds of the ledger as a whole: that
  every ledger which grew from the empty one is consistent, that an offer is
  accepted once, that a rejection undoes the payment, that funds are conserved.
- `src/deposits.rs` is one round over the pending deposits of a lender, as a
  state machine that asks for verdicts and is told them.
- `src/lenders.rs`, `src/records.rs`: the map of lenders and the records.
- `src/ltv.rs`, `src/address.rs`, `src/transaction.rs`, `src/chance.rs`:
  loan-to-value ratios, addresses, transactions, and what a random byte decides.
- `src/principal.rs` declares `candid::Principal` and its equality, the only
  things the proofs take on trust from another crate.
- `app/` is the canister: entry points, timers, randomness and printing.
- `tests/` runs the library on concrete values.
