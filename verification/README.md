# globe_wallet

A smart wallet and its token wrapper for a ledger of contracts, written in Rust
and verified with Verus.

The wallet has an admin whose role its guardians can recover, a list of assets
for each user, daily spend limits per asset, and payments that go through the
token wrapper. The token wrapper moves tokens out of an owner's balance by
allowances that the owner has granted.

## Layout

- `src/wallet/model.rs` and `src/wrapper/model.rs` say what every operation does:
  from the state before it to the state after it, or to the error with which it
  is refused.
- `src/wallet/` and `src/wrapper/` hold the operations, each proved to do what
  the model says. A refused operation changes nothing.
- `src/wallet/laws/` and `src/wrapper/laws.rs` prove what holds of the contracts
  as a whole: the invariants of every state that can be reached, who can change
  what, when a recovery or an upgrade can happen, how spends add up over a day,
  and what a payment does to an allowance. A history is a list of calls, each at
  its own ledger and each granted or refused; what holds over time is stated of
  every history.
- `src/host.rs` holds lists and indexes of addresses in the ledger host's own
  collections. What it says of those collections is taken from their
  documentation and is not proved.
- `src/table.rs` is a keyed table of entries, `src/asset.rs` says when two assets
  are the same, `src/address.rs` has addresses and code hashes, `src/lists.rs`
  says what a list holds.
- `app/` puts both contracts on the ledger: storage, signatures, lifetimes,
  events, and the calls from the wallet to the wrapper and from the wrapper to a
  token.
- `tests/` runs the library, with tokens of a test ledger where tokens move.

## Calls that leave a contract

A payment and a transfer come in two halves. `GlobeWallet::send` makes every
check and every change to the wallet's own state, and returns the call to make on
the token wrapper. `GlobeWallet::settle_send` ends the payment by what came of
that call; where the tokens did not move, it leaves the state as it was before
the payment. `TokenWrapper::transfer_from` does the same for the call on the
token contract.
