# geyser_filter

Subscription filters for a stream of ledger notifications, written in Verus.

A subscriber states in a request which accounts, slots, transactions, entries and blocks it wants
to see. The request becomes a `Filter`, which tells for every message which updates the subscriber
gets. A `DeshredFilter` does the same for transactions that are received and not run yet. Rules
made from filters go into gates, which turn notifications away early, before a message is made.

- `src/request.rs`, `src/message.rs`, `src/update.rs`: what comes in and what goes out
- `src/limits.rs`, `src/name.rs`, `src/error.rs`: what a request may ask for, and how it is refused
- `src/accounts.rs`, `src/accounts_state.rs`, `src/slots.rs`, `src/transactions.rs`,
  `src/deshred_transactions.rs`, `src/entries.rs`, `src/blocks.rs`: filters of each kind
- `src/filter.rs`, `src/deshred_filter.rs`: the filters of a subscriber
- `src/data_slice.rs`: which parts of an account's data an update carries
- `src/gate.rs`, `src/account_gate.rs`, `src/transaction_gate.rs`, `src/deshred_gate.rs`: gates
- `src/filter_laws.rs`, `src/gate_laws.rs`: what holds of all filters and gates
- `src/bindings.rs`: calls into other crates, with what is relied on of each
- `app/`: gates that threads share, errors with messages, and the validator's notifications

Filters are specified by what they demand. `FilterView::requested` says what a request asks for or
why it is refused; `FilterView::updates` says which updates a message gives. The laws tie the two
to the gates: a gate for transactions lets exactly those through for which a subscriber gets an
update, and a gate for accounts keeps none of those back.
