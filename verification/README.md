# node_store

Building blocks of a lightning node that keeps state for others while they are offline, verified
with Verus.

- `src/om_mailbox.rs`: a mailbox that keeps the latest onion messages of a bounded number of peers.
- `src/static_invoice_store.rs`: where static invoices are stored, and how requests for them and
  changes to them are answered. `src/hex_utils.rs` writes the names under which they are stored.
- `src/persistence.rs`: the state of a store whose changes are queued by operations and committed
  in atomic batches.
- `src/errors.rs`: the kinds of the errors that the library raises.
- `src/*_laws.rs`: what holds of each of these over several calls, as proved statements.
- `src/outside.rs`: everything that is taken from the `bitcoin` and `lightning` crates, and what is
  relied on of it.
- `app/`: the locks, the waiting and the access to the key-value store around the library. A node
  supplies its own rate limiter and its own store.
