//! Building blocks of a lightning node that keeps state for peers which are not online: a bounded
//! mailbox of onion messages, the store of static invoices, and the batching of store writes into
//! atomic commits.
pub mod errors;
pub mod hex_utils;
pub mod om_mailbox;
pub mod om_mailbox_laws;
pub mod outside;
pub mod persistence;
pub mod persistence_laws;
pub mod static_invoice_store;
pub mod static_invoice_store_laws;
