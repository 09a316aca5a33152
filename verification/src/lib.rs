//! A ledger that two people keep together: signed tokens that carry a
//! session, the pairing by which a session comes about, entries that the
//! other person has to approve, and the balances that follow from them.
//!
//! - [`auth`]: the tokens, issued and verified under one secret.
//! - [`queries`]: the tables and the guarded updates that settle their rows.
//! - [`routes`]: what each request does to the ledger and what is answered.
//! - [`date`], [`decimal`], [`order`]: dates, decimal text, and the order of
//!   a listing.
//! - [`env`]: the settings of the service.
//!
//! The ledger is a value: whoever holds it decides where its rows are kept
//! and hands in the time of each request.

pub mod auth;
pub mod date;
pub mod decimal;
pub mod env;
pub mod order;
pub mod queries;
pub mod routes;
