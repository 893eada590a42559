//! A payment gateway engine: it reconciles storefront orders with wallet
//! payments and drives every order through its lifecycle from the credit
//! that has accumulated on the payer's account.

pub mod status;
pub mod outcome;
pub mod text;
pub mod records;
pub mod totals;
pub mod ledger;
pub mod store;
pub mod matcher;
pub mod events;
pub mod steps;
pub mod flow;
pub mod errors;
pub mod database;
pub mod journal;
pub mod laws;
pub mod transfers;
pub mod peers;
pub mod profile;
pub mod wallets;
pub mod retry;
