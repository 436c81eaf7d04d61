//! A ledger that records one winning post per half-hour period and issues a
//! single certificate token for each recorded winner, exactly once.
pub mod audit;
pub mod constants;
pub mod error;
pub mod laws;
pub mod ledger;
pub mod state;
