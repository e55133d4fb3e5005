//! A small ledger of personal finances, kept as a list of
//! subject / predicate / object triples, and the rules that read and
//! change it.

pub mod term;
pub mod store;
pub mod checks;
pub mod owners;
pub mod numbers;
pub mod edit;
pub mod report;
pub mod laws;
pub mod properties;
