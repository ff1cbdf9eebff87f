//! Aggregation core of a repository activity digest: text budgeting, weighted
//! space allocation, chat request composition, tolerant parsing of structured
//! replies and per-contributor ledgers.
pub mod allocate;
pub mod budget;
pub mod chat;
pub mod forge;
pub mod ledger;
pub mod parse;
pub mod prompts;
pub mod text;
