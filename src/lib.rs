//! Idempotent delivery of outstanding assignments: a dedup ledger that decides
//! which fetched items are new, the chunked plans used to query and update it,
//! and the decisions of one fetch, filter, deliver and record run.
pub mod chunk;
pub mod d1;
pub mod lark;
pub mod laws;
pub mod ledger;
pub mod model;
pub mod routes;
pub mod run;
pub mod table;
pub mod telegram;
pub mod text;
pub mod ticktick;
pub mod ucloud;
