//! Rule storage, rule evaluation and request handling for the rule-taker /
//! rule-reserve backend, with their contracts proved by Verus.
pub mod daemon;
pub mod db;
pub mod ingest;
pub mod invoke;
pub mod json;
pub mod mult_sock;
pub mod outside;
pub mod path;
pub mod rs;
pub mod rule;
pub mod rules;
pub mod ruleset;
pub mod select;
pub mod server;
pub mod submissions;
pub mod text;
