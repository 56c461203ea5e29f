//! Audits a development machine: a state model with a content fingerprint, rule
//! evaluation over it, command simulation, structural diffs and scan history.
pub mod analyze;
pub mod command;
pub mod config;
pub mod deps;
pub mod doctor;
pub mod encode;
pub mod environment;
pub mod fix;
pub mod graph;
pub mod history;
pub mod json;
pub mod json_diff;
pub mod models;
pub mod oracle;
pub mod order;
pub mod proposed;
pub mod remote;
pub mod risk;
pub mod risk_config;
pub mod scanner;
pub mod security;
pub mod state;
pub mod text;
pub mod validate;
