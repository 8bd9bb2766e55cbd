//! Verified core of the relay-wright auto-write engine and its registry
//! services.

pub mod error;
pub mod text;
pub mod write_cycle;
pub mod rate_limiter;
pub mod arming;
pub mod write_audit;
pub mod writer;
pub mod rule_engine;
pub mod current_values;
pub mod support;
pub mod write_rule_conditions;
pub mod write_rules;
pub mod write_targets;
pub mod calendar;
pub mod monitor;
pub mod project;
pub mod registry;
pub mod engine;
pub mod hub;
pub mod rest;
pub mod compile;
pub mod write_audit_query;
pub mod poller;
pub mod project_replay;
pub mod rule_error_fields;
