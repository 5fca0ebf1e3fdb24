//! Workspace Atlas: the verified core of a local code-intelligence catalogue.
pub mod application_cursor;
pub mod application_error;
pub mod application_laws;
pub mod broker;
pub mod broker_laws;
pub mod catalogue;
pub mod catalogue_laws;
pub mod catalogue_route;
pub mod cli;
pub mod compiled_context;
pub mod config;
pub mod config_json;
pub mod context_application;
pub mod context_capabilities;
pub mod context_dispatch;
pub mod context_execution;
pub mod context_ir;
pub mod context_ir_json;
pub mod context_metrics;
pub mod context_route;
pub mod context_yield;
pub mod deep_context_ir;
pub mod deep_context_ir_json;
pub mod deep_outcome;
pub mod deep_outcome_laws;
pub mod digest;
pub mod doctor;
pub mod document_laws;
pub mod envelope_laws;
pub mod error;
pub mod execution_laws;
pub mod json;
pub mod json_tree;
pub mod light_outcome;
pub mod light_outcome_json;
pub mod light_outcome_laws;
pub mod metrics_laws;
pub mod naming;
pub mod paths;
pub mod request_laws;
pub mod routing_laws;
pub mod sorted;
pub mod text;
pub mod text_laws;
pub mod unregister;
