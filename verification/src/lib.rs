//! Rules of a master-data (MDM) service.

pub mod activation;
pub mod activation_laws;
pub mod codegen;
pub mod ctx;
pub mod distribution;
pub mod flow;
pub mod handlers;
pub mod json;
pub mod lifecycle;
pub mod match_algo;
pub mod match_exact;
pub mod match_laws;
pub mod match_scores;
pub mod merge;
pub mod merge_effects;
pub mod merge_laws;
pub mod merge_notes;
pub mod merge_parts;
pub mod merge_record;
pub mod merge_run_laws;
pub mod merge_taken;
pub mod merge_trace;
pub mod merge_undo;
pub mod order;
pub mod outside;
pub mod service_laws;
pub mod sql;
pub mod store;
pub mod survivorship;
pub mod text;
pub mod text_laws;
pub mod unmerge;
