//! Verified core of a JavaScript package-manager and runtime migration planner.
pub mod apply;
pub mod capability;
pub mod catalog;
pub mod checks;
pub mod command;
pub mod compare;
pub mod cleanup;
pub mod detect;
pub mod digest;
pub mod doctor;
pub mod executable;
pub mod fingerprint;
pub mod guidance;
pub mod inspect;
pub mod inspection;
pub mod json;
pub mod lock_graph;
pub mod model;
pub mod plan;
pub mod policy;
pub mod project_ir;
pub mod runtime;
pub mod sorted;
pub mod store;
pub mod text;
pub mod transaction;
