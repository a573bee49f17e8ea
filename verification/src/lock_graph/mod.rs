//! Lockfile graphs: reading package locators and comparing two graphs.
pub mod comparison;
pub mod extraction;
pub mod graph;
pub mod lockfile;
pub mod reachability;
