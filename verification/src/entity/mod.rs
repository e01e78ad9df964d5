//! The data model of a problem project: the manifest and its entries, and the
//! pipeline engine that drives generators, solutions and validators.

pub mod config;
pub mod gen;
pub mod project;
pub mod sol;
pub mod testcase;
pub mod val;
