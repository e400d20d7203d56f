//! A declarative HTTP endpoint test runner's verified core.
//!
//! The crate turns a configuration tree of runs and requests into a flat,
//! fully-resolved request plan, substitutes `{{name}}` placeholders against
//! scoped variable namespaces, evaluates structural assertions over JSON
//! response bodies, and aggregates per-request outcomes into per-run and
//! whole-test results.  Transport, terminal rendering and file handling live
//! outside this crate; everything here is pure logic with contracts.

pub mod alist;
pub mod assertions;
pub mod config;
pub mod context;
pub mod engine;
pub mod env;
pub mod error;
pub mod jsonval;
pub mod outcome;
pub mod parse;
pub mod plan;
pub mod results;
pub mod rex;
pub mod template;
pub mod text;
pub mod vars;

pub use alist::AList;
pub use alist::IntoIter;
