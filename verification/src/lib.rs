//! Verified core of a memory and code-intelligence server: index lifecycle,
//! export contracts and graph projections, learning-memory rules, bootstrap
//! selection, indexing-job decisions and code search helpers.
use vstd::prelude::*;

pub mod bootstrap;
pub mod code;
pub mod contracts;
pub mod graph;
pub mod handler;
pub mod indexing;
pub mod learning;
pub mod order;
pub mod projection;
pub mod search;
pub mod surfaces;
pub mod text;
pub mod tokens;
pub mod types;

verus! {
} // verus!
