//! Keeps standalone sibling copies of monorepo subtrees in step with
//! filtered views of the monorepo content.

pub mod config;
pub mod registry;
pub mod filter;
pub mod sync;
