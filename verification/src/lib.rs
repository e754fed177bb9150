//! The decisions of a Focal node: deployment plans and their application,
//! evidence custody, directory bootstrap and the replicated session fleet.
pub mod access;
pub mod barrier;
pub mod codec;
pub mod config;
pub mod deployment;
pub mod directory;
pub mod embedded;
pub mod evidence;
pub mod fault;
pub mod fleet;
pub mod formats;
pub mod hashing;
pub mod ids;
pub mod nodes;
pub mod operation;
pub mod text;
