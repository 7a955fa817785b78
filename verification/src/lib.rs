//! Discovery, resolution and rewriting of version-pinned dependencies
//! declared in infrastructure sources.
//!
//! The crate scans Terraform-style module blocks and Helm chart manifests
//! for dependency declarations, resolves the latest published version of
//! each from the matching registry protocol, compares versions under
//! semantic-version precedence, and computes the textual rewrites that
//! apply an approved update.  All decision logic lives here, verified;
//! the surrounding binary performs file and network I/O and hands plain
//! values in and out.

pub mod bump;
pub mod cli;
pub mod commands;
pub mod config;
pub mod context;
pub mod drift;
pub mod strutil;
pub mod techno;
pub mod version;
