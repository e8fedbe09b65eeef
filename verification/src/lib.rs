//! Client-side install engine for a digital storefront: manifest parsing,
//! content-digest verification, chunked fetch planning with retry, install
//! and update orchestration, update discovery, and launch command building.
//!
//! The engine itself is pure: network and disk work happens outside it, and
//! the engine decides what to fetch, what to write, what to delete and what
//! to report, with contracts proved over a model of the file tree.

use vstd::prelude::*;

pub mod catalog;
pub mod digest;
pub mod fetch;
pub mod install;
pub mod launch;
pub mod manifest;
pub mod session;
pub mod update;
pub mod verify;

verus! {

} // verus!
