//! Version management for the zksolc compiler: which release serves which
//! platform, where its artifact lives, whether downloaded bytes are the
//! published ones, and which installed version is the global default.
//!
//! Everything here computes on plain values. Reading files, talking to the
//! network and prompting the user are left to the program built on top.

use vstd::prelude::*;

pub mod commands;
pub mod error;
pub mod hex_string;
pub mod install;
pub mod locator;
pub mod manifest;
pub mod platform;
pub mod releases;
pub mod store;
mod text;
pub mod version;

verus! {

/// The version of the version manager, as its commands report it.
pub const VERSION_MESSAGE: &'static str = "0.1.0";

} // verus!
