//! Toolchain-version management: version ordering, release selection from a
//! release index, and the install layout and download accounting around it.

pub mod text;
pub mod version;
pub mod error;
pub mod catalog;
pub mod index;
pub mod platform;
pub mod install;
