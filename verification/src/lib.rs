//! Decision logic of a build-and-publish daemon that follows git branches.
//!
//! The daemon watches a list of targets (a repository, a branch and the
//! executables expected from it). Whenever the tip of a branch moves it
//! rebuilds the project and publishes the fresh binaries. Everything that
//! touches the outside world (git, the build tool, the file system, HTTP)
//! is driven by the caller; this crate decides what has to happen next and
//! proves that those decisions follow the rules stated in the contracts.

pub mod artifact;
pub mod command;
pub mod commit;
pub mod config;
pub mod cycle;
pub mod executables;
pub mod monitor;
pub mod provision;
pub mod server;
pub mod text;
pub mod upload;

pub use config::repository_name;
