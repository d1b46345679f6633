//! A local package manager's transaction engine: the dependency resolver that
//! turns install, remove and update requests into an ordered, duplicate-free
//! list of actions, and the decisions of the build and commit pipeline that
//! carries those actions out.

pub mod package;
pub mod ordered_set;
pub mod action;
pub mod db;
pub mod package_finder;
pub mod test_helpers;
pub mod version;
pub mod commands;
pub mod progress;
pub mod pipeline;
pub mod config;
pub mod default_package_finder;
