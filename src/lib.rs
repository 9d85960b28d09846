//! Machine configurator: a cross-platform meta package manager.
//!
//! The library holds the package repository and installer registry models, the
//! layered variable environment and `{{name}}` templating, shell-safe command
//! construction, and the orchestration that turns an install, update, uninstall
//! or link-files request into an ordered list of steps.
use vstd::prelude::*;

pub mod error;
pub mod actions;
pub mod command;
pub mod counter;
pub mod doc;
pub mod env;
pub mod history;
pub mod host;
pub mod installer;
pub mod name;
pub mod packages;
pub mod paths;
pub mod plan;
pub mod strmap;
pub mod template;

verus! {

/// The reported name for the command-line application.
pub const APP_NAME: &'static str = "mcfg";

} // verus!
