//! A front end over several package managers: the system package manager with its
//! formulas, casks and taps, and the Node package managers. The library holds the
//! decisions: how a package token is read and resolved, which backend call to make with
//! which arguments, how a snapshot of the installed state is taken and replayed, and how
//! the program replaces itself with a newer release.

pub mod backend;
pub mod backup;
pub mod config;
pub mod homebrew;
pub mod node;
pub mod package_manager;
pub mod package_spec;
pub mod platform;
pub mod self_update;
pub mod text;
