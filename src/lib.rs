//! Synchronisation engine for a fixed catalog of game-client addons hosted on
//! a code-hosting service: version resolution, override-aware strategy
//! selection, archive extraction with a path-safety guard, and the
//! install/uninstall plan for the addon tree on disk.
pub mod types;
pub mod text;
pub mod catalog;
pub mod config;
pub mod toc;
pub mod remote;
pub mod layout;
pub mod archive;
pub mod install;
pub mod discovery;
