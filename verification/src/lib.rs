//! The logic of an installer that is driven by versions and manifests.
//!
//! A remote manifest says which directories a version needs; an archive
//! table says which archives a full install fetches. This crate decides
//! what to fetch, which directories to create and in which order, how an
//! attempt goes on after each step, and how an installed client is
//! launched. It never touches the network or the disk itself: the caller
//! does what the crate asks for and reports back what it found.
//!
//! - [`segments`], [`tree`]: relative paths, and the set of paths that exist
//! - [`planner`]: which directories to create
//! - [`layout`]: where an install lives
//! - [`manifest`]: remote documents and their addresses
//! - [`archive`]: staging and fetching archives
//! - [`install`]: an install attempt as a state machine
//! - [`launch`]: starting an installed client
//! - [`desktop`]: registering the launcher with the desktop
//! - [`error`]: what can go wrong
//! - [`text`]: comparing, searching and replacing text

use vstd::prelude::*;

pub mod archive;
pub mod desktop;
pub mod error;
pub mod install;
pub mod launch;
pub mod layout;
pub mod manifest;
pub mod planner;
pub mod segments;
pub mod text;
pub mod tree;

verus! {

/// Name of the application directory below the local data directory.
pub const APP_NAME: &'static str = "Syntax";

} // verus!
