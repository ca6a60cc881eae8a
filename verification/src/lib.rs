//! Verified core of the eoka package manager: version ordering, mirror
//! selection, integrity checks, blueprint handling and the decisions taken
//! while installing, upgrading and removing packages.

pub mod text;
pub mod version;
pub mod package;
pub mod mirror;
pub mod integrity;
pub mod install;
pub mod removal;
pub mod cli;
