//! Core logic of a local helper service that locates an installed game
//! client, patches its external JSON settings file with a structured
//! configuration profile or a free-form flag overlay, and keeps a chain of
//! timestamped backups of that file.
//!
//! All filesystem, registry and network access lives outside this crate; the
//! functions here work on plain values (file texts, directory listings,
//! timestamps) handed in by the boundary layer.

use vstd::prelude::*;

pub mod api;
pub mod detector;
pub mod installer;
pub mod document;
pub mod flags_catalog;
pub mod jsonio;
pub mod ledger;
pub mod models;
pub mod profiles;
pub mod projector;
pub mod scalar;
pub mod store;
pub mod text;

verus! {

/// The failure kinds of the subsystem.
///
/// `NotFound`: no installation, snapshot or profile by that identity.
/// `Unreachable`: a root exists conceptually but cannot be read.
/// `Malformed`: a file exists but cannot be parsed as a settings document.
/// `IoFailure`: a write, copy or remove failed.
#[derive(Clone, Copy, Debug, PartialEq, Eq, Structural)]
pub enum SettingsError {
    NotFound,
    Unreachable,
    Malformed,
    IoFailure,
}

impl SettingsError {
    /// A short stable label for each failure kind, for boundary-layer messages.
    pub fn label(&self) -> (r: &'static str)
        ensures
            *self == SettingsError::NotFound ==> r@ == "not found"@,
            *self == SettingsError::Unreachable ==> r@ == "unreachable"@,
            *self == SettingsError::Malformed ==> r@ == "malformed"@,
            *self == SettingsError::IoFailure ==> r@ == "io failure"@,
    {
        match self {
            SettingsError::NotFound => "not found",
            SettingsError::Unreachable => "unreachable",
            SettingsError::Malformed => "malformed",
            SettingsError::IoFailure => "io failure",
        }
    }
}

} // verus!
