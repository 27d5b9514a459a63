//! Verified core of the Crab2D editor and runtime: the decisions, text
//! handling and small state machines behind the user interface.
use vstd::prelude::*;

pub mod text;
pub mod paths;
pub mod editor_assets;
pub mod runtime_assets;
pub mod tiles;
pub mod theme;
pub mod status;
pub mod workspace;
pub mod editor_types;
pub mod asset_browser;
pub mod scene_view;
pub mod editor_actions;
pub mod runtime;
pub mod components;

verus! {

/// Severity attached to a status message and to a line of the output log.
#[derive(Debug, Clone, Copy, PartialEq, Eq)]
pub enum StatusTone {
    Info,
    Success,
    Warning,
    Error,
}

} // verus!
