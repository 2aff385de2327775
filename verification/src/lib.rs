//! Core logic of the EnCode editor and launcher: plugin and project records,
//! text conversions, theme assets, pyright diagnostics and the command table.
use vstd::prelude::*;

pub mod app_type;
pub mod commands;
pub mod diag_status;
pub mod diagnostics;
pub mod editor;
pub mod general_data;
pub mod launcher;
pub mod plugins;
pub mod report;
pub mod text;
pub mod theme;

verus! {

} // verus!
