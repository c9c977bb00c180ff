//! Reconciles a machine's UEFI boot order with the full set of stored boot
//! variables and renders a deterministic, line-oriented report of every
//! known boot entry.

pub mod entry;
pub mod render;
pub mod report;
pub mod theorems;
