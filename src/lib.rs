//! Data model and per-frame reconciliation for a sphere scene holding
//! user-edited axis-intercept triangles ("vectors").
//!
//! The library owns the editable state (records and scene settings) and
//! decides, each frame, which rendered objects to create, release or update.
//! A renderer performs those commands; this crate never touches it directly.
use vstd::prelude::*;

pub mod color;
pub mod geometry;
pub mod text;
pub mod registry;
pub mod laws;

verus! {

} // verus!
