//! Symbolic music timelines rendered to audio.
//!
//! The crate models a musical score (parts, measures, notes, directions) after
//! the MusicXML vocabulary, serializes it to a MusicXML document, and turns a
//! part's timeline into timed note events for a sample-based renderer.  Time
//! on the rendering side is measured in whole samples at a given sample rate,
//! so every contract here is exact integer arithmetic; the synthesis layer
//! that turns events into sample values lives outside the verified core.

#![verifier::rlimit(100)]

pub mod numfmt;
pub mod events;
pub mod graph;
pub mod music;
pub mod musescore;
pub mod xml;

use vstd::prelude::*;

verus! {

/// Immutable configuration used while rendering a part.
#[derive(Clone)]
pub struct RenderContext {
    /// Output sample rate in Hz; must be positive for rendering to be defined.
    pub sample_rate: u32,
}

} // verus!
