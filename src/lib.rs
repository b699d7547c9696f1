//! Core of a small immediate-mode renderer: exact camera and projection
//! arithmetic, an animation clock, caches for shader programs and uploaded
//! geometry, and the per-frame state machine that orders clears, draws and
//! presents. Everything that touches the GPU or the window is left to the
//! embedding program, which hands plain values in and performs the actions
//! handed back.
use vstd::prelude::*;

pub mod clock;
pub mod error;
pub mod frame;
pub mod geometry;
pub mod pipeline;
pub mod transform;

verus! {

} // verus!
