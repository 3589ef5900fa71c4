//! Frames for a 16 by 16 RGB pixel matrix driven over TCP: the frame buffer
//! and its drawing primitives, the effects that fill it, the loaders that
//! build recorded sequences from decoded images, the wire packets, and the
//! decisions of the device session (discovery, acknowledgements, pacing).
use vstd::prelude::*;

pub mod canvas;
pub mod packet;
pub mod effects;
pub mod session;
pub mod loader;

verus! {

} // verus!
