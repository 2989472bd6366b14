//! A social-card renderer: one line of text becomes a fixed-size
//! raster image.
//!
//! The pipeline has five stages. The template engine substitutes the
//! text into a vector-graphics template ([`template`]); remote image
//! references found in the document are resolved through a caller-driven
//! state machine ([`resolve`]) and bound back into the document
//! ([`scan`]); the bound document becomes a vector scene ([`scene`]);
//! the scene is painted into a pixel buffer of the fixed card
//! dimensions and losslessly encoded ([`raster`]). [`pipeline`] wires
//! the stages; [`tracer`] records stage timings and touches nothing
//! else.

use vstd::prelude::*;

pub mod base64;
pub mod bytes;
pub mod payload;
pub mod pipeline;
pub mod raster;
pub mod resolve;
pub mod scan;
pub mod scene;
pub mod template;
pub mod tracer;

verus! {

/// Width of the output pixel buffer, in pixels.
pub const WIDTH: u32 = 1200;

/// Height of the output pixel buffer, in pixels.
pub const HEIGHT: u32 = 630;

} // verus!
