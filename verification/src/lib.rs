//! A verified framebuffer for terminal applications.
//!
//! The crate keeps a double-buffered grid of cells (text, foreground and
//! background colors, attributes, cursor) and serializes the difference
//! between two frames as a VT escape-sequence stream.

pub mod apperr;
pub mod attributes;
pub mod bitmap;
pub mod color;
pub mod cursor;
pub mod framebuffer;
pub mod helpers;
pub mod icu;
pub mod line_buffer;
pub mod sgr;
pub mod strutil;
pub mod unicode;

use vstd::prelude::*;

verus! {

} // verus!
