//! Inserts a filament-change pause into slicer G-code after the layer that
//! ends at a chosen height.
//!
//! - `height`: pause heights as exact decimals and their rounding to
//!   thousandths of a millimetre.
//! - `classify`: what one line announces (a layer end, a temperature setting).
//! - `inject`: the per-line decision and the pass over a whole file.
//! - `template`: the text of the pause block.
//! - `commit`: the file operations that commit or discard a rewrite.
//! - `laws`: what holds of a second pass over a rewritten file.
use vstd::prelude::*;

pub mod classify;
pub mod commit;
pub mod height;
pub mod inject;
pub mod laws;
pub mod template;
pub mod text;

verus! {

} // verus!
