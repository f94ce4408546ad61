//! Verified core of a click-through overlay that scatters labelled target
//! rectangles over the screen and clicks the dot of the rectangle the user
//! picks.

pub mod constants;
pub mod color;
pub mod geometry;
pub mod rng;
pub mod layout;
pub mod rect;
pub mod overlay;
pub mod screenshot;
