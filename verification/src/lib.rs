//! An interactive scene of lines, rectangles, circles and texts: which shape
//! the pointer is on, which is selected, which is dragged, and which are to
//! be repainted in a frame.
//!
//! All coordinates are whole numbers of one unit of the drawing surface, and
//! a rotation is held as the cosine and sine of its angle in fixed point, so
//! every hit test is exact.

pub mod arith;
pub mod canvas;
pub mod context;
pub mod event;
pub mod geometry;
pub mod hit_laws;
pub mod node;
pub mod scene_laws;
pub mod style;
