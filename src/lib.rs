//! The integer and structural core of a Whitted-style ray tracer: packed
//! `0x00RRGGBB` images and their comparison, the scene-file grammar, the
//! assembly of a frame from independently rendered rows, and the dispatch
//! geometry of the compute backend.
//!
//! Every function here is verified. Numeric scene fields (coordinates,
//! colours, the field of view) are carried as the text in which the scene
//! file wrote them; turning them into floating-point values is left to the
//! caller.

pub mod imgcomparator;
pub mod scene;
pub mod gpu;
