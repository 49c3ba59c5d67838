//! Verified core of a small 2D renderer: the pipeline-key layout used to
//! specialize the colored-mesh pipeline, the queueing and extraction
//! decisions of the colored-mesh render pass, the star mesh description and
//! the window-placement reading.
//!
//! Everything here works on plain values; the engine glue that reads the
//! world and spawns entities lives beside the crate, in `app/`.

pub mod mesh2d_key;
pub mod colored_mesh2d;
pub mod window;
