//! A fixed-timestep loop driver: it accumulates elapsed wall-clock time and
//! releases a deterministic number of fixed-size simulation update steps per
//! rendered frame, handing the renderer the leftover fraction of a step for
//! interpolation.

/// Per-frame input-event classification for the driver's host loop.
pub mod input;
/// Multi-frame runs of the driver: their model and the laws that hold of
/// every run.
pub mod run;
/// The success test for a compiled shader's reported status.
pub mod shader;
/// The accumulator ("lag") model and the loop driver itself.
pub mod timestep;
