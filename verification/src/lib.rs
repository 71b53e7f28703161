//! The deterministic core of a small 2D platformer engine: keyboard input
//! state, the fixed-timestep simulation clock, surface sizing and the text
//! map format. Rendering, windowing and the floating-point physics live in
//! the application around this library.

pub mod input;
pub mod clock;
pub mod surface;
pub mod map;
