//! A software 2D rendering core: a packed ARGB color model, an owned pixel
//! buffer, and verified rasterization primitives (alpha compositing, clipped
//! rectangle fill, fixed-point line drawing, sprite blitting, gradient
//! synthesis, Catmull-Rom curve smoothing and waveform rendering).

pub mod blit;
pub mod color;
pub mod curve;
pub mod gradient;
pub mod image;
pub mod input;
pub mod line;
pub mod math;
pub mod rect;
pub mod tools;
pub mod wave;
