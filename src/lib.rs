//! Escape-time rendering of the Mandelbrot set into RGBA8 pixel buffers.
//!
//! The library holds the integer side of rendering: validating a frame,
//! assembling the pixel buffer from per-pixel escape samples under a color
//! policy, packing the compute kernel's parameter block, decoding shader words,
//! reading back device pixels, and the device session's state machine. The
//! floating-point evaluation of a sample and of its smooth color is supplied
//! by the caller.

pub mod frame;
pub mod marshal;
pub mod pixels;
pub mod session;
