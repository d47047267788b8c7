//! The whole-number core of a progressive path tracer: the state machine
//! that bounds and ends every light path, the addressing of the pixel grid,
//! and the 8-bit display buffer with the pictures made from it. Rays,
//! colours and everything else that is measured in real numbers belong to
//! the caller.

pub mod renderer;
pub mod scene;
pub mod utility;
