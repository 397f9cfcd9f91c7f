pub mod pixel;
pub mod sampling;
pub mod framebuffer;
pub mod refinement;
pub mod params;
pub mod canvas;
