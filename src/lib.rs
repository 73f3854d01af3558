//! The verified core of a progressive path tracer: the per-thread random
//! number source, the mapping from viewport pixels to camera rays, the
//! decisions of camera control, structural validation of scenes and the
//! frame-by-frame accumulation of traced radiance into a display image.
pub mod camera;
pub mod format;
pub mod random;
pub mod renderer;
pub mod scene;
