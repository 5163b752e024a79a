//! A software volume renderer in fixed-point arithmetic: an orbiting camera,
//! a transfer function with a cached colour table, and a ray caster that
//! paints a scalar volume, or a single slice, into an RGBA framebuffer.
//!
//! Every scalar is an integer that counts units of `1 / fixed::ONE`. What
//! needs floating point, the rotation of the camera and its matrices, is
//! left to the caller, who hands the renderer the inverse of the view and
//! projection. So is the decoding of a file: the caller drives the decoder,
//! and `tiff_loader::PageWalk` decides what is made of its answers.

pub mod camera;
pub mod fixed;
pub mod geometry;
pub mod renderer;
pub mod tiff_loader;
pub mod transfer_function;
pub mod viewer;
pub mod volume;

pub use viewer::VolumeViewer;
pub use volume::VolumeData;
