//! Rendering pipeline and display directives for a fixed-resolution e-ink terminal.
//!
//! A page is composed from templates ([`template`]), rendered by a page session
//! that a [`page::RenderJob`] steers, reduced to black and white ([`raster`],
//! [`render`]) and written as a lossless raster and as a packed one-bit bitmap
//! ([`bitmap`]). Per display request, [`display`] decides which of the two files a
//! device is served, by the firmware it reports ([`firmware`]).

pub mod api;
pub mod bitmap;
pub mod device;
pub mod display;
pub mod firmware;
pub mod page;
pub mod raster;
pub mod render;
pub mod template;
