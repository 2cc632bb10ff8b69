//! Correction of radial lens distortion: the discrete kernel.
//!
//! A lens displaces every image point along the line through the distortion
//! center, by a factor that depends only on the point's distance from that
//! center. The factor is read from a lookup table of magnification samples
//! taken at uniform radius steps. The transform itself is arithmetic on real
//! coordinates and is left to the caller. This crate holds everything around
//! it that is decided on integers:
//!
//! * [`table`]: which two samples of the lookup table serve a radius;
//! * [`geometry`]: image sizes, truncated pixel coordinates and visibility;
//! * [`shape`]: validation of buffer shapes before anything is written;
//! * [`image`]: the three-dimensional byte arrays that hold images;
//! * [`remap`]: the nearest-neighbour remap of a whole image.
//!
//! Every function is proved against its contract, but for the three in
//! [`image`] that call into `ndarray`: their contracts are taken on trust.

pub mod error;
pub mod geometry;
pub mod image;
pub mod remap;
pub mod shape;
pub mod table;
