//! Raster images in two uncompressed containers, with point operations and
//! 3x3 convolution filters over a shared pixel buffer.
//!
//! An [`Image`] is a flat byte buffer of three channels per pixel together
//! with its dimensions. [`PPM`] and [`BMP`] tie such a buffer to a container
//! format and turn file contents into buffers and back. Every operation is
//! specified over [`ImageView`], the mathematical model of a buffer.

pub mod bmp;
pub mod convolution;
pub mod error;
pub mod image;
pub mod numeric;
pub mod pixel;
pub mod png;
pub mod point;
pub mod ppm;

pub use bmp::BMP;
pub use convolution::{Convolution, Kernel};
pub use error::CodecError;
pub use image::{Image, ImageView};
pub use pixel::{BGR_Pixel, ColorType, RGB_Pixel};
pub use png::PNG;
pub use point::{Gain, PointProcessor};
pub use ppm::PPM;
