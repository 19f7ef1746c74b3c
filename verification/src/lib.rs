//! Streams a decoded QOI image, whose pixels carry 24 bits of colour, onto a
//! pixel sink that takes 16-bit colours, either whole or restricted to a
//! rectangle of the image, without buffering a frame.

pub mod color;
pub mod geometry;
pub mod sink;
pub mod recorder;
pub mod decoder;
pub mod view;
pub mod picture;
pub mod wrapper;

pub use crate::color::convert;
pub use crate::geometry::{Point, Rectangle, Size};
pub use crate::recorder::{Recorder, Refused};
pub use crate::sink::{PixelSink, PixelWrite, Traced};
pub use crate::view::Clipped;
pub use crate::wrapper::{DrawError, Wrapper};
