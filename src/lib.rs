//! A pixel buffer for a ray-traced picture: colors, a canvas addressed by
//! centred coordinates with the y axis pointing up, its raw RGB bytes and
//! its PNG encoding.

pub mod codec;
pub mod image;

pub use codec::EncodeError;
pub use image::{Color, Image, ImageView, Position};
