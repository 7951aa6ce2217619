//! Integer-side core of a one-ray-per-pixel sky renderer: the image
//! configuration, the plain-text (P3) pixmap encoding, and the row-major
//! render driver that asks a shader for the color of every pixel.
pub mod config;
pub mod decimal;
pub mod layout;
pub mod ppm;
