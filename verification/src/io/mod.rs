//! Output encoding: the pixel buffer rendered as portable-pixmap text.

pub mod ppm_file;
