//! Core library of a scanned-document digitization workstation.
//!
//! The library generates downsized WebP derivatives (thumbnails and previews)
//! of scanned images with their EXIF orientation resolved, rotates images
//! non-destructively by patching orientation metadata in place, walks
//! directories of images while deduplicating concurrent conversion passes,
//! and plans uploads of finished directories to an object store.
//!
//! All file and network I/O lives in the surrounding application; the
//! functions here work on paths, byte buffers and plain values, so that
//! their behaviour can be stated and verified precisely.

pub mod auth;
pub mod error;
pub mod exif;
pub mod file_size;
pub mod file_utils;
pub mod image_converter;
pub mod inflight;
pub mod model;
pub mod orientation;
pub mod s3;
pub mod version;
