//! Error taxonomy of the conversion and rotation pipeline.
//!
//! Every variant carries a human-readable detail string; outside failures
//! (decoder, encoder, filesystem) are mapped to their display text at the
//! trusted boundary, so the enum itself stays a plain value.

use vstd::prelude::*;
use vstd::string::StringExecFns;

verus! {

/// An error raised while generating a derivative or rotating an image.
#[derive(Debug, Clone, PartialEq, Eq)]
pub enum ImageConversionError {
    /// The image bytes could not be decoded.
    ImageError(String),
    /// A filesystem read or write failed.
    IoError(String),
    /// The WebP encoder rejected the image.
    WebPEncodingError(String),
    /// The source path has no parent directory component.
    FailedToGetParentDirectoryError(String),
    /// The source path has no file-name component.
    FailedToGetFileNameError(String),
    /// Rotation was asked of a container format without a metadata patch path.
    UnsupportedFormatError(String),
    /// A TIFF container holds no orientation entry to patch.
    MetadataTagNotFoundError(String),
    /// Any other failure, carried as its message.
    StrError(String),
}

/// The full message of an error: a fixed prefix naming the failed step,
/// followed by the detail string.
pub open spec fn spec_message(e: ImageConversionError) -> Seq<char> {
    match e {
        ImageConversionError::ImageError(s) => "Failed to decode image: "@ + s@,
        ImageConversionError::IoError(s) => "Failed to read image: "@ + s@,
        ImageConversionError::WebPEncodingError(s) => "Failed to encode WebP: "@ + s@,
        ImageConversionError::FailedToGetParentDirectoryError(s) => (
            "Failed to get parent directory: "@ + s@
        ),
        ImageConversionError::FailedToGetFileNameError(s) => "Failed to get file name: "@ + s@,
        ImageConversionError::UnsupportedFormatError(s) => (
            "Rotation is not supported for this format: "@ + s@
        ),
        ImageConversionError::MetadataTagNotFoundError(s) => (
            "No orientation tag found: "@ + s@
        ),
        ImageConversionError::StrError(s) => s@,
    }
}

impl ImageConversionError {
    /// The human-readable text of the error, surfaced to the caller.
    pub fn message(&self) -> (r: String)
        ensures
            r@ == spec_message(*self),
    {
        match self {
            ImageConversionError::ImageError(s) => (
                String::from_str("Failed to decode image: ").concat(s.as_str())
            ),
            ImageConversionError::IoError(s) => (
                String::from_str("Failed to read image: ").concat(s.as_str())
            ),
            ImageConversionError::WebPEncodingError(s) => (
                String::from_str("Failed to encode WebP: ").concat(s.as_str())
            ),
            ImageConversionError::FailedToGetParentDirectoryError(s) => (
                String::from_str("Failed to get parent directory: ").concat(s.as_str())
            ),
            ImageConversionError::FailedToGetFileNameError(s) => (
                String::from_str("Failed to get file name: ").concat(s.as_str())
            ),
            ImageConversionError::UnsupportedFormatError(s) => (
                String::from_str("Rotation is not supported for this format: ").concat(s.as_str())
            ),
            ImageConversionError::MetadataTagNotFoundError(s) => (
                String::from_str("No orientation tag found: ").concat(s.as_str())
            ),
            ImageConversionError::StrError(s) => s.clone(),
        }
    }
}

} // verus!
