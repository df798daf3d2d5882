//! Derivative generation: decoding a source image, applying its stored
//! orientation, downsizing by the configured fraction and encoding a WebP
//! derivative, together with the bookkeeping of a whole-directory pass and
//! the non-destructive rotation of a source image.
//!
//! Decoding, pixel transforms and WebP encoding are done by the `image`
//! and `webp` crates behind trusted declarations; everything around them —
//! paths, orientation resolution, dimensions, counting, metadata patching —
//! is verified.

use vstd::prelude::*;
use vstd::string::StringExecFns;
use crate::error::ImageConversionError;
use crate::exif;
use crate::exif::{ContainerFormat, spec_container_format_of, spec_orientation_loc,
    spec_resolved_orientation};
use crate::file_utils::{component_at, contains_component, get_file_name, get_parent_directory, spec_file_name,
    spec_has_parent, spec_parent, spec_without_extension, strip_extension};
use crate::orientation::{RotationDirection, next_orientation, spec_next_orientation};

verus! {

/// Fixed lossy quality for WebP derivatives: previews, not archival copies.
pub const WEBP_QUALITY: u8 = 25;

/// Result of a whole-directory conversion pass.
#[derive(Debug, Clone, Copy, PartialEq, Eq, Structural)]
pub struct ConversionCount {
    pub converted: u32,
    pub already_converted: u32,
}

/// The two derivative kinds, each with its reserved sibling folder.
#[derive(Debug, Clone, Copy, PartialEq, Eq, Structural)]
pub enum DerivativeKind {
    Thumbnail,
    Preview,
}

/// Integer divisors applied to a source image's width and height before
/// encoding a derivative, each within [1, 16].
#[derive(Debug, Clone, Copy, PartialEq, Eq, Structural)]
pub struct SizeFractionConfig {
    pub thumbnail_fraction: u32,
    pub preview_fraction: u32,
}

impl SizeFractionConfig {
    /// Both fractions lie within the accepted range.
    pub open spec fn wf(self) -> bool {
        1 <= self.thumbnail_fraction <= 16 && 1 <= self.preview_fraction <= 16
    }

    /// The fraction selected by a derivative kind.
    pub open spec fn spec_fraction_for(self, kind: DerivativeKind) -> u32 {
        match kind {
            DerivativeKind::Thumbnail => self.thumbnail_fraction,
            DerivativeKind::Preview => self.preview_fraction,
        }
    }

    /// The fraction selected by a derivative kind.
    pub fn fraction_for(&self, kind: DerivativeKind) -> (r: u32)
        ensures
            r == self.spec_fraction_for(kind),
    {
        match kind {
            DerivativeKind::Thumbnail => self.thumbnail_fraction,
            DerivativeKind::Preview => self.preview_fraction,
        }
    }

    /// Replaces both fractions, rejecting any value outside [1, 16] and
    /// leaving the configuration unchanged on rejection.
    pub fn set_image_size_fractions(&mut self, thumbnail: u32, preview: u32) -> (r: Result<
        (),
        String,
    >)
        ensures
            1 <= thumbnail <= 16 && 1 <= preview <= 16 ==> r is Ok && *final(self)
                == (SizeFractionConfig { thumbnail_fraction: thumbnail, preview_fraction: preview }),
            !(1 <= thumbnail <= 16 && 1 <= preview <= 16) ==> (r matches Err(m) && *final(self)
                == *old(self) && m@ == "Size fractions must be between 1 and 16"@),
    {
        if 1 <= thumbnail && thumbnail <= 16 && 1 <= preview && preview <= 16 {
            self.thumbnail_fraction = thumbnail;
            self.preview_fraction = preview;
            Ok(())
        } else {
            Err(String::from_str("Size fractions must be between 1 and 16"))
        }
    }
}

impl Default for SizeFractionConfig {
    /// The fractions a process starts with: an eighth for thumbnails, a
    /// quarter for previews.
    fn default() -> (c: Self)
        ensures
            c == (SizeFractionConfig { thumbnail_fraction: 8u32, preview_fraction: 4u32 }),
    {
        SizeFractionConfig { thumbnail_fraction: 8, preview_fraction: 4 }
    }
}

/// image::DynamicImage carried opaquely through the pipeline.
#[verifier::external_type_specification]
#[verifier::external_body]
pub struct ExDynamicImage(image::DynamicImage);

/// image::ImageError, mapped to its display text at the boundary.
#[verifier::external_type_specification]
#[verifier::external_body]
pub struct ExImageError(image::ImageError);

/// Whether the `image` crate decodes a buffer: its verdict is a function
/// of the bytes alone.
pub uninterp spec fn decodes_ok(b: Seq<u8>) -> bool;

/// Relies on image::load_from_memory: decodes a buffer, guessing its
/// format; succeeds exactly on the buffers the crate can decode.
pub assume_specification [ image::load_from_memory ](buffer: &[u8]) -> (r: Result<
    image::DynamicImage,
    image::ImageError,
>)
    ensures
        r is Ok <==> decodes_ok(buffer@),
;

/// Relies on image::DynamicImage::width.
pub assume_specification [ image::DynamicImage::width ](img: &image::DynamicImage) -> u32;

/// Relies on image::DynamicImage::height.
pub assume_specification [ image::DynamicImage::height ](img: &image::DynamicImage) -> u32;

/// Relies on image::DynamicImage::rotate90: a quarter turn clockwise.
pub assume_specification [ image::DynamicImage::rotate90 ](
    img: &image::DynamicImage,
) -> image::DynamicImage;

/// Relies on image::DynamicImage::rotate180.
pub assume_specification [ image::DynamicImage::rotate180 ](
    img: &image::DynamicImage,
) -> image::DynamicImage;

/// Relies on image::DynamicImage::rotate270: a quarter turn counter-clockwise.
pub assume_specification [ image::DynamicImage::rotate270 ](
    img: &image::DynamicImage,
) -> image::DynamicImage;

/// Relies on image::DynamicImage::fliph: a horizontal mirror.
pub assume_specification [ image::DynamicImage::fliph ](
    img: &image::DynamicImage,
) -> image::DynamicImage;

/// Relies on image::DynamicImage::flipv: a vertical mirror.
pub assume_specification [ image::DynamicImage::flipv ](
    img: &image::DynamicImage,
) -> image::DynamicImage;

/// Relies on image::ImageError's Display impl for the error's text.
#[verifier::external_body]
fn image_error_string(e: &image::ImageError) -> String {
    e.to_string()
}

/// Relies on image::DynamicImage::resize with the nearest-neighbour
/// filter: a fast downsize to at most `w` by `h`, keeping aspect ratio.
#[verifier::external_body]
fn resize_nearest(img: &image::DynamicImage, w: u32, h: u32) -> image::DynamicImage
    requires
        w >= 1,
        h >= 1,
{
    img.resize(w, h, image::imageops::FilterType::Nearest)
}

/// Relies on image::DynamicImage::to_rgba8: the same pixels as RGBA, the
/// layout the WebP encoder accepts.
#[verifier::external_body]
fn to_rgba8_image(img: &image::DynamicImage) -> image::DynamicImage {
    image::DynamicImage::ImageRgba8(img.to_rgba8())
}

/// Relies on webp::Encoder::from_image and Encoder::encode_simple for the
/// lossy WebP encoding of an RGB/RGBA image at the given quality.
#[verifier::external_body]
fn encode_webp(img: &image::DynamicImage, quality: u8) -> Result<Vec<u8>, String> {
    let encoder = match webp::Encoder::from_image(img) {
        Ok(e) => e,
        Err(m) => return Err(m.to_string()),
    };
    match encoder.encode_simple(false, quality.into()) {
        Ok(memory) => Ok(memory.to_vec()),
        Err(e) => Err(format!("{:?}", e)),
    }
}

/// Relies on std::path::Path::exists: an existence probe that never
/// raises. A path that is not valid UTF-8 cannot be probed and reads as
/// absent.
#[verifier::external_body]
fn path_exists(path: &str) -> bool {
    std::path::Path::new(path).exists()
}

/// The image's pixels transformed as orientation `code` asks: a rotation,
/// a mirroring, or both; codes outside 2..=8 leave the image unchanged.
fn apply_orientation_transform(img: image::DynamicImage, code: u16) -> image::DynamicImage {
    if code == 2 {
        img.fliph()
    } else if code == 3 {
        img.rotate180()
    } else if code == 4 {
        img.flipv()
    } else if code == 5 {
        img.rotate90().fliph()
    } else if code == 6 {
        img.rotate90()
    } else if code == 7 {
        img.rotate270().fliph()
    } else if code == 8 {
        img.rotate270()
    } else {
        img
    }
}

/// The width or height of a derivative: the source dimension divided by
/// the configured fraction, and never below one pixel.
pub open spec fn spec_target_dimension(d: u32, fraction: u32) -> u32 {
    if d / fraction == 0 {
        1u32
    } else {
        d / fraction
    }
}

/// `max(1, d / fraction)`.
pub fn target_dimension(d: u32, fraction: u32) -> (r: u32)
    requires
        fraction >= 1,
    ensures
        r == spec_target_dimension(d, fraction),
        r >= 1,
{
    let q = d / fraction;
    if q == 0 {
        1
    } else {
        q
    }
}

/// The reserved folder name of a derivative kind.
pub open spec fn spec_derivative_folder(kind: DerivativeKind) -> Seq<char> {
    match kind {
        DerivativeKind::Thumbnail => ".thumbnails"@,
        DerivativeKind::Preview => ".previews"@,
    }
}

/// The sibling folder a derivative of `kind` lives in:
/// `<parent>/.thumbnails` or `<parent>/.previews`.
pub open spec fn spec_derivative_dir(path: Seq<char>, kind: DerivativeKind) -> Seq<char> {
    spec_parent(path) + "/"@ + spec_derivative_folder(kind)
}

/// The full derivative path: the source's file name with its extension
/// replaced by `.webp`, inside the kind's folder.
pub open spec fn spec_derivative_path(path: Seq<char>, kind: DerivativeKind) -> Seq<char> {
    spec_derivative_dir(path, kind) + "/"@ + spec_without_extension(spec_file_name(path))
        + ".webp"@
}

/// A path inside one of the reserved derivative folders.
pub open spec fn spec_in_derivative_folder(path: Seq<char>) -> bool {
    contains_component(path, ".thumbnails"@) || contains_component(path, ".previews"@)
}

/// Whether the path lies under a `.thumbnails` or `.previews` folder.
pub fn in_derivative_folder(path: &str) -> (r: bool)
    ensures
        r == spec_in_derivative_folder(path@),
{
    proof {
        reveal_strlit(".thumbnails");
        reveal_strlit(".previews");
    }
    crate::file_utils::has_component(path, ".thumbnails") || crate::file_utils::has_component(
        path,
        ".previews",
    )
}

/// Every derivative path lies inside its reserved folder, so the
/// conversion guard skips derivatives themselves: generating a
/// derivative of a derivative is a no-op by construction.
pub proof fn lemma_derivative_path_is_guarded(path: Seq<char>, kind: DerivativeKind)
    ensures
        spec_in_derivative_folder(spec_derivative_path(path, kind)),
{
    reveal_strlit(".thumbnails");
    reveal_strlit(".previews");
    reveal_strlit("/");
    let p = spec_parent(path);
    let folder = spec_derivative_folder(kind);
    let full = spec_derivative_path(path, kind);
    let i: int = p.len() as int + 1;
    assert(full.subrange(i, i + folder.len()) =~= folder);
    assert(full[i - 1] == '/');
    assert(full[i + folder.len()] == '/');
    assert(component_at(full, folder, i));
}

/// The folder and full path of the derivative of `kind` for a source
/// path, or the error naming the missing path component.
pub fn derivative_location(image_path: &str, kind: DerivativeKind) -> (r: Result<
    (String, String),
    ImageConversionError,
>)
    ensures
        match r {
            Ok((dir, full)) => {
                &&& spec_has_parent(image_path@)
                &&& spec_file_name(image_path@).len() > 0
                &&& dir@ == spec_derivative_dir(image_path@, kind)
                &&& full@ == spec_derivative_path(image_path@, kind)
            },
            Err(e) => match e {
                ImageConversionError::FailedToGetParentDirectoryError(m) => !spec_has_parent(
                    image_path@,
                ) && m@ == image_path@,
                ImageConversionError::FailedToGetFileNameError(m) => spec_has_parent(image_path@)
                    && spec_file_name(image_path@).len() == 0 && m@ == image_path@,
                _ => false,
            },
        },
{
    let parent = match get_parent_directory(image_path) {
        Ok(p) => p,
        Err(m) => return Err(ImageConversionError::FailedToGetParentDirectoryError(m)),
    };
    let name = match get_file_name(image_path) {
        Ok(n) => n,
        Err(m) => return Err(ImageConversionError::FailedToGetFileNameError(m)),
    };
    let stem = strip_extension(name.as_str());
    let folder: &str = match kind {
        DerivativeKind::Thumbnail => ".thumbnails",
        DerivativeKind::Preview => ".previews",
    };
    let dir = String::from_str(parent.as_str()).concat("/").concat(folder);
    let full = String::from_str(dir.as_str()).concat("/").concat(stem.as_str()).concat(".webp");
    assert(dir@ == spec_derivative_dir(image_path@, kind));
    assert(full@ == spec_derivative_path(image_path@, kind));
    Ok((dir, full))
}

/// Whether the thumbnail derivative of a source image already exists on
/// disk; errors exactly when the source path lacks a parent or file name.
pub fn check_if_thumbnail_exists(image_path: &str) -> (r: Result<bool, ImageConversionError>)
    ensures
        r is Ok <==> spec_has_parent(image_path@) && spec_file_name(image_path@).len() > 0,
        r matches Err(e) ==> match e {
            ImageConversionError::FailedToGetParentDirectoryError(m) => !spec_has_parent(
                image_path@,
            ) && m@ == image_path@,
            ImageConversionError::FailedToGetFileNameError(m) => spec_file_name(
                image_path@,
            ).len() == 0 && m@ == image_path@,
            _ => false,
        },
{
    let (_dir, full) = derivative_location(image_path, DerivativeKind::Thumbnail)?;
    Ok(path_exists(full.as_str()))
}

/// Whether the preview derivative of a source image already exists on
/// disk; errors exactly when the source path lacks a parent or file name.
pub fn check_if_preview_exists(image_path: &str) -> (r: Result<bool, ImageConversionError>)
    ensures
        r is Ok <==> spec_has_parent(image_path@) && spec_file_name(image_path@).len() > 0,
        r matches Err(e) ==> match e {
            ImageConversionError::FailedToGetParentDirectoryError(m) => !spec_has_parent(
                image_path@,
            ) && m@ == image_path@,
            ImageConversionError::FailedToGetFileNameError(m) => spec_file_name(
                image_path@,
            ).len() == 0 && m@ == image_path@,
            _ => false,
        },
{
    let (_dir, full) = derivative_location(image_path, DerivativeKind::Preview)?;
    Ok(path_exists(full.as_str()))
}

/// A derivative ready to be written: the folder that must exist, the full
/// file path, and the encoded WebP bytes.
#[derive(Debug, Clone)]
pub struct DerivativeWrite {
    pub directory: String,
    pub path: String,
    pub bytes: Vec<u8>,
}

/// What a single conversion produced.
#[derive(Debug, Clone)]
pub enum ConversionOutcome {
    /// The source already lives under a derivative folder; its own path is
    /// handed back unchanged and nothing is written.
    SkippedDerivativeFolder(String),
    /// A derivative was produced and awaits writing.
    Converted(DerivativeWrite),
}

/// Converts one source image to a WebP derivative of the given kind.
///
/// The source bytes are decoded, the orientation stored in them is
/// resolved and applied, both dimensions are divided by the configured
/// fraction (never below one pixel), and the result is encoded at the
/// fixed derivative quality. Nothing is written: the returned value
/// carries the resolved derivative folder, path and bytes.
pub fn convert_to_webp(
    image_path: &str,
    data: &Vec<u8>,
    kind: DerivativeKind,
    config: &SizeFractionConfig,
) -> (r: Result<ConversionOutcome, ImageConversionError>)
    requires
        config.wf(),
    ensures
        spec_in_derivative_folder(image_path@) ==> (r matches Ok(
            ConversionOutcome::SkippedDerivativeFolder(p),
        ) && p@ == image_path@),
        !spec_in_derivative_folder(image_path@) && !spec_has_parent(image_path@) ==> (r matches Err(
            ImageConversionError::FailedToGetParentDirectoryError(m),
        ) && m@ == image_path@),
        !spec_in_derivative_folder(image_path@) && spec_has_parent(image_path@) && spec_file_name(
            image_path@,
        ).len() == 0 ==> (r matches Err(ImageConversionError::FailedToGetFileNameError(m)) && m@
            == image_path@),
        !spec_in_derivative_folder(image_path@) && spec_has_parent(image_path@) && spec_file_name(
            image_path@,
        ).len() > 0 ==> match r {
            Ok(outcome) => outcome matches ConversionOutcome::Converted(w) && w.directory@
                == spec_derivative_dir(image_path@, kind) && w.path@ == spec_derivative_path(
                image_path@,
                kind,
            ) && decodes_ok(data@),
            Err(e) => match e {
                ImageConversionError::ImageError(_) => !decodes_ok(data@),
                ImageConversionError::WebPEncodingError(_) => decodes_ok(data@),
                _ => false,
            },
        },
{
    if in_derivative_folder(image_path) {
        return Ok(ConversionOutcome::SkippedDerivativeFolder(image_path.to_owned()));
    }
    let (directory, full_path) = derivative_location(image_path, kind)?;
    let img = match image::load_from_memory(data.as_slice()) {
        Ok(i) => i,
        Err(e) => return Err(ImageConversionError::ImageError(image_error_string(&e))),
    };
    let fmt = exif::container_format_for_path(image_path);
    let code = exif::read_orientation(data.as_slice(), fmt);
    let oriented = apply_orientation_transform(img, code);
    let fraction = config.fraction_for(kind);
    let target_w = target_dimension(oriented.width(), fraction);
    let target_h = target_dimension(oriented.height(), fraction);
    let resized = resize_nearest(&oriented, target_w, target_h);
    let rgba = to_rgba8_image(&resized);
    let bytes = match encode_webp(&rgba, WEBP_QUALITY) {
        Ok(b) => b,
        Err(m) => return Err(ImageConversionError::WebPEncodingError(m)),
    };
    Ok(ConversionOutcome::Converted(DerivativeWrite { directory, path: full_path, bytes }))
}

/// Ensures the thumbnail of `file_path` exists: a no-op when it is
/// already on disk, else one conversion. Errors are handed back as their
/// message text.
pub fn create_thumbnail_webp(file_path: &str, data: &Vec<u8>, config: &SizeFractionConfig) -> (r:
    Result<Option<DerivativeWrite>, String>)
    requires
        config.wf(),
    ensures
        r matches Ok(Some(w)) ==> w.directory@ == spec_derivative_dir(
            file_path@,
            DerivativeKind::Thumbnail,
        ) && w.path@ == spec_derivative_path(file_path@, DerivativeKind::Thumbnail),
        spec_in_derivative_folder(file_path@) ==> r matches Ok(None),
        !spec_in_derivative_folder(file_path@) && !spec_has_parent(file_path@) ==> r is Err,
        !spec_in_derivative_folder(file_path@) && spec_has_parent(file_path@) && spec_file_name(
            file_path@,
        ).len() > 0 && decodes_ok(data@) ==> match r {
            Ok(_) => true,
            Err(m) => exists|s: Seq<char>| m@ == "Failed to encode WebP: "@ + s,
        },
{
    match check_if_thumbnail_exists(file_path) {
        Ok(true) => return Ok(None),
        _ => (),
    }
    match convert_to_webp(file_path, data, DerivativeKind::Thumbnail, config) {
        Ok(ConversionOutcome::Converted(w)) => Ok(Some(w)),
        Ok(ConversionOutcome::SkippedDerivativeFolder(_)) => Ok(None),
        Err(e) => {
            let msg = e.message();
            proof {
                if e is WebPEncodingError {
                    assert(msg@ == "Failed to encode WebP: "@ + e->WebPEncodingError_0@);
                }
            }
            Err(msg)
        },
    }
}

/// Ensures the preview of `file_path` exists: a no-op when it is already
/// on disk, else one conversion. Errors are handed back as their message
/// text.
pub fn create_preview_webp(file_path: &str, data: &Vec<u8>, config: &SizeFractionConfig) -> (r:
    Result<Option<DerivativeWrite>, String>)
    requires
        config.wf(),
    ensures
        r matches Ok(Some(w)) ==> w.directory@ == spec_derivative_dir(
            file_path@,
            DerivativeKind::Preview,
        ) && w.path@ == spec_derivative_path(file_path@, DerivativeKind::Preview),
        spec_in_derivative_folder(file_path@) ==> r matches Ok(None),
        !spec_in_derivative_folder(file_path@) && !spec_has_parent(file_path@) ==> r is Err,
        !spec_in_derivative_folder(file_path@) && spec_has_parent(file_path@) && spec_file_name(
            file_path@,
        ).len() > 0 && decodes_ok(data@) ==> match r {
            Ok(_) => true,
            Err(m) => exists|s: Seq<char>| m@ == "Failed to encode WebP: "@ + s,
        },
{
    match check_if_preview_exists(file_path) {
        Ok(true) => return Ok(None),
        _ => (),
    }
    match convert_to_webp(file_path, data, DerivativeKind::Preview, config) {
        Ok(ConversionOutcome::Converted(w)) => Ok(Some(w)),
        Ok(ConversionOutcome::SkippedDerivativeFolder(_)) => Ok(None),
        Err(e) => {
            let msg = e.message();
            proof {
                if e is WebPEncodingError {
                    assert(msg@ == "Failed to encode WebP: "@ + e->WebPEncodingError_0@);
                }
            }
            Err(msg)
        },
    }
}

/// One file of a directory pass: its path, its bytes, and whether its
/// thumbnail already exists.
#[derive(Debug, Clone)]
pub struct DirectoryEntry {
    pub path: String,
    pub data: Vec<u8>,
    pub has_thumbnail: bool,
}

/// How many entries already have a thumbnail.
pub open spec fn spec_already_count(s: Seq<DirectoryEntry>) -> int
    decreases s.len(),
{
    if s.len() == 0 {
        0
    } else {
        spec_already_count(s.drop_last()) + if s.last().has_thumbnail {
            1int
        } else {
            0int
        }
    }
}

/// The derivative paths a pass writes: one thumbnail for each entry that
/// has none yet and does not itself live in a derivative folder, in input
/// order.
pub open spec fn spec_pending_paths(s: Seq<DirectoryEntry>) -> Seq<Seq<char>>
    decreases s.len(),
{
    if s.len() == 0 {
        Seq::empty()
    } else {
        let rest = spec_pending_paths(s.drop_last());
        let e = s.last();
        if !e.has_thumbnail && !spec_in_derivative_folder(e.path@) {
            rest.push(spec_derivative_path(e.path@, DerivativeKind::Thumbnail))
        } else {
            rest
        }
    }
}

/// Result of a directory pass: the counts and the derivatives to write.
#[derive(Debug, Clone)]
pub struct DirectoryConversion {
    pub count: ConversionCount,
    pub writes: Vec<DerivativeWrite>,
}

/// Converts every image of a directory listing that has no thumbnail yet.
///
/// Entries whose thumbnail already exists are only counted. The pass is
/// fail-fast: the first failing conversion aborts it with that error and
/// nothing is reported about the entries before it.
pub fn convert_directory_to_webp(entries: &Vec<DirectoryEntry>, config: &SizeFractionConfig) -> (r:
    Result<DirectoryConversion, ImageConversionError>)
    requires
        config.wf(),
        entries@.len() <= u32::MAX,
    ensures
        r matches Ok(d) ==> {
            &&& d.count.already_converted == spec_already_count(entries@)
            &&& d.count.converted == entries@.len() - spec_already_count(entries@)
            &&& d.writes@.map_values(|w: DerivativeWrite| w.path@) == spec_pending_paths(entries@)
        },
        (forall|i: int| 0 <= i < entries@.len() ==> entries@[i].has_thumbnail) ==> r is Ok,
        r is Err ==> exists|i: int| 0 <= i < entries@.len() && !entries@[i].has_thumbnail,
        r matches Err(e) ==> (e is ImageError || e is WebPEncodingError
            || e is FailedToGetParentDirectoryError || e is FailedToGetFileNameError),
        r matches Err(ImageConversionError::ImageError(_)) ==> exists|i: int|
            0 <= i < entries@.len() && !entries@[i].has_thumbnail && !decodes_ok(
                entries@[i].data@,
            ),
{
    let n = entries.len();
    let mut converted: u32 = 0;
    let mut already: u32 = 0;
    let mut writes: Vec<DerivativeWrite> = Vec::new();
    let mut i: usize = 0;
    while i < n
        invariant
            config.wf(),
            n == entries@.len(),
            n <= u32::MAX,
            i <= n,
            already == spec_already_count(entries@.take(i as int)),
            converted == i - already,
            writes@.map_values(|w: DerivativeWrite| w.path@) == spec_pending_paths(
                entries@.take(i as int),
            ),
        decreases n - i,
    {
        let entry = &entries[i];
        proof {
            assert(entries@.take(i as int + 1).drop_last() =~= entries@.take(i as int));
            assert(entries@.take(i as int + 1).last() == entries@[i as int]);
        }
        if entry.has_thumbnail {
            already = already + 1;
        } else {
            match convert_to_webp(entry.path.as_str(), &entry.data, DerivativeKind::Thumbnail,
                config) {
                Ok(ConversionOutcome::Converted(w)) => {
                    let ghost prev = writes@;
                    writes.push(w);
                    converted = converted + 1;
                    proof {
                        assert(writes@.map_values(|w: DerivativeWrite| w.path@) =~= prev.map_values(
                            |w: DerivativeWrite| w.path@,
                        ).push(writes@.last().path@));
                    }
                },
                Ok(ConversionOutcome::SkippedDerivativeFolder(_)) => {
                    converted = converted + 1;
                },
                Err(e) => {
                    proof {
                        let ghost idx = i as int;
                        assert(!entries@[idx].has_thumbnail);
                        if e is ImageError {
                            assert(!decodes_ok(entries@[idx].data@));
                        }
                    }
                    return Err(e);
                },
            }
        }
        i = i + 1;
    }
    proof {
        assert(entries@.take(n as int) =~= entries@);
    }
    Ok(
        DirectoryConversion {
            count: ConversionCount { converted, already_converted: already },
            writes,
        },
    )
}

/// Everything a rotation produces: the source bytes with their
/// orientation patched, the new stored orientation, and the regenerated
/// derivatives. The caller writes the source back, writes the thumbnail,
/// and deletes the old preview before writing the new one.
#[derive(Debug, Clone)]
pub struct RotationResult {
    pub patched_source: Vec<u8>,
    pub new_orientation: u16,
    pub thumbnail: ConversionOutcome,
    pub preview: ConversionOutcome,
}

/// Rotates a source image one quarter turn without re-encoding its
/// pixels: the stored orientation advances along the rotation cycle and
/// is patched in place, then both derivatives are regenerated from the
/// patched bytes.
///
/// Only JPEG and TIFF containers have a metadata patch path; a buffer
/// without an orientation entry cannot be patched (adding one is
/// unsupported).
pub fn rotate_image(
    image_path: &str,
    data: &Vec<u8>,
    direction: RotationDirection,
    config: &SizeFractionConfig,
) -> (r: Result<RotationResult, ImageConversionError>)
    requires
        config.wf(),
    ensures
        spec_container_format_of(image_path@) == ContainerFormat::Other ==> (r matches Err(
            ImageConversionError::UnsupportedFormatError(m),
        ) && m@ == image_path@),
        r matches Err(ImageConversionError::UnsupportedFormatError(_))
            ==> spec_container_format_of(image_path@) == ContainerFormat::Other,
        spec_container_format_of(image_path@) != ContainerFormat::Other && spec_orientation_loc(
            data@,
            spec_container_format_of(image_path@),
        ) is None ==> (r matches Err(ImageConversionError::MetadataTagNotFoundError(m)) && m@
            == image_path@),
        r matches Err(ImageConversionError::MetadataTagNotFoundError(_)) ==> (
        spec_container_format_of(image_path@) != ContainerFormat::Other && spec_orientation_loc(
            data@,
            spec_container_format_of(image_path@),
        ) is None),
        spec_container_format_of(image_path@) != ContainerFormat::Other && spec_orientation_loc(
            data@,
            spec_container_format_of(image_path@),
        ) is Some ==> match r {
            Ok(_) => true,
            Err(e) => match e {
                ImageConversionError::FailedToGetParentDirectoryError(m) => (
                !spec_in_derivative_folder(image_path@) && !spec_has_parent(image_path@) && m@
                    == image_path@),
                ImageConversionError::FailedToGetFileNameError(m) => (!spec_in_derivative_folder(
                    image_path@,
                ) && spec_has_parent(image_path@) && spec_file_name(image_path@).len() == 0 && m@
                    == image_path@),
                ImageConversionError::ImageError(_) => !spec_in_derivative_folder(image_path@)
                    && spec_has_parent(image_path@) && spec_file_name(image_path@).len() > 0,
                ImageConversionError::WebPEncodingError(_) => !spec_in_derivative_folder(
                    image_path@,
                ) && spec_has_parent(image_path@) && spec_file_name(image_path@).len() > 0,
                _ => false,
            },
        },
        r matches Ok(res) ==> {
            let fmt = spec_container_format_of(image_path@);
            let loc = spec_orientation_loc(data@, fmt);
            &&& fmt != ContainerFormat::Other
            &&& loc is Some
            &&& res.new_orientation == spec_next_orientation(
                spec_resolved_orientation(data@, fmt),
                direction,
            )
            &&& res.patched_source@.len() == data@.len()
            &&& spec_resolved_orientation(res.patched_source@, fmt) == res.new_orientation
            &&& spec_orientation_loc(res.patched_source@, fmt) == loc
            &&& forall|j: int|
                0 <= j < data@.len() && j != loc->Some_0.0 && j != loc->Some_0.0 + 1
                    ==> res.patched_source@[j] == data@[j]
            &&& !spec_in_derivative_folder(image_path@) ==> {
                &&& spec_has_parent(image_path@)
                &&& spec_file_name(image_path@).len() > 0
                &&& decodes_ok(res.patched_source@)
                &&& res.thumbnail matches ConversionOutcome::Converted(tw) && tw.directory@
                    == spec_derivative_dir(image_path@, DerivativeKind::Thumbnail) && tw.path@
                    == spec_derivative_path(image_path@, DerivativeKind::Thumbnail)
                &&& res.preview matches ConversionOutcome::Converted(pw) && pw.directory@
                    == spec_derivative_dir(image_path@, DerivativeKind::Preview) && pw.path@
                    == spec_derivative_path(image_path@, DerivativeKind::Preview)
            }
            &&& spec_in_derivative_folder(image_path@) ==> {
                &&& res.thumbnail matches ConversionOutcome::SkippedDerivativeFolder(tp) && tp@
                    == image_path@
                &&& res.preview matches ConversionOutcome::SkippedDerivativeFolder(pp) && pp@
                    == image_path@
            }
        },
{
    let fmt = exif::container_format_for_path(image_path);
    if matches!(fmt, ContainerFormat::Other) {
        return Err(ImageConversionError::UnsupportedFormatError(image_path.to_owned()));
    }
    let current = exif::read_orientation(data.as_slice(), fmt);
    let new_code = next_orientation(current, direction);
    let patched = match exif::with_orientation(data, fmt, new_code) {
        Some(p) => p,
        None => return Err(ImageConversionError::MetadataTagNotFoundError(image_path.to_owned())),
    };
    let thumbnail = convert_to_webp(image_path, &patched, DerivativeKind::Thumbnail, config)?;
    let preview = convert_to_webp(image_path, &patched, DerivativeKind::Preview, config)?;
    Ok(RotationResult { patched_source: patched, new_orientation: new_code, thumbnail, preview })
}

} // verus!
