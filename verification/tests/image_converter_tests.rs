use trokk::error::ImageConversionError;
use trokk::image_converter::{
    check_if_preview_exists, check_if_thumbnail_exists, convert_directory_to_webp,
    convert_to_webp, create_thumbnail_webp, derivative_location, rotate_image, ConversionOutcome,
    DerivativeKind, DirectoryEntry, SizeFractionConfig,
};
use trokk::orientation::RotationDirection;

fn png_bytes(width: u32, height: u32) -> Vec<u8> {
    let img = image::RgbImage::from_fn(width, height, |x, y| {
        image::Rgb([(x % 199) as u8, (y % 149) as u8, 77])
    });
    let mut cursor = std::io::Cursor::new(Vec::new());
    image::DynamicImage::ImageRgb8(img)
        .write_to(&mut cursor, image::ImageFormat::Png)
        .unwrap();
    cursor.into_inner()
}

fn jpeg_with_orientation(width: u32, height: u32, code: u16) -> Vec<u8> {
    let img = image::RgbImage::from_fn(width, height, |x, y| {
        image::Rgb([(x % 251) as u8, (y % 241) as u8, 99])
    });
    let mut cursor = std::io::Cursor::new(Vec::new());
    image::DynamicImage::ImageRgb8(img)
        .write_to(&mut cursor, image::ImageFormat::Jpeg)
        .unwrap();
    let plain = cursor.into_inner();

    // APP1/Exif segment: a little-endian TIFF block with one orientation
    // entry, spliced in right after the start-of-image marker.
    let mut tiff: Vec<u8> = Vec::new();
    tiff.extend_from_slice(b"II");
    tiff.extend_from_slice(&42u16.to_le_bytes());
    tiff.extend_from_slice(&8u32.to_le_bytes());
    tiff.extend_from_slice(&1u16.to_le_bytes());
    tiff.extend_from_slice(&0x0112u16.to_le_bytes());
    tiff.extend_from_slice(&3u16.to_le_bytes());
    tiff.extend_from_slice(&1u32.to_le_bytes());
    tiff.extend_from_slice(&[code as u8, 0, 0, 0]);
    tiff.extend_from_slice(&0u32.to_le_bytes());

    let mut out = Vec::new();
    out.extend_from_slice(&plain[..2]);
    out.extend_from_slice(&[0xFF, 0xE1]);
    out.extend_from_slice(&((2 + 6 + tiff.len()) as u16).to_be_bytes());
    out.extend_from_slice(b"Exif\0\0");
    out.extend_from_slice(&tiff);
    out.extend_from_slice(&plain[2..]);
    out
}

fn decoded_dimensions(bytes: &[u8]) -> (u32, u32) {
    let img = image::load_from_memory(bytes).unwrap();
    (img.width(), img.height())
}

fn converted(outcome: ConversionOutcome) -> trokk::image_converter::DerivativeWrite {
    match outcome {
        ConversionOutcome::Converted(w) => w,
        ConversionOutcome::SkippedDerivativeFolder(p) => {
            panic!("conversion unexpectedly skipped for {}", p)
        }
    }
}

#[test]
fn test_convert_to_webp_creates_webp_of_original_in_thumbnails_directory() {
    let config = SizeFractionConfig::default();
    let data = png_bytes(64, 48);
    let outcome =
        convert_to_webp("/scans/batch/page1.png", &data, DerivativeKind::Thumbnail, &config)
            .expect("Failed to convert image to webp");
    let write = converted(outcome);
    assert_eq!(write.directory, "/scans/batch/.thumbnails");
    assert_eq!(write.path, "/scans/batch/.thumbnails/page1.webp");
    assert!(write.path.ends_with(".webp"));
    let img = image::load_from_memory(&write.bytes).expect("derivative must decode");
    assert_eq!((img.width(), img.height()), (8, 6));
}

#[test]
fn test_convert_to_webp_skips_paths_inside_derivative_folders() {
    let config = SizeFractionConfig::default();
    let data = png_bytes(8, 8);
    for path in ["/scans/.thumbnails/a.png", "/scans/.previews/a.png"] {
        match convert_to_webp(path, &data, DerivativeKind::Thumbnail, &config).unwrap() {
            ConversionOutcome::SkippedDerivativeFolder(p) => assert_eq!(p, path),
            ConversionOutcome::Converted(_) => panic!("guard must skip {}", path),
        }
    }
}

#[test]
fn test_convert_to_webp_rejects_paths_without_parent_or_name() {
    let config = SizeFractionConfig::default();
    let data = png_bytes(8, 8);
    match convert_to_webp("orphan.png", &data, DerivativeKind::Thumbnail, &config) {
        Err(ImageConversionError::FailedToGetParentDirectoryError(m)) => {
            assert_eq!(m, "orphan.png")
        }
        other => panic!("expected a parent-directory error, got {:?}", other),
    }
    match convert_to_webp("/scans/", &data, DerivativeKind::Thumbnail, &config) {
        Err(ImageConversionError::FailedToGetFileNameError(m)) => assert_eq!(m, "/scans/"),
        other => panic!("expected a file-name error, got {:?}", other),
    }
}

#[test]
fn test_convert_to_webp_rejects_undecodable_bytes() {
    let config = SizeFractionConfig::default();
    let data = vec![1u8, 2, 3, 4];
    match convert_to_webp("/scans/bad.png", &data, DerivativeKind::Thumbnail, &config) {
        Err(ImageConversionError::ImageError(_)) => {}
        other => panic!("expected a decode error, got {:?}", other),
    }
}

#[test]
fn test_generate_then_already_has_agree_on_the_path() {
    // The existence check probes exactly the path a fresh conversion
    // returns; nothing was written here, so the probe stays negative.
    let config = SizeFractionConfig::default();
    let data = png_bytes(32, 32);
    let source = "/definitely/not/on/disk/scan.png";
    let write = converted(
        convert_to_webp(source, &data, DerivativeKind::Thumbnail, &config).unwrap(),
    );
    let (_, probe_path) = derivative_location(source, DerivativeKind::Thumbnail).unwrap();
    assert_eq!(write.path, probe_path);
    assert_eq!(check_if_thumbnail_exists(source).unwrap(), false);
    assert_eq!(check_if_preview_exists(source).unwrap(), false);
}

#[test]
fn test_repeated_conversion_is_byte_identical() {
    let config = SizeFractionConfig::default();
    let data = png_bytes(100, 60);
    let first = converted(
        convert_to_webp("/d/x.png", &data, DerivativeKind::Thumbnail, &config).unwrap(),
    );
    let second = converted(
        convert_to_webp("/d/x.png", &data, DerivativeKind::Thumbnail, &config).unwrap(),
    );
    assert_eq!(first.bytes, second.bytes);
    assert_eq!(first.path, second.path);
}

#[test]
fn test_check_if_webp_exists_returns_false_if_webp_doesnt_exist() {
    let exists = check_if_thumbnail_exists("/definitely/not/on/disk/scan.tif").unwrap();
    assert!(!exists);
}

#[test]
fn test_check_if_thumbnail_exists_requires_parent_and_name() {
    assert!(matches!(
        check_if_thumbnail_exists("lonely.png"),
        Err(ImageConversionError::FailedToGetParentDirectoryError(_))
    ));
    assert!(matches!(
        check_if_preview_exists("/dir/"),
        Err(ImageConversionError::FailedToGetFileNameError(_))
    ));
}

#[test]
fn test_orientation_codes_swap_derivative_dimensions() {
    // With both fractions at 1 the derivative keeps the transformed
    // size: codes 5 through 8 swap width and height, the others do not.
    let mut config = SizeFractionConfig::default();
    config.set_image_size_fractions(1, 1).unwrap();
    for code in 1..=8u16 {
        let data = jpeg_with_orientation(80, 40, code);
        let write = converted(
            convert_to_webp("/d/orient.jpg", &data, DerivativeKind::Thumbnail, &config).unwrap(),
        );
        let (w, h) = decoded_dimensions(&write.bytes);
        if (5..=8).contains(&code) {
            assert_eq!((w, h), (40, 80), "code {} must swap dimensions", code);
        } else {
            assert_eq!((w, h), (80, 40), "code {} must keep dimensions", code);
        }
    }
}

#[test]
fn test_derivative_dimensions_never_collapse_to_zero() {
    let mut config = SizeFractionConfig::default();
    config.set_image_size_fractions(16, 16).unwrap();
    let data = png_bytes(10, 10);
    let write = converted(
        convert_to_webp("/d/tiny.png", &data, DerivativeKind::Thumbnail, &config).unwrap(),
    );
    let (w, h) = decoded_dimensions(&write.bytes);
    assert_eq!((w, h), (1, 1));
}

#[test]
fn test_set_image_size_fractions_rejects_out_of_range_values() {
    let mut config = SizeFractionConfig::default();
    for (t, p) in [(0, 4), (17, 4), (8, 0), (8, 17), (0, 0)] {
        let err = config.set_image_size_fractions(t, p).unwrap_err();
        assert_eq!(err, "Size fractions must be between 1 and 16");
        assert_eq!(config.thumbnail_fraction, 8);
        assert_eq!(config.preview_fraction, 4);
    }
    config.set_image_size_fractions(2, 3).unwrap();
    assert_eq!(config.thumbnail_fraction, 2);
    assert_eq!(config.preview_fraction, 3);
}

#[test]
fn test_convert_directory_counts_fresh_and_existing_thumbnails() {
    let config = SizeFractionConfig::default();
    let entries: Vec<DirectoryEntry> = (1..=3)
        .map(|i| DirectoryEntry {
            path: format!("/batch/page{}.png", i),
            data: png_bytes(32, 24),
            has_thumbnail: false,
        })
        .collect();
    let pass = convert_directory_to_webp(&entries, &config).unwrap();
    assert_eq!(pass.count.converted, 3);
    assert_eq!(pass.count.already_converted, 0);
    assert_eq!(pass.writes.len(), 3);
    assert_eq!(pass.writes[0].path, "/batch/.thumbnails/page1.webp");
    assert_eq!(pass.writes[2].path, "/batch/.thumbnails/page3.webp");

    let again: Vec<DirectoryEntry> = entries
        .into_iter()
        .map(|e| DirectoryEntry { has_thumbnail: true, data: Vec::new(), ..e })
        .collect();
    let pass = convert_directory_to_webp(&again, &config).unwrap();
    assert_eq!(pass.count.converted, 0);
    assert_eq!(pass.count.already_converted, 3);
    assert!(pass.writes.is_empty());
}

#[test]
fn test_convert_directory_aborts_on_first_failure() {
    let config = SizeFractionConfig::default();
    let entries = vec![
        DirectoryEntry {
            path: "/batch/ok.png".to_string(),
            data: png_bytes(8, 8),
            has_thumbnail: false,
        },
        DirectoryEntry {
            path: "/batch/broken.png".to_string(),
            data: vec![0u8; 16],
            has_thumbnail: false,
        },
    ];
    assert!(matches!(
        convert_directory_to_webp(&entries, &config),
        Err(ImageConversionError::ImageError(_))
    ));
}

#[test]
fn test_directory_conversion_end_to_end() {
    // a.jpg: 2000x1000 at orientation 6, so its thumbnail is the
    // 90-degree-rotated image at an eighth: 125x250. b.png: 800x600
    // unrotated, an eighth: 100x75.
    let config = SizeFractionConfig::default();
    let entries = vec![
        DirectoryEntry {
            path: "/d/a.jpg".to_string(),
            data: jpeg_with_orientation(2000, 1000, 6),
            has_thumbnail: false,
        },
        DirectoryEntry {
            path: "/d/b.png".to_string(),
            data: png_bytes(800, 600),
            has_thumbnail: false,
        },
    ];
    let pass = convert_directory_to_webp(&entries, &config).unwrap();
    assert_eq!(pass.count.converted, 2);
    assert_eq!(pass.count.already_converted, 0);
    assert_eq!(pass.writes[0].path, "/d/.thumbnails/a.webp");
    assert_eq!(pass.writes[1].path, "/d/.thumbnails/b.webp");
    assert_eq!(decoded_dimensions(&pass.writes[0].bytes), (125, 250));
    assert_eq!(decoded_dimensions(&pass.writes[1].bytes), (100, 75));
}

#[test]
fn test_create_thumbnail_webp_converts_missing_thumbnail() {
    let config = SizeFractionConfig::default();
    let data = png_bytes(16, 16);
    let write = create_thumbnail_webp("/nowhere/real/x.png", &data, &config)
        .unwrap()
        .expect("a missing thumbnail must be generated");
    assert_eq!(write.path, "/nowhere/real/.thumbnails/x.webp");
}

#[test]
fn test_rotate_image_advances_orientation_clockwise() {
    let config = SizeFractionConfig::default();
    let data = jpeg_with_orientation(64, 32, 1);
    let result =
        rotate_image("/d/r.jpg", &data, RotationDirection::Clockwise, &config).unwrap();
    assert_eq!(result.new_orientation, 6);
    assert_eq!(result.patched_source.len(), data.len());
    assert_eq!(
        trokk::exif::read_orientation(&result.patched_source, trokk::exif::ContainerFormat::Jpeg),
        6
    );
    let thumb = converted(result.thumbnail);
    assert_eq!(thumb.path, "/d/.thumbnails/r.webp");
    // the regenerated thumbnail shows the quarter-turned image
    assert_eq!(decoded_dimensions(&thumb.bytes), (4, 8));
    let preview = converted(result.preview);
    assert_eq!(preview.path, "/d/.previews/r.webp");
    assert_eq!(decoded_dimensions(&preview.bytes), (8, 16));
}

#[test]
fn test_rotating_four_times_restores_the_original_bytes() {
    let config = SizeFractionConfig::default();
    for direction in [RotationDirection::Clockwise, RotationDirection::CounterClockwise] {
        let original = jpeg_with_orientation(40, 24, 1);
        let mut data = original.clone();
        for _ in 0..4 {
            data = rotate_image("/d/cycle.jpg", &data, direction, &config)
                .unwrap()
                .patched_source;
        }
        assert_eq!(data, original);
    }
}

#[test]
fn test_rotate_image_rejects_unsupported_formats() {
    let config = SizeFractionConfig::default();
    let data = png_bytes(8, 8);
    match rotate_image("/d/a.png", &data, RotationDirection::Clockwise, &config) {
        Err(ImageConversionError::UnsupportedFormatError(m)) => assert_eq!(m, "/d/a.png"),
        other => panic!("expected an unsupported-format error, got {:?}", other),
    }
}

#[test]
fn test_rotate_image_fails_without_orientation_entry() {
    let config = SizeFractionConfig::default();
    // a plain JPEG without any APP1/Exif segment cannot be patched
    let img = image::RgbImage::new(8, 8);
    let mut cursor = std::io::Cursor::new(Vec::new());
    image::DynamicImage::ImageRgb8(img)
        .write_to(&mut cursor, image::ImageFormat::Jpeg)
        .unwrap();
    let data = cursor.into_inner();
    match rotate_image("/d/plain.jpg", &data, RotationDirection::Clockwise, &config) {
        Err(ImageConversionError::MetadataTagNotFoundError(m)) => assert_eq!(m, "/d/plain.jpg"),
        other => panic!("expected a metadata error, got {:?}", other),
    }
}
