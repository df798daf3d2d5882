use trokk::exif::{container_format_for_path, read_orientation, with_orientation, ContainerFormat};

/// A minimal TIFF block: header, one IFD with the given entries, and a
/// zero next-IFD pointer.
fn make_tiff(little_endian: bool, entries: &[(u16, u16, u32, [u8; 4])]) -> Vec<u8> {
    let mut b = Vec::new();
    let w16 = |b: &mut Vec<u8>, v: u16| {
        if little_endian {
            b.extend_from_slice(&v.to_le_bytes());
        } else {
            b.extend_from_slice(&v.to_be_bytes());
        }
    };
    let w32 = |b: &mut Vec<u8>, v: u32| {
        if little_endian {
            b.extend_from_slice(&v.to_le_bytes());
        } else {
            b.extend_from_slice(&v.to_be_bytes());
        }
    };
    if little_endian {
        b.extend_from_slice(b"II");
    } else {
        b.extend_from_slice(b"MM");
    }
    w16(&mut b, 42);
    w32(&mut b, 8); // first IFD right after the header
    w16(&mut b, entries.len() as u16);
    for &(tag, typ, count, value) in entries {
        w16(&mut b, tag);
        w16(&mut b, typ);
        w32(&mut b, count);
        b.extend_from_slice(&value);
    }
    w32(&mut b, 0); // no further IFD
    b
}

fn orientation_entry(little_endian: bool, code: u16) -> (u16, u16, u32, [u8; 4]) {
    let v = if little_endian {
        [code as u8, 0, 0, 0]
    } else {
        [0, code as u8, 0, 0]
    };
    (0x0112, 3, 1, v)
}

/// A real JPEG with an APP1/Exif segment carrying the given orientation,
/// spliced in right after the start-of-image marker.
fn jpeg_with_orientation(width: u32, height: u32, code: u16) -> Vec<u8> {
    let img = image::RgbImage::from_fn(width, height, |x, y| {
        image::Rgb([(x % 251) as u8, (y % 241) as u8, 99])
    });
    let mut cursor = std::io::Cursor::new(Vec::new());
    image::DynamicImage::ImageRgb8(img)
        .write_to(&mut cursor, image::ImageFormat::Jpeg)
        .unwrap();
    let plain = cursor.into_inner();
    assert_eq!(&plain[..2], &[0xFF, 0xD8]);

    let tiff = make_tiff(true, &[orientation_entry(true, code)]);
    let mut app1 = Vec::new();
    app1.extend_from_slice(&[0xFF, 0xE1]);
    let seglen = (2 + 6 + tiff.len()) as u16;
    app1.extend_from_slice(&seglen.to_be_bytes());
    app1.extend_from_slice(b"Exif\0\0");
    app1.extend_from_slice(&tiff);

    let mut out = Vec::new();
    out.extend_from_slice(&plain[..2]);
    out.extend_from_slice(&app1);
    out.extend_from_slice(&plain[2..]);
    out
}

#[test]
fn test_read_orientation_little_endian_tiff() {
    for code in 1..=8u16 {
        let tiff = make_tiff(true, &[orientation_entry(true, code)]);
        assert_eq!(read_orientation(&tiff, ContainerFormat::Tiff), code);
    }
}

#[test]
fn test_read_orientation_big_endian_tiff() {
    for code in 1..=8u16 {
        let tiff = make_tiff(false, &[orientation_entry(false, code)]);
        assert_eq!(read_orientation(&tiff, ContainerFormat::Tiff), code);
    }
}

#[test]
fn test_read_orientation_defaults_to_one() {
    // no orientation entry at all
    let tiff = make_tiff(true, &[(0x0100, 3, 1, [10, 0, 0, 0])]);
    assert_eq!(read_orientation(&tiff, ContainerFormat::Tiff), 1);
    // unknown stored value
    let tiff = make_tiff(true, &[orientation_entry(true, 200)]);
    assert_eq!(read_orientation(&tiff, ContainerFormat::Tiff), 1);
    // not a TIFF at all
    assert_eq!(read_orientation(b"hello", ContainerFormat::Tiff), 1);
    assert_eq!(read_orientation(b"", ContainerFormat::Jpeg), 1);
    // an unsupported container never reports a stored orientation
    let tiff = make_tiff(true, &[orientation_entry(true, 6)]);
    assert_eq!(read_orientation(&tiff, ContainerFormat::Other), 1);
}

#[test]
fn test_read_orientation_from_jpeg_app1() {
    for code in 1..=8u16 {
        let jpeg = jpeg_with_orientation(16, 8, code);
        assert_eq!(read_orientation(&jpeg, ContainerFormat::Jpeg), code);
    }
}

#[test]
fn test_orientation_entry_must_be_short_with_count_one() {
    // wrong field type
    let tiff = make_tiff(true, &[(0x0112, 4, 1, [6, 0, 0, 0])]);
    assert_eq!(read_orientation(&tiff, ContainerFormat::Tiff), 1);
    assert!(with_orientation(&tiff, ContainerFormat::Tiff, 6).is_none());
    // wrong count
    let tiff = make_tiff(true, &[(0x0112, 3, 2, [6, 0, 0, 0])]);
    assert_eq!(read_orientation(&tiff, ContainerFormat::Tiff), 1);
}

#[test]
fn test_with_orientation_patches_only_the_value_bytes() {
    let tiff = make_tiff(true, &[(0x0100, 3, 1, [10, 0, 0, 0]), orientation_entry(true, 1)]);
    let patched = with_orientation(&tiff, ContainerFormat::Tiff, 8).unwrap();
    assert_eq!(patched.len(), tiff.len());
    assert_eq!(read_orientation(&patched, ContainerFormat::Tiff), 8);
    let differing: Vec<usize> =
        (0..tiff.len()).filter(|&i| tiff[i] != patched[i]).collect();
    // the stored value moves from 1 to 8 in a single little-endian byte
    assert_eq!(differing.len(), 1);
    // other tags survive untouched
    assert_eq!(read_orientation(&patched, ContainerFormat::Tiff), 8);
}

#[test]
fn test_with_orientation_patches_jpeg_in_place() {
    let jpeg = jpeg_with_orientation(16, 8, 1);
    let patched = with_orientation(&jpeg, ContainerFormat::Jpeg, 6).unwrap();
    assert_eq!(patched.len(), jpeg.len());
    assert_eq!(read_orientation(&patched, ContainerFormat::Jpeg), 6);
    // the pixel data after the APP1 segment is untouched
    assert_eq!(&patched[patched.len() - 64..], &jpeg[jpeg.len() - 64..]);
}

#[test]
fn test_with_orientation_fails_without_orientation_entry() {
    let tiff = make_tiff(true, &[(0x0100, 3, 1, [10, 0, 0, 0])]);
    assert!(with_orientation(&tiff, ContainerFormat::Tiff, 6).is_none());
    let jpeg_plain = {
        let img = image::RgbImage::new(4, 4);
        let mut cursor = std::io::Cursor::new(Vec::new());
        image::DynamicImage::ImageRgb8(img)
            .write_to(&mut cursor, image::ImageFormat::Jpeg)
            .unwrap();
        cursor.into_inner()
    };
    assert!(with_orientation(&jpeg_plain, ContainerFormat::Jpeg, 6).is_none());
}

#[test]
fn test_container_format_follows_extension_case_insensitively() {
    assert_eq!(container_format_for_path("/d/a.jpg"), ContainerFormat::Jpeg);
    assert_eq!(container_format_for_path("/d/a.JPEG"), ContainerFormat::Jpeg);
    assert_eq!(container_format_for_path("/d/a.tif"), ContainerFormat::Tiff);
    assert_eq!(container_format_for_path("/d/a.TIFF"), ContainerFormat::Tiff);
    assert_eq!(container_format_for_path("/d/a.png"), ContainerFormat::Other);
    assert_eq!(container_format_for_path("/d/noext"), ContainerFormat::Other);
}
