use shashin::metadata::{format_file_size, format_timestamp, is_leap_year, read_exif_fields, shutter_speed, ExifFields, FileInfo, ImageMetadata};
use shashin::text::trim;

#[test]
fn file_size_formatting() {
    assert_eq!(format_file_size(500), "500 B");
    assert_eq!(format_file_size(1500), "1.5 KB");
    assert_eq!(format_file_size(1_500_000), "1.4 MB");
    assert_eq!(format_file_size(1_500_000_000), "1.4 GB");
}

#[test]
fn file_size_matches_float_formatting() {
    fn reference(bytes: u64) -> String {
        const KB: u64 = 1024;
        const MB: u64 = 1024 * 1024;
        const GB: u64 = 1024 * 1024 * 1024;
        if bytes >= GB {
            format!("{:.1} GB", bytes as f64 / GB as f64)
        } else if bytes >= MB {
            format!("{:.1} MB", bytes as f64 / MB as f64)
        } else if bytes >= KB {
            format!("{:.1} KB", bytes as f64 / KB as f64)
        } else {
            format!("{bytes} B")
        }
    }
    let mut samples: Vec<u64> = vec![0, 1, 1023, 1024, 1075, 1126, 1280, 1331, 1433, 10_239, 10_240, 1_048_575,
        1_048_576, 1_153_434, 1_310_720, 1_073_741_823, 1_073_741_824, 1_181_116_006, 1_342_177_280,
        (1 << 53) - 1, 1 << 53, (1 << 53) + 1, (1 << 54) + 3, u64::MAX - 1, u64::MAX];
    let mut x: u64 = 0x9E37_79B9_7F4A_7C15;
    for _ in 0..20_000 {
        x ^= x << 13;
        x ^= x >> 7;
        x ^= x << 17;
        samples.push(x >> (x % 64));
        samples.push((x % 4096) * 1024 / 10 + 512);
    }
    for b in samples {
        assert_eq!(format_file_size(b), reference(b), "bytes = {b}");
    }
}

#[test]
fn file_info_display() {
    let info = FileInfo {
        name: "test.jpg".into(),
        size: 2_500_000,
        modified: Some("2024-01-15 10:30:00".into()),
        width: 4000,
        height: 3000,
        format: "JPEG".into(),
    };
    assert_eq!(info.size_display(), "2.4 MB");
    assert_eq!(info.dimensions_display(), "4000 x 3000");
    assert_eq!(info.display_lines().len(), 5);
}

#[test]
fn file_info_lines_and_from_path() {
    let info = FileInfo::from_path("/photos/trip/IMG_1.png", 640, 480, "Png", 2048, Some(0));
    assert_eq!(info.name, "IMG_1.png");
    assert_eq!(info.modified.as_deref(), Some("1970-01-01 00:00:00"));
    let lines = info.display_lines();
    let expect = vec![
        ("File".to_string(), "IMG_1.png".to_string()),
        ("Size".to_string(), "2.0 KB".to_string()),
        ("Dimensions".to_string(), "640 x 480".to_string()),
        ("Format".to_string(), "Png".to_string()),
        ("Modified".to_string(), "1970-01-01 00:00:00".to_string()),
    ];
    assert_eq!(lines, expect);
    let bare = FileInfo::from_path("/", 1, 2, "Bmp", 0, None);
    assert_eq!(bare.name, "unknown");
    assert_eq!(bare.display_lines().len(), 4);
}

#[test]
fn timestamp_formatting() {
    // 2024-01-01 00:00:00 UTC = 1704067200
    let ts = format_timestamp(1_704_067_200);
    assert!(ts.starts_with("2024-01-01"));
}

#[test]
fn timestamp_known_dates() {
    assert_eq!(format_timestamp(0), "1970-01-01 00:00:00");
    assert_eq!(format_timestamp(951_782_400), "2000-02-29 00:00:00");
    assert_eq!(format_timestamp(1_709_251_199), "2024-02-29 23:59:59");
    assert_eq!(format_timestamp(1_705_314_600), "2024-01-15 10:30:00");
    assert_eq!(format_timestamp(4_107_542_400), "2100-03-01 00:00:00");
    assert_eq!(format_timestamp(253_402_300_799), "9999-12-31 23:59:59");
    assert_eq!(format_timestamp(253_402_300_800), "10000-01-01 00:00:00");
}

#[test]
fn leap_years() {
    assert!(is_leap_year(2024));
    assert!(is_leap_year(2000));
    assert!(!is_leap_year(1900));
    assert!(!is_leap_year(2023));
}

#[test]
fn metadata_default_has_no_fields() {
    let meta = ImageMetadata::default();
    assert!(!meta.has_any());
    assert!(meta.display_lines().is_empty());
}

#[test]
fn metadata_with_fields_has_display_lines() {
    let meta = ImageMetadata {
        camera_make: Some("Canon".into()),
        camera_model: Some("EOS R5".into()),
        aperture: Some("f/2.8".into()),
        iso: Some("400".into()),
        ..Default::default()
    };
    assert!(meta.has_any());
    let lines = meta.display_lines();
    assert_eq!(lines.len(), 4);
    assert_eq!(lines[0].0, "Make");
    assert_eq!(lines[0].1, "Canon");
}

#[test]
fn gps_display_format() {
    let meta = ImageMetadata {
        gps_latitude: Some(format!("{:.6}", 48.8566_f64)),
        gps_longitude: Some(format!("{:.6}", 2.3522_f64)),
        ..Default::default()
    };
    let lines = meta.display_lines();
    assert_eq!(lines.len(), 1);
    assert_eq!(lines[0].0, "GPS");
    assert!(lines[0].1.contains("48.856600"));
}

#[test]
fn metadata_lines_in_display_order() {
    let meta = ImageMetadata {
        camera_make: Some("Nikon".into()),
        flash: Some("fired".into()),
        exif_width: Some(6000),
        exif_height: Some(4000),
        gps_latitude: Some("1.000000".into()),
        software: Some("edit".into()),
        lens_model: Some("50mm".into()),
        shutter_speed: Some("1/250 s".into()),
        ..Default::default()
    };
    let labels: Vec<String> = meta.display_lines().into_iter().map(|(l, _)| l).collect();
    assert_eq!(labels, vec!["Make", "Lens", "Shutter", "EXIF Size", "Software", "Flash"]);
    assert_eq!(meta.display_lines()[3].1, "6000 x 4000");
    assert!(ImageMetadata { lens_model: Some("x".into()), ..Default::default() }.has_any());
    assert!(ImageMetadata { orientation: Some(1), ..Default::default() }.has_any());
    let orientation_only = ImageMetadata { orientation: Some(1), ..Default::default() };
    assert!(orientation_only.display_lines().is_empty());
}

fn blank_fields() -> ExifFields {
    ExifFields {
        make: None,
        model: None,
        lens_model: None,
        focal_length: None,
        f_number: None,
        exposure_time: None,
        iso: None,
        date_time_original: None,
        orientation: None,
        gps_latitude: None,
        gps_latitude_ref: None,
        gps_longitude: None,
        gps_longitude_ref: None,
        pixel_x_dimension: None,
        image_width: None,
        pixel_y_dimension: None,
        image_length: None,
        software: None,
        copyright: None,
        exposure_bias: None,
        white_balance: None,
        flash: None,
    }
}

#[test]
fn metadata_from_exif_fields() {
    let mut f = blank_fields();
    f.make = Some("  Canon  ".into());
    f.model = Some("   ".into());
    f.focal_length = Some((50, 1));
    f.f_number = Some((28, 10));
    f.exposure_time = Some((1, 250));
    f.iso = Some(" 400".into());
    f.date_time_original = Some("2024-01-15 10:30:00".into());
    f.orientation = Some(6);
    f.image_width = Some(4000);
    f.pixel_y_dimension = Some(3000);
    f.image_length = Some(2000);
    f.white_balance = Some("auto".into());
    let m = ImageMetadata::from_exif_fields(&f, None, None);
    assert_eq!(m.camera_make.as_deref(), Some("Canon"));
    assert_eq!(m.camera_model, None);
    assert_eq!(m.focal_length.as_deref(), Some("50.0 mm"));
    assert_eq!(m.aperture.as_deref(), Some("f/2.8"));
    assert_eq!(m.shutter_speed.as_deref(), Some("1/250 s"));
    assert_eq!(m.iso.as_deref(), Some(" 400"));
    assert_eq!(m.date_taken.as_deref(), Some("2024-01-15 10:30:00"));
    assert_eq!(m.orientation, Some(6));
    assert_eq!(m.exif_width, Some(4000));
    assert_eq!(m.exif_height, Some(3000));
    assert_eq!(m.white_balance.as_deref(), Some("auto"));
    assert_eq!(m.flash, None);
    assert!(m.has_any());
    let empty = ImageMetadata::from_exif_fields(&blank_fields(), None, None);
    assert!(!empty.has_any());
    assert!(empty.display_lines().is_empty());
}

#[test]
fn shutter_speed_forms() {
    assert_eq!(shutter_speed(1, 0), None);
    assert_eq!(shutter_speed(0, 0), None);
    assert_eq!(shutter_speed(0, 100).as_deref(), Some("0 s"));
    assert_eq!(shutter_speed(1, 250).as_deref(), Some("1/250 s"));
    assert_eq!(shutter_speed(3, 1000).as_deref(), Some("1/333 s"));
    assert_eq!(shutter_speed(2, 1).as_deref(), Some("2.0 s"));
    assert_eq!(shutter_speed(5, 2).as_deref(), Some("2.5 s"));
    assert_eq!(shutter_speed(10, 10).as_deref(), Some("1.0 s"));
}

#[test]
fn ratios_match_float_formatting() {
    fn reference(num: u32, den: u32) -> String {
        format!("{:.1}", f64::from(num) / f64::from(den))
    }
    fn shown(num: u32, den: u32) -> String {
        let mut f = blank_fields();
        f.focal_length = Some((num, den));
        ImageMetadata::from_exif_fields(&f, None, None).focal_length.unwrap()
    }
    let mut pairs: Vec<(u32, u32)> = vec![(0, 0), (1, 0), (0, 7), (1, 4), (3, 4), (5, 4), (1, 20), (3, 20),
        (1, 3), (2, 3), (28, 10), (35, 10), (45, 10), (1, 1), (u32::MAX, 1), (u32::MAX, u32::MAX),
        (1, u32::MAX), (u32::MAX, 2), (u32::MAX - 1, 3), (7, 80), (25, 100), (15, 100), (105, 1000)];
    let mut x: u64 = 0x2545_F491_4F6C_DD1D;
    for _ in 0..20_000 {
        x ^= x << 13;
        x ^= x >> 7;
        x ^= x << 17;
        let num = (x >> (x % 32)) as u32;
        let den = ((x >> 32) >> ((x >> 8) % 32)) as u32;
        pairs.push((num, den));
        pairs.push(((x % 2000) as u32, ((x >> 20) % 400) as u32 * 5));
    }
    for (n, d) in pairs {
        assert_eq!(shown(n, d), format!("{} mm", reference(n, d)), "{n}/{d}");
        if d != 0 && n >= d {
            assert_eq!(shutter_speed(n, d), Some(format!("{} s", reference(n, d))), "{n}/{d}");
        }
    }
}

fn tiff_with(fields: &[exif::Field]) -> Vec<u8> {
    let mut writer = exif::experimental::Writer::new();
    for f in fields {
        writer.push_field(f);
    }
    let mut buf = std::io::Cursor::new(Vec::new());
    writer.write(&mut buf, false).unwrap();
    buf.into_inner()
}

fn field(tag: exif::Tag, value: exif::Value) -> exif::Field {
    exif::Field { tag, ifd_num: exif::In::PRIMARY, value }
}

fn rational(num: u32, denom: u32) -> exif::Rational {
    exif::Rational { num, denom }
}

#[test]
fn exif_fields_read_from_bytes() {
    let fields = vec![
        field(exif::Tag::Make, exif::Value::Ascii(vec![b"Canon".to_vec()])),
        field(exif::Tag::FNumber, exif::Value::Rational(vec![rational(28, 10)])),
        field(exif::Tag::ExposureTime, exif::Value::Rational(vec![rational(1, 250)])),
        field(exif::Tag::FocalLength, exif::Value::Rational(vec![rational(50, 1)])),
        field(exif::Tag::Orientation, exif::Value::Short(vec![6])),
        field(exif::Tag::PixelXDimension, exif::Value::Long(vec![4000])),
        field(exif::Tag::PixelYDimension, exif::Value::Short(vec![3000])),
        field(exif::Tag::GPSLatitude, exif::Value::Rational(vec![rational(48, 1), rational(51, 1), rational(2376, 100)])),
        field(exif::Tag::GPSLatitudeRef, exif::Value::Ascii(vec![b"N".to_vec()])),
    ];
    let bytes = tiff_with(&fields);
    let f = read_exif_fields(&bytes).expect("EXIF data");
    assert!(f.make.as_deref().unwrap().contains("Canon"));
    assert_eq!(f.model, None);
    assert_eq!(f.f_number, Some((28, 10)));
    assert_eq!(f.exposure_time, Some((1, 250)));
    assert_eq!(f.focal_length, Some((50, 1)));
    assert_eq!(f.orientation, Some(6));
    assert_eq!(f.pixel_x_dimension, Some(4000));
    assert_eq!(f.pixel_y_dimension, Some(3000));
    assert_eq!(f.image_width, None);
    assert_eq!(f.gps_latitude, Some(vec![(48, 1), (51, 1), (2376, 100)]));
    assert!(f.gps_latitude_ref.as_deref().unwrap().contains('N'));
    assert_eq!(f.gps_longitude, None);
    let m = ImageMetadata::from_exif_fields(&f, None, None);
    assert_eq!(m.aperture.as_deref(), Some("f/2.8"));
    assert_eq!(m.shutter_speed.as_deref(), Some("1/250 s"));
    assert_eq!(m.focal_length.as_deref(), Some("50.0 mm"));
    assert_eq!((m.exif_width, m.exif_height), (Some(4000), Some(3000)));
    assert!(read_exif_fields(b"not an image at all").is_none());
}

#[test]
fn trim_matches_str_trim() {
    let samples = [
        "", " ", "  a  ", "\t\nx y\r\n", "\u{a0}z\u{3000}", "\u{2009}\u{200b}", "\u{85}q\u{2028}",
        "\u{1680}\u{180e}w", "  \u{feff}", "no-space", "\u{202f}\u{205f}m\u{2029}",
    ];
    for s in samples {
        assert_eq!(trim(s), s.trim(), "{s:?}");
    }
    for c in (0u32..0x3100).filter_map(char::from_u32) {
        let s = format!("{c}a{c}");
        assert_eq!(trim(&s), s.trim(), "U+{:04X}", c as u32);
    }
}
