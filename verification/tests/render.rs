use shashin::config::GalleryConfig;
use shashin::gallery::{DirEntryInfo, Gallery};
use shashin::input::Mode;
use shashin::metadata::{FileInfo, ImageMetadata};
use shashin::render::{info_overlay_text, parse_hex_rgb, status_line};
use shashin::viewer::Rotation;

#[test]
fn parse_hex_color_valid() {
    let (r, g, b) = parse_hex_rgb("#2E3440").unwrap();
    assert!((f64::from(r) / 255.0 - 0.180).abs() < 0.01);
    assert!((f64::from(g) / 255.0 - 0.204).abs() < 0.01);
    assert!((f64::from(b) / 255.0 - 0.251).abs() < 0.01);
}

#[test]
fn parse_hex_color_no_hash() {
    let (r, _, _) = parse_hex_rgb("ECEFF4").unwrap();
    assert!(f64::from(r) / 255.0 > 0.9);
}

#[test]
fn parse_hex_color_invalid() {
    assert!(parse_hex_rgb("invalid").is_none());
    assert!(parse_hex_rgb("#FFF").is_none());
}

#[test]
fn parse_hex_edge_cases() {
    assert_eq!(parse_hex_rgb("##0a0B0c"), Some((10, 11, 12)));
    assert_eq!(parse_hex_rgb("+f+f+f"), Some((15, 15, 15)));
    assert_eq!(parse_hex_rgb("-f0000"), None);
    assert_eq!(parse_hex_rgb("é1234"), None);
    assert_eq!(parse_hex_rgb("1234567"), None);
    assert_eq!(parse_hex_rgb(""), None);
}

#[test]
fn viewer_status_line() {
    let gallery = Gallery::new(&GalleryConfig::default());
    let s = status_line(Mode::Viewer, Some("/pics/cat.png"), 1, 3, "150%", Rotation::Cw90, false, &gallery);
    assert_eq!(s, "cat.png  |  2 / 3  |  150%  |  90deg");
    let s = status_line(Mode::Slideshow, None, 0, 0, "100%", Rotation::Cw0, true, &gallery);
    assert_eq!(s, "  |    |  100%  |  0deg [SLIDESHOW]");
}

#[test]
fn gallery_status_line() {
    let mut gallery = Gallery::new(&GalleryConfig::default());
    let files = vec![
        DirEntryInfo { path: "/home/u/pics/a.jpg".into(), is_file: true, size: 1, modified: 0 },
        DirEntryInfo { path: "/home/u/pics/b.jpg".into(), is_file: true, size: 1, modified: 0 },
    ];
    gallery.scan_directory("/home/u/pics", files);
    let s = status_line(Mode::Gallery, None, 0, 0, "", Rotation::Cw0, false, &gallery);
    assert_eq!(s, "pics  |  2 images  |  sort: Name");
    gallery.toggle_mark();
    gallery.set_filter("A");
    let s = status_line(Mode::Gallery, None, 0, 0, "", Rotation::Cw0, false, &gallery);
    assert_eq!(s, "pics  |  2 images  |  sort: Name  |  filter: a  |  1 marked");
}

#[test]
fn info_overlay_lines() {
    assert_eq!(info_overlay_text(None, None), "No metadata available");
    let info = FileInfo {
        name: "a.png".into(),
        size: 10,
        modified: None,
        width: 2,
        height: 3,
        format: "Png".into(),
    };
    let meta = ImageMetadata { camera_make: Some("Canon".into()), ..Default::default() };
    let text = info_overlay_text(Some(&info), Some(&meta));
    assert_eq!(text, "File: a.png\nSize: 10 B\nDimensions: 2 x 3\nFormat: Png\n\nMake: Canon");
    let lens_only = ImageMetadata { lens_model: Some("RF 50mm".into()), ..Default::default() };
    let text = info_overlay_text(Some(&info), Some(&lens_only));
    assert_eq!(text, "File: a.png\nSize: 10 B\nDimensions: 2 x 3\nFormat: Png\n\nLens: RF 50mm");
    let orientation_only = ImageMetadata { orientation: Some(6), ..Default::default() };
    let text = info_overlay_text(Some(&info), Some(&orientation_only));
    assert_eq!(text, "File: a.png\nSize: 10 B\nDimensions: 2 x 3\nFormat: Png\n");
    let empty = ImageMetadata::default();
    assert_eq!(info_overlay_text(None, Some(&empty)), "No metadata available");
    assert_eq!(info_overlay_text(None, Some(&meta)), "Make: Canon");
    let text = info_overlay_text(Some(&info), Some(&empty));
    assert_eq!(text, "File: a.png\nSize: 10 B\nDimensions: 2 x 3\nFormat: Png");
}
