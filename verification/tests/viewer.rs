use shashin::viewer::{image_format_name, index_of_path, load_image_from, next_index, position_display, prev_index, rotated_dimensions, Flip, Rotation};

#[test]
fn rotation_cycle_cw() {
    let mut r = Rotation::Cw0;
    r = r.rotate_cw();
    assert_eq!(r, Rotation::Cw90);
    r = r.rotate_cw();
    assert_eq!(r, Rotation::Cw180);
    r = r.rotate_cw();
    assert_eq!(r, Rotation::Cw270);
    r = r.rotate_cw();
    assert_eq!(r, Rotation::Cw0);
}

#[test]
fn rotation_cycle_ccw() {
    let mut r = Rotation::Cw0;
    r = r.rotate_ccw();
    assert_eq!(r, Rotation::Cw270);
    r = r.rotate_ccw();
    assert_eq!(r, Rotation::Cw180);
    r = r.rotate_ccw();
    assert_eq!(r, Rotation::Cw90);
    r = r.rotate_ccw();
    assert_eq!(r, Rotation::Cw0);
}

#[test]
fn rotation_degrees() {
    assert_eq!(Rotation::Cw0.degrees(), 0);
    assert_eq!(Rotation::Cw90.degrees(), 90);
    assert_eq!(Rotation::Cw180.degrees(), 180);
    assert_eq!(Rotation::Cw270.degrees(), 270);
}

#[test]
fn view_state_rotated_dimensions() {
    assert_eq!(rotated_dimensions(Rotation::Cw0, 100, 50), (100, 50));
    assert_eq!(rotated_dimensions(Rotation::Cw90, 100, 50), (50, 100));
    assert_eq!(rotated_dimensions(Rotation::Cw180, 100, 50), (100, 50));
    assert_eq!(rotated_dimensions(Rotation::Cw270, 100, 50), (50, 100));
}

#[test]
fn viewer_navigation_wraps() {
    assert_eq!(position_display(2, 3), "3 / 3");
    assert_eq!(next_index(2, 3, true), Some(0));
    assert_eq!(prev_index(0, 3, true), Some(2));
}

#[test]
fn navigation_without_loop_stops() {
    assert_eq!(next_index(2, 3, false), None);
    assert_eq!(next_index(1, 3, false), Some(2));
    assert_eq!(prev_index(0, 3, false), None);
    assert_eq!(prev_index(1, 3, false), Some(0));
    assert_eq!(next_index(0, 0, true), None);
    assert_eq!(prev_index(0, 0, true), None);
    assert_eq!(position_display(0, 0), "");
    assert_eq!(position_display(0, 12), "1 / 12");
}

#[test]
fn index_of_path_compares_components() {
    let paths = vec!["/a/x.jpg".to_string(), "/a/y.jpg".to_string(), "/a/y.jpg".to_string()];
    assert_eq!(index_of_path(&paths, "/a/y.jpg"), 1);
    assert_eq!(index_of_path(&paths, "/a//./y.jpg"), 1);
    assert_eq!(index_of_path(&paths, "/a/z.jpg"), 0);
    assert_eq!(index_of_path(&paths, "a/y.jpg"), 0);
}

#[test]
fn flip_default_is_unflipped() {
    let f = Flip::default();
    assert!(!f.horizontal && !f.vertical);
}

#[test]
fn format_name_from_extension() {
    assert_eq!(image_format_name("/photos/a.png"), "Png");
    assert_eq!(image_format_name("/photos/b.JPG"), "Jpeg");
    assert_eq!(image_format_name("c.webp"), "WebP");
    assert_eq!(image_format_name("/photos/notes.txt"), "Unknown");
    assert_eq!(image_format_name("/photos/noext"), "Unknown");
}

#[test]
fn next_index_past_the_end() {
    assert_eq!(next_index(5, 3, true), Some(0));
    assert_eq!(next_index(5, 3, false), None);
    assert_eq!(prev_index(5, 3, false), Some(4));
}

fn png_bytes(w: u32, h: u32) -> (Vec<u8>, Vec<u8>) {
    let img = image::RgbaImage::from_fn(w, h, |x, y| image::Rgba([x as u8, y as u8, 7, 255]));
    let mut out = std::io::Cursor::new(Vec::new());
    img.write_to(&mut out, image::ImageFormat::Png).unwrap();
    (out.into_inner(), img.into_raw())
}

#[test]
fn load_image_decodes_bytes() {
    let (bytes, pixels) = png_bytes(3, 2);
    let img = load_image_from("/pics/a.PNG", &bytes).expect("decodes");
    assert_eq!((img.width, img.height), (3, 2));
    assert_eq!(img.data, pixels);
    assert_eq!(img.path, "/pics/a.PNG");
    assert_eq!(img.format, "Png");
    assert!(load_image_from("/pics/a.txt", &bytes).is_none());
    assert!(load_image_from("/pics/noext", &bytes).is_none());
    assert!(load_image_from("/pics/a.png", b"not a png").is_none());
}

#[test]
fn format_table_matches_image_crate() {
    let paths = [
        "a.png", "b.JPG", "c.jpeg", "d.Jfif", "e.apng", "f.gif", "g.WEBP", "h.tif", "i.tiff", "j.tga",
        "k.dds", "l.bmp", "m.ico", "n.hdr", "o.exr", "p.pbm", "q.pam", "r.ppm", "s.pgm", "t.pnm",
        "u.ff", "v.qoi", "w.avif", "x.txt", "noext", ".png", "dir/.hidden.png", "a.tar.png", "photo.",
        "/", "", "a/..", "a/.", "photo.jpg/", "./p.png", "//x//y.Png", "a/./b.gif", "..png", "é.PNG",
    ];
    for p in paths {
        let expected = image::ImageFormat::from_path(p).map(|f| format!("{f:?}")).unwrap_or_else(|_| "Unknown".into());
        assert_eq!(image_format_name(p), expected, "{p:?}");
        let ext = shashin::path::extension_of(p).map(|v| v.into_iter().collect::<String>());
        let std_ext = std::path::Path::new(p).extension().map(|e| e.to_string_lossy().into_owned());
        assert_eq!(ext, std_ext, "{p:?}");
    }
}
