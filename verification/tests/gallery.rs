use shashin::config::{GalleryConfig, SortOrder};
use shashin::gallery::{is_image_file, list_images_in_dir, thumbnail_from, DirEntryInfo, Gallery, ThumbnailData};

fn file(path: &str, size: u64, modified: u64) -> DirEntryInfo {
    DirEntryInfo { path: path.to_string(), is_file: true, size, modified }
}

fn gallery_with(config: &GalleryConfig, files: Vec<DirEntryInfo>) -> Gallery {
    let mut gallery = Gallery::new(config);
    gallery.scan_directory("/pics", files);
    gallery
}

#[test]
fn is_image_file_accepts_valid_extensions() {
    assert!(is_image_file("photo.jpg"));
    assert!(is_image_file("photo.JPEG"));
    assert!(is_image_file("photo.png"));
    assert!(is_image_file("photo.webp"));
    assert!(is_image_file("photo.gif"));
    assert!(is_image_file("photo.bmp"));
    assert!(is_image_file("photo.tiff"));
    assert!(is_image_file("photo.avif"));
}

#[test]
fn is_image_file_rejects_non_images() {
    assert!(!is_image_file("document.pdf"));
    assert!(!is_image_file("video.mp4"));
    assert!(!is_image_file("noext"));
}

#[test]
fn is_image_file_edge_cases() {
    // a leading dot is not an extension, the last dot counts, case is ignored
    assert!(!is_image_file(".png"));
    assert!(is_image_file("archive.tar.PNG"));
    assert!(is_image_file("/some/dir/pic.Tif"));
    assert!(is_image_file("icon.ico"));
    assert!(!is_image_file("photo.jpg/.."));
    assert!(is_image_file("photo.jpg/"));
    assert!(!is_image_file("photo."));
    assert!(!is_image_file(""));
}

#[test]
fn gallery_new_is_empty() {
    let config = GalleryConfig::default();
    let gallery = Gallery::new(&config);
    assert!(gallery.is_empty());
    assert_eq!(gallery.len(), 0);
    assert!(gallery.selected_entry().is_none());
}

#[test]
fn gallery_navigation() {
    let config = GalleryConfig { columns: 3, ..Default::default() };
    let files = (0..9).map(|i| file(&format!("img{i}.jpg"), 1000, 0)).collect();
    let mut gallery = gallery_with(&config, files);

    assert_eq!(gallery.selected_index(), 0);
    gallery.move_right();
    assert_eq!(gallery.selected_index(), 1);
    gallery.move_down();
    assert_eq!(gallery.selected_index(), 4); // 1 + 3
    gallery.move_left();
    assert_eq!(gallery.selected_index(), 3);
    gallery.move_up();
    assert_eq!(gallery.selected_index(), 0);
}

#[test]
fn gallery_select_first_last() {
    let config = GalleryConfig::default();
    let files = (0..5).map(|i| file(&format!("img{i}.jpg"), 1000, 0)).collect();
    let mut gallery = gallery_with(&config, files);
    gallery.select_last();
    assert_eq!(gallery.selected_index(), 4);
    gallery.select_first();
    assert_eq!(gallery.selected_index(), 0);
}

#[test]
fn gallery_filter() {
    let config = GalleryConfig::default();
    let files = vec![file("sunset.jpg", 1000, 0), file("mountain.png", 2000, 0)];
    let mut gallery = gallery_with(&config, files);

    gallery.set_filter("sun");
    assert_eq!(gallery.effective_len(), 1);
    gallery.clear_filter();
    assert_eq!(gallery.effective_len(), 2);
}

#[test]
fn gallery_toggle_mark() {
    let config = GalleryConfig::default();
    let mut gallery = gallery_with(&config, vec![file("img.jpg", 1000, 0)]);
    assert_eq!(gallery.marked_count(), 0);
    gallery.toggle_mark();
    assert_eq!(gallery.marked_count(), 1);
    gallery.toggle_mark();
    assert_eq!(gallery.marked_count(), 0);
}

#[test]
fn scan_keeps_image_files_sorted_by_lowercase_name() {
    let config = GalleryConfig::default();
    let mut gallery = Gallery::new(&config);
    let listing = vec![
        file("/pics/b.PNG", 3, 30),
        DirEntryInfo { path: "/pics/sub.jpg".to_string(), is_file: false, size: 0, modified: 0 },
        file("/pics/notes.txt", 1, 1),
        file("/pics/A.jpg", 2, 20),
        file("/pics/c.gif", 1, 10),
    ];
    let count = gallery.scan_directory("/pics", listing);
    assert_eq!(count, 3);
    let names: Vec<&str> = gallery.entries().iter().map(|e| e.name.as_str()).collect();
    assert_eq!(names, vec!["A.jpg", "b.PNG", "c.gif"]);
    assert_eq!(gallery.directory(), "/pics");
    assert_eq!(gallery.all_paths(), vec!["/pics/A.jpg", "/pics/b.PNG", "/pics/c.gif"]);
    assert!(gallery.entries().iter().all(|e| !e.marked && !e.thumbnail_ready));
}

#[test]
fn cycle_sort_orders_by_date_size_and_back() {
    let config = GalleryConfig::default();
    let files = vec![file("a.jpg", 300, 2), file("b.jpg", 100, 3), file("c.jpg", 200, 1)];
    let mut gallery = gallery_with(&config, files);
    assert_eq!(gallery.sort_order(), SortOrder::Name);
    gallery.cycle_sort();
    assert_eq!(gallery.sort_order(), SortOrder::Date);
    let names: Vec<&str> = gallery.entries().iter().map(|e| e.name.as_str()).collect();
    assert_eq!(names, vec!["c.jpg", "a.jpg", "b.jpg"]);
    gallery.cycle_sort();
    assert_eq!(gallery.sort_order(), SortOrder::Size);
    let names: Vec<&str> = gallery.entries().iter().map(|e| e.name.as_str()).collect();
    assert_eq!(names, vec!["b.jpg", "c.jpg", "a.jpg"]);
    gallery.cycle_sort();
    assert_eq!(gallery.sort_order(), SortOrder::Dimensions);
    let names: Vec<&str> = gallery.entries().iter().map(|e| e.name.as_str()).collect();
    assert_eq!(names, vec!["a.jpg", "b.jpg", "c.jpg"]);
    gallery.cycle_sort();
    assert_eq!(gallery.sort_order(), SortOrder::Name);
}

#[test]
fn sort_is_stable_and_reverse_flips_it() {
    let config = GalleryConfig { sort: SortOrder::Size, ..Default::default() };
    let files = vec![file("x.jpg", 5, 0), file("y.jpg", 1, 0), file("z.jpg", 5, 0)];
    let mut gallery = gallery_with(&config, files);
    let names: Vec<&str> = gallery.entries().iter().map(|e| e.name.as_str()).collect();
    assert_eq!(names, vec!["y.jpg", "x.jpg", "z.jpg"]);
    gallery.toggle_sort_reverse();
    let names: Vec<&str> = gallery.entries().iter().map(|e| e.name.as_str()).collect();
    // equal sizes keep their order from before the sort, then the whole list is reversed
    assert_eq!(names, vec!["z.jpg", "x.jpg", "y.jpg"]);
}

#[test]
fn filter_is_case_insensitive_and_resets_selection() {
    let config = GalleryConfig::default();
    let files = vec![file("Sunrise.jpg", 1, 0), file("beach.jpg", 1, 0), file("SUNSET.png", 1, 0)];
    let mut gallery = gallery_with(&config, files);
    gallery.move_right();
    gallery.move_right();
    assert_eq!(gallery.selected_index(), 2);
    gallery.set_filter("SuN");
    assert_eq!(gallery.filter_query(), "sun");
    assert_eq!(gallery.selected_index(), 0);
    assert_eq!(gallery.effective_len(), 2);
    assert_eq!(gallery.selected_path(), Some("Sunrise.jpg"));
    let shown: Vec<&str> = gallery.visible_entries().iter().map(|(_, e)| e.name.as_str()).collect();
    assert_eq!(shown, vec!["Sunrise.jpg", "SUNSET.png"]);
    gallery.set_filter("zzz");
    assert_eq!(gallery.effective_len(), 0);
    assert!(gallery.selected_entry().is_none());
    gallery.set_filter("");
    assert_eq!(gallery.effective_len(), 3);
}

#[test]
fn actual_index_follows_the_filter() {
    let config = GalleryConfig::default();
    let files = vec![file("a.jpg", 1, 0), file("b.jpg", 1, 0), file("ab.jpg", 1, 0)];
    let mut gallery = gallery_with(&config, files);
    assert_eq!(gallery.actual_index(2), Some(2));
    assert_eq!(gallery.actual_index(3), None);
    gallery.set_filter("b");
    assert_eq!(gallery.actual_index(0), Some(1));
    assert_eq!(gallery.actual_index(1), Some(2));
    assert_eq!(gallery.actual_index(2), None);
}

#[test]
fn toggle_mark_counts_marked_entries() {
    let config = GalleryConfig::default();
    let files = vec![file("a.jpg", 1, 0), file("b.jpg", 1, 0)];
    let mut gallery = gallery_with(&config, files);
    gallery.toggle_mark();
    gallery.move_right();
    gallery.toggle_mark();
    assert_eq!(gallery.marked_count(), 2);
    gallery.toggle_mark();
    assert_eq!(gallery.marked_count(), 1);
    assert!(gallery.entries()[0].marked);
    assert!(!gallery.entries()[1].marked);
}

#[test]
fn moves_stop_at_the_edges() {
    let config = GalleryConfig { columns: 2, ..Default::default() };
    let files = (0..3).map(|i| file(&format!("p{i}.png"), 1, 0)).collect();
    let mut gallery = gallery_with(&config, files);
    gallery.move_left();
    gallery.move_up();
    assert_eq!(gallery.selected_index(), 0);
    gallery.move_down();
    assert_eq!(gallery.selected_index(), 2);
    gallery.move_down();
    assert_eq!(gallery.selected_index(), 2);
    gallery.move_right();
    assert_eq!(gallery.selected_index(), 2);
    let mut empty = Gallery::new(&config);
    empty.move_right();
    empty.move_down();
    empty.select_last();
    assert_eq!(empty.selected_index(), 0);
}

#[test]
fn scrolling_keeps_the_selection_visible() {
    let config = GalleryConfig { columns: 1, ..Default::default() };
    let files = (0..10).map(|i| file(&format!("p{i}.png"), 1, 0)).collect();
    let mut gallery = gallery_with(&config, files);
    assert_eq!(gallery.visible_rows(), 4);
    for _ in 0..5 {
        gallery.move_down();
    }
    assert_eq!(gallery.selected_index(), 5);
    assert_eq!(gallery.scroll_offset(), 2);
    let shown: Vec<usize> = gallery.visible_entries().iter().map(|(i, _)| *i).collect();
    assert_eq!(shown, vec![2, 3, 4, 5]);
    gallery.select_last();
    assert_eq!(gallery.scroll_offset(), 6);
    gallery.select_first();
    assert_eq!(gallery.scroll_offset(), 0);
}

#[test]
fn update_layout_fits_cells_and_keeps_one() {
    let config = GalleryConfig::default();
    let mut gallery = Gallery::new(&config);
    assert_eq!(gallery.columns(), 4);
    gallery.update_layout(1280, 720);
    assert_eq!(gallery.columns(), 4); // 1280 / 276
    assert_eq!(gallery.visible_rows(), 2); // 720 / 276
    gallery.update_layout(100, 100);
    assert_eq!(gallery.columns(), 1);
    assert_eq!(gallery.visible_rows(), 1);
    assert_eq!(gallery.thumbnail_size(), 256);
}

#[test]
fn set_thumbnail_matches_equal_paths() {
    let config = GalleryConfig::default();
    let files = vec![file("/pics/a.jpg", 1, 0), file("/pics/b.jpg", 1, 0)];
    let mut gallery = gallery_with(&config, files);
    let data = ThumbnailData { width: 2, height: 1, data: vec![0; 8] };
    gallery.set_thumbnail("/pics//./b.jpg", data);
    assert!(!gallery.entries()[0].thumbnail_ready);
    assert!(gallery.entries()[1].thumbnail_ready);
    assert_eq!(gallery.entries()[1].thumbnail_data.as_ref().map(|t| t.width), Some(2));
    gallery.set_thumbnail("/other/a.jpg", ThumbnailData { width: 1, height: 1, data: vec![] });
    assert!(!gallery.entries()[0].thumbnail_ready);
}

#[test]
fn list_images_sorted_by_ascii_lowercase_name() {
    let listing = vec![
        file("/d/Zebra.png", 1, 0),
        file("/d/apple.JPG", 1, 0),
        file("/d/readme.md", 1, 0),
        file("/d/Banana.gif", 1, 0),
        DirEntryInfo { path: "/d/x.png".to_string(), is_file: false, size: 0, modified: 0 },
    ];
    let paths = list_images_in_dir(listing);
    assert_eq!(paths, vec!["/d/apple.JPG", "/d/Banana.gif", "/d/Zebra.png"]);
}

fn names(gallery: &Gallery) -> Vec<String> {
    gallery.entries().iter().map(|e| e.name.clone()).collect()
}

#[test]
fn reverse_twice_restores_distinct_order() {
    let config = GalleryConfig::default();
    let files = vec![file("/pics/c.png", 3, 30), file("/pics/a.png", 1, 10), file("/pics/b.png", 2, 20)];
    let mut gallery = gallery_with(&config, files);
    let before = names(&gallery);
    assert_eq!(before, vec!["a.png", "b.png", "c.png"]);
    gallery.toggle_sort_reverse();
    assert_eq!(names(&gallery), vec!["c.png", "b.png", "a.png"]);
    gallery.toggle_sort_reverse();
    assert_eq!(names(&gallery), before);
}

#[test]
fn reverse_twice_flips_ties() {
    let config = GalleryConfig { sort: SortOrder::Date, ..Default::default() };
    let files = vec![file("/pics/x.png", 1, 5), file("/pics/y.png", 1, 5)];
    let mut gallery = gallery_with(&config, files);
    assert_eq!(names(&gallery), vec!["x.png", "y.png"]);
    gallery.toggle_sort_reverse();
    gallery.toggle_sort_reverse();
    assert_eq!(names(&gallery), vec!["y.png", "x.png"]);
}

#[test]
fn update_layout_keeps_configured_columns() {
    let mut gallery = Gallery::new(&GalleryConfig { columns: 3, ..Default::default() });
    gallery.update_layout(1280, 720);
    assert_eq!(gallery.columns(), 3);
    assert_eq!(gallery.visible_rows(), 2);
    gallery.update_layout(100, 100);
    assert_eq!(gallery.columns(), 3);
    assert_eq!(gallery.visible_rows(), 1);
}

#[test]
fn thumbnail_fits_within_bounds() {
    let img = image::RgbaImage::from_fn(30, 20, |x, y| image::Rgba([x as u8, y as u8, 0, 255]));
    let mut out = std::io::Cursor::new(Vec::new());
    img.write_to(&mut out, image::ImageFormat::Png).unwrap();
    let bytes = out.into_inner();
    let t = thumbnail_from(&bytes, "/pics/t.png", 10).expect("decodes");
    assert_eq!((t.width, t.height), (10, 7));
    assert_eq!(t.data.len(), 4 * 10 * 7);
    let t = thumbnail_from(&bytes, "/pics/t.png", 60).expect("decodes");
    assert_eq!((t.width, t.height), (60, 40));
    assert!(thumbnail_from(&bytes, "/pics/t.gif", 10).is_none());
    assert!(thumbnail_from(b"junk", "/pics/t.png", 10).is_none());
}
