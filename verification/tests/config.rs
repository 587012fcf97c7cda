use shashin::config::{FitMode, GalleryConfig, OutputConfig, SortOrder, ThemeConfig};

#[test]
fn fit_mode_default() {
    assert_eq!(FitMode::default(), FitMode::Fit);
}

#[test]
fn sort_order_default() {
    assert_eq!(SortOrder::default(), SortOrder::Name);
}

#[test]
fn gallery_config_defaults() {
    let c = GalleryConfig::default();
    assert_eq!(c.thumbnail_size, 256);
    assert_eq!(c.columns, 0);
    assert_eq!(c.sort, SortOrder::Name);
    assert!(!c.sort_reverse);
    assert!(c.show_filenames);
    assert!(c.cache_dir.is_none());
}

#[test]
fn output_config_screenshot_dir() {
    let c = OutputConfig::with_picture_dir(Some("/home/u/Pictures".to_string()));
    assert_eq!(c.save_dir, "/home/u/Pictures/Screenshots");
    assert_eq!(c.format, "png");
    assert_eq!(c.quality, 95);
    let c = OutputConfig::with_picture_dir(Some("/pics/".to_string()));
    assert_eq!(c.save_dir, "/pics/Screenshots");
    let c = OutputConfig::with_picture_dir(None);
    assert_eq!(c.save_dir, "~/Pictures/Screenshots");
}

#[test]
fn theme_defaults() {
    let t = ThemeConfig::default();
    assert_eq!(t.background, "#2e3440");
    assert_eq!(t.foreground, "#e5e9f0");
    assert_eq!(t.accent, "#88c0d0");
    assert_eq!(t.muted, "#4c566a");
}
