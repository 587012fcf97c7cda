//! Settings of the viewer that hold no floating-point value: fit mode, sort order,
//! gallery, output and theme sections, with their defaults.

use vstd::prelude::*;
use crate::path::{join_path, joined};
use crate::text::push_str;

verus! {

/// A new string holding the characters of `s`.
pub fn owned(s: &str) -> (r: String)
    ensures
        r@ == s@,
{
    let mut r = String::new();
    push_str(&mut r, s);
    r
}

/// How the image fits within the viewer window.
#[derive(Clone, Copy, Debug, PartialEq, Eq, Structural)]
pub enum FitMode {
    /// Scale image to fit entirely within the window (letterbox).
    Fit,
    /// Scale image to fill the window completely (crop overflow).
    Fill,
    /// Display at original pixel size (1:1).
    Actual,
}

impl Default for FitMode {
    fn default() -> (r: Self)
        ensures
            r == FitMode::Fit,
    {
        FitMode::Fit
    }
}

/// Sort order for gallery and navigation.
#[derive(Clone, Copy, Debug, PartialEq, Eq, Structural)]
pub enum SortOrder {
    Name,
    Date,
    Size,
    Dimensions,
}

impl Default for SortOrder {
    fn default() -> (r: Self)
        ensures
            r == SortOrder::Name,
    {
        SortOrder::Name
    }
}

/// Gallery view settings.
#[derive(Clone, Debug)]
pub struct GalleryConfig {
    /// Thumbnail dimension in pixels (square).
    pub thumbnail_size: u32,
    /// Number of columns (0 = auto based on window width).
    pub columns: u32,
    /// Default sort order.
    pub sort: SortOrder,
    /// Whether to reverse sort direction.
    pub sort_reverse: bool,
    /// Show filenames below thumbnails.
    pub show_filenames: bool,
    /// Thumbnail cache directory (None = ~/.cache/shashin/thumbnails).
    pub cache_dir: Option<String>,
}

impl Default for GalleryConfig {
    fn default() -> (r: Self)
        ensures
            r.thumbnail_size == 256,
            r.columns == 0,
            r.sort == SortOrder::Name,
            !r.sort_reverse,
            r.show_filenames,
            r.cache_dir is None,
    {
        GalleryConfig {
            thumbnail_size: 256,
            columns: 0,
            sort: SortOrder::Name,
            sort_reverse: false,
            show_filenames: true,
            cache_dir: None,
        }
    }
}

/// Output settings for saving/exporting images.
#[derive(Clone, Debug)]
pub struct OutputConfig {
    /// Directory to save screenshots.
    pub save_dir: String,
    /// Image format: "png", "jpg", or "webp".
    pub format: String,
    /// Image quality (1-100, applicable to jpg/webp).
    pub quality: u8,
}

/// The directory where screenshots go, given the user's picture directory if known.
pub open spec fn screenshot_dir(pictures: Option<Seq<char>>) -> Seq<char> {
    let base = match pictures {
        Some(p) => p,
        None => "~/Pictures"@,
    };
    joined(base, "Screenshots"@)
}

impl OutputConfig {
    /// The default output settings for the user's picture directory, when known.
    pub fn with_picture_dir(pictures: Option<String>) -> (r: Self)
        ensures
            r.save_dir@ == screenshot_dir(match pictures {
                Some(p) => Some(p@),
                None => None,
            }),
            r.format@ == "png"@,
            r.quality == 95,
    {
        let base = match pictures {
            Some(p) => p,
            None => owned("~/Pictures"),
        };
        OutputConfig {
            save_dir: join_path(base.as_str(), "Screenshots"),
            format: owned("png"),
            quality: 95,
        }
    }
}

/// Theme overrides.
#[derive(Clone, Debug)]
pub struct ThemeConfig {
    /// Background color for the viewer area (hex).
    pub background: String,
    /// Foreground/text color (hex).
    pub foreground: String,
    /// Accent/selection color (hex).
    pub accent: String,
    /// Muted/secondary text color (hex).
    pub muted: String,
}

impl Default for ThemeConfig {
    fn default() -> (r: Self)
        ensures
            r.background@ == "#2e3440"@,
            r.foreground@ == "#e5e9f0"@,
            r.accent@ == "#88c0d0"@,
            r.muted@ == "#4c566a"@,
    {
        ThemeConfig {
            background: owned("#2e3440"),
            foreground: owned("#e5e9f0"),
            accent: owned("#88c0d0"),
            muted: owned("#4c566a"),
        }
    }
}

} // verus!
