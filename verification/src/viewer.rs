//! Single-image viewing: rotation and flip state, and navigation through a list of images.

use vstd::prelude::*;
use crate::path::{components, extension, same_path};
use crate::config::owned;
use crate::text::{ascii_lower, decimal, push_decimal, push_str};

verus! {

/// Rotation state in 90-degree increments.
#[derive(Clone, Copy, Debug, PartialEq, Eq, Structural)]
pub enum Rotation {
    Cw0,
    Cw90,
    Cw180,
    Cw270,
}

/// The angle of a rotation in degrees.
pub open spec fn rotation_degrees(r: Rotation) -> nat {
    match r {
        Rotation::Cw0 => 0,
        Rotation::Cw90 => 90,
        Rotation::Cw180 => 180,
        Rotation::Cw270 => 270,
    }
}

/// The rotation a quarter turn clockwise from `r`.
pub open spec fn rotated_cw(r: Rotation) -> Rotation {
    match r {
        Rotation::Cw0 => Rotation::Cw90,
        Rotation::Cw90 => Rotation::Cw180,
        Rotation::Cw180 => Rotation::Cw270,
        Rotation::Cw270 => Rotation::Cw0,
    }
}

/// The rotation a quarter turn counter-clockwise from `r`.
pub open spec fn rotated_ccw(r: Rotation) -> Rotation {
    match r {
        Rotation::Cw0 => Rotation::Cw270,
        Rotation::Cw90 => Rotation::Cw0,
        Rotation::Cw180 => Rotation::Cw90,
        Rotation::Cw270 => Rotation::Cw180,
    }
}

impl Rotation {
    /// Rotate 90 degrees clockwise.
    pub fn rotate_cw(self) -> (r: Self)
        ensures
            r == rotated_cw(self),
    {
        match self {
            Rotation::Cw0 => Rotation::Cw90,
            Rotation::Cw90 => Rotation::Cw180,
            Rotation::Cw180 => Rotation::Cw270,
            Rotation::Cw270 => Rotation::Cw0,
        }
    }

    /// Rotate 90 degrees counter-clockwise.
    pub fn rotate_ccw(self) -> (r: Self)
        ensures
            r == rotated_ccw(self),
    {
        match self {
            Rotation::Cw0 => Rotation::Cw270,
            Rotation::Cw90 => Rotation::Cw0,
            Rotation::Cw180 => Rotation::Cw90,
            Rotation::Cw270 => Rotation::Cw180,
        }
    }

    /// Get the rotation angle in degrees.
    pub fn degrees(self) -> (r: u32)
        ensures
            r == rotation_degrees(self),
    {
        match self {
            Rotation::Cw0 => 0,
            Rotation::Cw90 => 90,
            Rotation::Cw180 => 180,
            Rotation::Cw270 => 270,
        }
    }
}

/// Flip state.
#[derive(Clone, Copy, Debug, PartialEq, Eq, Structural)]
pub struct Flip {
    pub horizontal: bool,
    pub vertical: bool,
}

impl Default for Flip {
    fn default() -> (r: Self)
        ensures
            !r.horizontal && !r.vertical,
    {
        Flip { horizontal: false, vertical: false }
    }
}

/// The dimensions of an image as displayed under a rotation: swapped by a quarter turn.
pub fn rotated_dimensions(rotation: Rotation, img_w: u32, img_h: u32) -> (r: (u32, u32))
    ensures
        r == (if rotation_degrees(rotation) % 180 == 0 { (img_w, img_h) } else { (img_h, img_w) }),
{
    match rotation {
        Rotation::Cw0 | Rotation::Cw180 => (img_w, img_h),
        Rotation::Cw90 | Rotation::Cw270 => (img_h, img_w),
    }
}

/// The name (as `Debug` writes it) of the image format that an extension names,
/// whatever its ASCII case, as `image::ImageFormat::from_extension` tables it.
pub open spec fn format_of_extension(e: Seq<char>) -> Option<Seq<char>> {
    let l = ascii_lower(e);
    if l == "avif"@ {
        Some("Avif"@)
    } else if l == "jpg"@ || l == "jpeg"@ || l == "jfif"@ {
        Some("Jpeg"@)
    } else if l == "png"@ || l == "apng"@ {
        Some("Png"@)
    } else if l == "gif"@ {
        Some("Gif"@)
    } else if l == "webp"@ {
        Some("WebP"@)
    } else if l == "tif"@ || l == "tiff"@ {
        Some("Tiff"@)
    } else if l == "tga"@ {
        Some("Tga"@)
    } else if l == "dds"@ {
        Some("Dds"@)
    } else if l == "bmp"@ {
        Some("Bmp"@)
    } else if l == "ico"@ {
        Some("Ico"@)
    } else if l == "hdr"@ {
        Some("Hdr"@)
    } else if l == "exr"@ {
        Some("OpenExr"@)
    } else if l == "pbm"@ || l == "pam"@ || l == "ppm"@ || l == "pgm"@ || l == "pnm"@ {
        Some("Pnm"@)
    } else if l == "ff"@ {
        Some("Farbfeld"@)
    } else if l == "qoi"@ {
        Some("Qoi"@)
    } else {
        None
    }
}

/// The name of the image format that `image::ImageFormat::from_path` finds for a path:
/// the one its extension (as `Path::extension` takes it) names, or none.
pub open spec fn format_from_path(path: Seq<char>) -> Option<Seq<char>> {
    match extension(path) {
        Some(e) => format_of_extension(e),
        None => None,
    }
}

/// Calls `image::ImageFormat::from_path`, and writes the format's name. The contract
/// claims what the source shows: it takes the path's extension (`Path::extension`) and
/// looks it up, in ASCII lowercase, in the table of `ImageFormat::from_extension`.
#[verifier::external_body]
fn detect_format(path: &str) -> (r: Option<String>)
    ensures
        match r {
            Some(name) => format_from_path(path@) == Some(name@),
            None => format_from_path(path@) is None,
        },
{
    match image::ImageFormat::from_path(path) {
        Ok(f) => Some(format!("{f:?}")),
        Err(_) => None,
    }
}

/// The format name recorded for an image loaded from `path`: the one its extension
/// names, else `Unknown`.
pub fn image_format_name(path: &str) -> (r: String)
    ensures
        r@ == (match format_from_path(path@) {
            Some(name) => name,
            None => "Unknown"@,
        }),
{
    match detect_format(path) {
        Some(name) => name,
        None => {
            let mut s = String::new();
            push_str(&mut s, "Unknown");
            s
        },
    }
}

/// Loaded image data in RGBA format.
#[derive(Debug)]
pub struct LoadedImage {
    /// RGBA pixel data.
    pub data: Vec<u8>,
    /// Image width in pixels.
    pub width: u32,
    /// Image height in pixels.
    pub height: u32,
    /// Source file path.
    pub path: String,
    /// Detected image format name.
    pub format: String,
}

/// What `image` decodes from the bytes of a file at `path`, in the format that the
/// path's extension names, as RGBA: width, height and pixel bytes; none where it cannot.
pub uninterp spec fn decoded_rgba(bytes: Seq<u8>, path: Seq<char>) -> Option<(u32, u32, Seq<u8>)>;

/// Calls `image::ImageFormat::from_path` for the format, `image::load_from_memory_with_format`
/// to decode the bytes in it, and `DynamicImage::to_rgba8`. The contract names the
/// result, a function of the bytes and the path, and claims what the source shows of
/// the RGBA buffer: four bytes for each of its `width * height` pixels.
#[verifier::external_body]
fn decode_rgba(bytes: &[u8], path: &str) -> (r: Option<(u32, u32, Vec<u8>)>)
    ensures
        match r {
            Some((w, h, data)) => decoded_rgba(bytes@, path@) == Some((w, h, data@)) && data@.len() == 4 * w * h,
            None => decoded_rgba(bytes@, path@) is None,
        },
{
    let format = image::ImageFormat::from_path(path).ok()?;
    let rgba = image::load_from_memory_with_format(bytes, format).ok()?.to_rgba8();
    Some((rgba.width(), rgba.height(), rgba.into_raw()))
}

/// Decode the bytes of the image file at `path` to RGBA: none where its extension names
/// no format that decodes them.
pub fn load_image_from(path: &str, bytes: &[u8]) -> (r: Option<LoadedImage>)
    ensures
        r is Some <==> decoded_rgba(bytes@, path@) is Some,
        r matches Some(img) ==> {
            &&& decoded_rgba(bytes@, path@) == Some((img.width, img.height, img.data@))
            &&& img.data@.len() == 4 * img.width * img.height
            &&& img.path@ == path@
            &&& img.format@ == (match format_from_path(path@) {
                Some(name) => name,
                None => "Unknown"@,
            })
        },
{
    match decode_rgba(bytes, path) {
        Some((width, height, data)) => Some(LoadedImage {
            data,
            width,
            height,
            path: owned(path),
            format: image_format_name(path),
        }),
        None => None,
    }
}

/// The position after `current` in a list of `len` images: the next one, or the
/// first when navigation loops, or none.
pub open spec fn next_position(current: nat, len: nat, loop_navigation: bool) -> Option<nat> {
    if len == 0 {
        None
    } else if current + 1 < len {
        Some(current + 1)
    } else if loop_navigation {
        Some(0)
    } else {
        None
    }
}

/// The position before `current` in a list of `len` images: the previous one, or the
/// last when navigation loops, or none.
pub open spec fn prev_position(current: nat, len: nat, loop_navigation: bool) -> Option<nat> {
    if len == 0 {
        None
    } else if current > 0 {
        Some((current - 1) as nat)
    } else if loop_navigation {
        Some((len - 1) as nat)
    } else {
        None
    }
}

/// The index of the image to open for "next image" (see `next_position`).
pub fn next_index(current: usize, len: usize, loop_navigation: bool) -> (r: Option<usize>)
    requires
        len > 0 ==> current < usize::MAX,
    ensures
        match r {
            Some(i) => next_position(current as nat, len as nat, loop_navigation) == Some(i as nat),
            None => next_position(current as nat, len as nat, loop_navigation) is None,
        },
{
    if len == 0 {
        return None;
    }
    if current + 1 < len {
        Some(current + 1)
    } else if loop_navigation {
        Some(0)
    } else {
        None
    }
}

/// The index of the image to open for "previous image" (see `prev_position`).
pub fn prev_index(current: usize, len: usize, loop_navigation: bool) -> (r: Option<usize>)
    ensures
        match r {
            Some(i) => prev_position(current as nat, len as nat, loop_navigation) == Some(i as nat),
            None => prev_position(current as nat, len as nat, loop_navigation) is None,
        },
{
    if len == 0 {
        return None;
    }
    if current > 0 {
        Some(current - 1)
    } else if loop_navigation {
        Some(len - 1)
    } else {
        None
    }
}

/// The navigation position `N / M`, counting from one, or nothing for an empty list.
pub open spec fn position_text(current: nat, len: nat) -> Seq<char> {
    if len == 0 {
        Seq::empty()
    } else {
        decimal(current + 1) + " / "@ + decimal(len)
    }
}

/// Get the navigation position as "N / M" string.
pub fn position_display(current_index: usize, len: usize) -> (r: String)
    requires
        len > 0 ==> current_index < usize::MAX,
    ensures
        r@ == position_text(current_index as nat, len as nat),
{
    let mut s = String::new();
    if len > 0 {
        push_decimal(&mut s, (current_index + 1) as u64);
        push_str(&mut s, " / ");
        push_decimal(&mut s, len as u64);
    }
    s
}

/// The first position of a list of paths that names the same path as `path`.
pub open spec fn position_of_path(paths: Seq<String>, path: Seq<char>) -> Option<nat>
    decreases paths.len(),
{
    if paths.len() == 0 {
        None
    } else {
        match position_of_path(paths.drop_last(), path) {
            Some(i) => Some(i),
            None => if components(paths.last()@) == components(path) {
                Some((paths.len() - 1) as nat)
            } else {
                None
            },
        }
    }
}

/// The first position of a list of paths that names the same path as `path`, or 0.
pub fn index_of_path(paths: &Vec<String>, path: &str) -> (r: usize)
    ensures
        r == (match position_of_path(paths@, path@) {
            Some(i) => i,
            None => 0,
        }),
{
    let mut i: usize = 0;
    while i < paths.len()
        invariant
            i <= paths@.len(),
            position_of_path(paths@.take(i as int), path@) is None,
        decreases paths@.len() - i,
    {
        assert(paths@.take(i + 1).drop_last() =~= paths@.take(i as int));
        if same_path(paths[i].as_str(), path) {
            proof { lemma_position_prefix(paths@, path@, (i + 1) as nat); }
            return i;
        }
        i = i + 1;
    }
    proof { lemma_position_prefix(paths@, path@, paths@.len()); }
    assert(paths@.take(paths@.len() as int) =~= paths@);
    0
}

/// Once found in a prefix, a position stays the answer for the whole list.
proof fn lemma_position_prefix(paths: Seq<String>, path: Seq<char>, n: nat)
    requires
        n <= paths.len(),
    ensures
        position_of_path(paths.take(n as int), path) is Some ==>
            position_of_path(paths, path) == position_of_path(paths.take(n as int), path),
    decreases paths.len() - n,
{
    if n < paths.len() {
        lemma_position_prefix(paths, path, n + 1);
        assert(paths.take((n + 1) as int).drop_last() =~= paths.take(n as int));
    } else {
        assert(paths.take(n as int) =~= paths);
    }
}

/// Four quarter turns clockwise come back to the start; a quarter turn
/// counter-clockwise undoes one clockwise; each clockwise turn adds 90 degrees.
pub proof fn law_rotation_cycle(r: Rotation)
    ensures
        rotated_cw(rotated_cw(rotated_cw(rotated_cw(r)))) == r,
        rotated_ccw(rotated_cw(r)) == r,
        rotated_cw(rotated_ccw(r)) == r,
        rotation_degrees(rotated_cw(r)) == (rotation_degrees(r) + 90) % 360,
{
}

/// With looping navigation, going to the next image and back to the previous one
/// returns to where one was, and so does the reverse.
pub proof fn law_navigation_round_trip(current: nat, len: nat)
    requires
        current < len,
    ensures
        next_position(current, len, true) matches Some(n) && prev_position(n, len, true) == Some(current),
        prev_position(current, len, true) matches Some(p) && next_position(p, len, true) == Some(current),
{
}

/// Without looping, navigation stops at both ends of the list.
pub proof fn law_navigation_stops_at_ends(len: nat)
    requires
        len > 0,
    ensures
        next_position((len - 1) as nat, len, false) is None,
        prev_position(0, len, false) is None,
{
}

} // verus!
