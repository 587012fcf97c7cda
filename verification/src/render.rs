//! The text that the renderer draws (status bar and info overlay) and the parsing of
//! the hex colour that it clears the window with.

use vstd::prelude::*;
use crate::config::SortOrder;
use crate::gallery::{count_marked, entry_name, Gallery};
use crate::input::Mode;
use crate::metadata::{file_info_lines, lines_view, metadata_lines, metadata_present, FileInfo, ImageMetadata};
use crate::path::{file_name_of, string_from_chars};
use crate::text::{chars_of, decimal, push_decimal, push_str};
use crate::viewer::{position_display, position_text, rotation_degrees, Rotation};

verus! {

/// The name by which `{:?}` shows a sort order.
pub open spec fn sort_order_name(order: SortOrder) -> Seq<char> {
    match order {
        SortOrder::Name => "Name"@,
        SortOrder::Date => "Date"@,
        SortOrder::Size => "Size"@,
        SortOrder::Dimensions => "Dimensions"@,
    }
}

/// Appends the name of a sort order.
fn push_sort_order_name(s: &mut String, order: SortOrder)
    ensures
        final(s)@ == old(s)@ + sort_order_name(order),
{
    match order {
        SortOrder::Name => push_str(s, "Name"),
        SortOrder::Date => push_str(s, "Date"),
        SortOrder::Size => push_str(s, "Size"),
        SortOrder::Dimensions => push_str(s, "Dimensions"),
    }
}

/// Appends the file name of a path, if it has one.
fn push_file_name(s: &mut String, path: &str)
    ensures
        final(s)@ == old(s)@ + entry_name(path@),
{
    match file_name_of(path) {
        Some(v) => {
            let name = string_from_chars(&v);
            push_str(s, name.as_str());
        },
        None => {
            assert(old(s)@ + entry_name(path@) =~= old(s)@);
        },
    }
}

/// The status bar of the viewer: file name, position, zoom, rotation and a slideshow flag.
pub open spec fn viewer_status_text(
    current_path: Option<Seq<char>>,
    current_index: nat,
    list_len: nat,
    zoom: Seq<char>,
    rotation: Rotation,
    slideshow_active: bool,
) -> Seq<char> {
    let file = match current_path {
        Some(p) => entry_name(p),
        None => Seq::empty(),
    };
    file + "  |  "@ + position_text(current_index, list_len) + "  |  "@ + zoom + "  |  "@
        + decimal(rotation_degrees(rotation)) + "deg"@ + (if slideshow_active { " [SLIDESHOW]"@ } else { Seq::empty() })
}

/// The status bar of the gallery: directory, count, sort order, filter and marks.
pub open spec fn gallery_status_text(g: crate::gallery::GalleryView) -> Seq<char> {
    entry_name(g.directory) + "  |  "@ + decimal(g.entries.len()) + " images  |  sort: "@ + sort_order_name(g.sort_order)
        + (if g.filter_query.len() > 0 { "  |  filter: "@ + g.filter_query } else { Seq::empty() })
        + (if count_marked(g.entries) > 0 { "  |  "@ + decimal(count_marked(g.entries)) + " marked"@ } else { Seq::empty() })
}

/// The text of the status bar: the viewer's in the viewer and slideshow, the gallery's in the gallery.
pub open spec fn status_text(
    mode: Mode,
    current_path: Option<Seq<char>>,
    current_index: nat,
    list_len: nat,
    zoom: Seq<char>,
    rotation: Rotation,
    slideshow_active: bool,
    g: crate::gallery::GalleryView,
) -> Seq<char> {
    match mode {
        Mode::Viewer | Mode::Slideshow => viewer_status_text(current_path, current_index, list_len, zoom, rotation, slideshow_active),
        Mode::Gallery => gallery_status_text(g),
    }
}

/// The text of the status bar (see `status_text`); `zoom` is the zoom as already shown.
pub fn status_line(
    mode: Mode,
    current_path: Option<&str>,
    current_index: usize,
    list_len: usize,
    zoom: &str,
    rotation: Rotation,
    slideshow_active: bool,
    gallery: &Gallery,
) -> (r: String)
    requires
        mode != Mode::Gallery && list_len > 0 ==> current_index < usize::MAX,
    ensures
        r@ == status_text(
            mode,
            match current_path {
                Some(p) => Some(p@),
                None => None,
            },
            current_index as nat,
            list_len as nat,
            zoom@,
            rotation,
            slideshow_active,
            gallery@,
        ),
{
    let mut s = String::new();
    match mode {
        Mode::Viewer | Mode::Slideshow => {
            if let Some(p) = current_path {
                push_file_name(&mut s, p);
            }
            push_str(&mut s, "  |  ");
            let pos = position_display(current_index, list_len);
            push_str(&mut s, pos.as_str());
            push_str(&mut s, "  |  ");
            push_str(&mut s, zoom);
            push_str(&mut s, "  |  ");
            push_decimal(&mut s, rotation.degrees() as u64);
            push_str(&mut s, "deg");
            if slideshow_active {
                push_str(&mut s, " [SLIDESHOW]");
            }
        },
        Mode::Gallery => {
            push_file_name(&mut s, gallery.directory());
            push_str(&mut s, "  |  ");
            push_decimal(&mut s, gallery.len() as u64);
            push_str(&mut s, " images  |  sort: ");
            push_sort_order_name(&mut s, gallery.sort_order());
            let q = gallery.filter_query();
            if !q.is_empty() {
                push_str(&mut s, "  |  filter: ");
                push_str(&mut s, q);
            }
            let marked = gallery.marked_count();
            if marked > 0 {
                push_str(&mut s, "  |  ");
                push_decimal(&mut s, marked as u64);
                push_str(&mut s, " marked");
            }
        },
    }
    assert(s@ =~= status_text(
        mode,
        match current_path {
            Some(p) => Some(p@),
            None => None,
        },
        current_index as nat,
        list_len as nat,
        zoom@,
        rotation,
        slideshow_active,
        gallery@,
    ));
    s
}

/// Labelled lines written `label: value`.
pub open spec fn labelled(lines: Seq<(Seq<char>, Seq<char>)>) -> Seq<Seq<char>> {
    Seq::new(lines.len(), |i: int| lines[i].0 + ": "@ + lines[i].1)
}

/// Lines joined with newlines.
pub open spec fn join_lines(lines: Seq<Seq<char>>) -> Seq<char>
    decreases lines.len(),
{
    if lines.len() == 0 {
        Seq::empty()
    } else if lines.len() == 1 {
        lines[0]
    } else {
        join_lines(lines.drop_last()) + seq!['\n'] + lines.last()
    }
}

/// The lines of the info overlay: the file's lines, then (after an empty line when both
/// are there and the metadata has any of its main fields) the metadata's lines, or a
/// note that there is nothing to show.
pub open spec fn overlay_lines(
    file: Option<Seq<(Seq<char>, Seq<char>)>>,
    meta: Option<Seq<(Seq<char>, Seq<char>)>>,
    meta_has_any: bool,
) -> Seq<Seq<char>> {
    let a = match file {
        Some(ls) => labelled(ls),
        None => Seq::empty(),
    };
    let b = match meta {
        Some(ls) => (if a.len() > 0 && meta_has_any { a.push(Seq::empty()) } else { a }) + labelled(ls),
        None => a,
    };
    if b.len() == 0 {
        seq!["No metadata available"@]
    } else {
        b
    }
}

/// Appends `label: value` lines to a list of lines.
fn push_labelled(out: &mut Vec<String>, lines: &Vec<(String, String)>)
    ensures
        strings_view(final(out)@) == strings_view(old(out)@) + labelled(lines_view(lines@)),
{
    let ghost start = strings_view(out@);
    let mut i: usize = 0;
    while i < lines.len()
        invariant
            i <= lines@.len(),
            strings_view(out@) == start + labelled(lines_view(lines@)).take(i as int),
        decreases lines@.len() - i,
    {
        let mut l = String::new();
        push_str(&mut l, lines[i].0.as_str());
        push_str(&mut l, ": ");
        push_str(&mut l, lines[i].1.as_str());
        let ghost before = strings_view(out@);
        out.push(l);
        assert(strings_view(out@) =~= before.push(l@));
        assert(labelled(lines_view(lines@)).take(i + 1) =~= labelled(lines_view(lines@)).take(i as int).push(l@));
        i = i + 1;
    }
    assert(labelled(lines_view(lines@)).take(lines@.len() as int) =~= labelled(lines_view(lines@)));
}

/// The characters of a list of strings.
pub open spec fn strings_view(v: Seq<String>) -> Seq<Seq<char>> {
    Seq::new(v.len(), |i: int| v[i]@)
}

/// The text of the info overlay (see `overlay_lines`), one line per row.
pub fn info_overlay_text(file_info: Option<&FileInfo>, metadata: Option<&ImageMetadata>) -> (r: String)
    ensures
        r@ == join_lines(overlay_lines(
            match file_info {
                Some(f) => Some(file_info_lines(*f)),
                None => None,
            },
            match metadata {
                Some(m) => Some(metadata_lines(*m)),
                None => None,
            },
            match metadata {
                Some(m) => metadata_present(*m),
                None => false,
            },
        )),
{
    let mut lines: Vec<String> = Vec::new();
    if let Some(info) = file_info {
        let fl = info.display_lines();
        push_labelled(&mut lines, &fl);
    }
    if let Some(meta) = metadata {
        let ml = meta.display_lines();
        if lines.len() > 0 && meta.has_any() {
            let ghost before = strings_view(lines@);
            lines.push(String::new());
            assert(strings_view(lines@) =~= before.push(Seq::empty()));
        }
        push_labelled(&mut lines, &ml);
    }
    if lines.len() == 0 {
        let mut note = String::new();
        push_str(&mut note, "No metadata available");
        lines.push(note);
        assert(strings_view(lines@) =~= seq!["No metadata available"@]);
    }
    let ghost ls = strings_view(lines@);
    let mut s = String::new();
    let mut i: usize = 0;
    while i < lines.len()
        invariant
            i <= lines@.len(),
            ls == strings_view(lines@),
            s@ == join_lines(ls.take(i as int)),
        decreases lines@.len() - i,
    {
        if i > 0 {
            push_str(&mut s, "\n");
            proof { reveal_strlit("\n"); }
        }
        push_str(&mut s, lines[i].as_str());
        proof {
            assert(ls.take(i + 1).drop_last() =~= ls.take(i as int));
            if i == 0 {
                assert(ls.take(1) =~= seq![ls[0]]);
            }
            assert(s@ =~= join_lines(ls.take(i + 1)));
        }
        i = i + 1;
    }
    assert(ls.take(ls.len() as int) =~= ls);
    s
}

/// The number of bytes of a character in UTF-8.
pub open spec fn utf8_width(c: char) -> nat {
    if (c as u32) < 0x80 {
        1
    } else if (c as u32) < 0x800 {
        2
    } else if (c as u32) < 0x10000 {
        3
    } else {
        4
    }
}

/// The number of bytes of a text in UTF-8.
pub open spec fn byte_len(s: Seq<char>) -> nat
    decreases s.len(),
{
    if s.len() == 0 { 0 } else { byte_len(s.drop_last()) + utf8_width(s.last()) }
}

/// Byte offset `k` falls between two characters of `s` (or at an end).
pub open spec fn is_char_boundary(s: Seq<char>, k: nat) -> bool {
    exists|i: int| 0 <= i <= s.len() && #[trigger] byte_len(s.take(i)) == k
}

/// `s` without its leading `#` characters.
pub open spec fn strip_hashes(s: Seq<char>) -> Seq<char>
    decreases s.len(),
{
    if s.len() > 0 && s[0] == '#' { strip_hashes(s.drop_first()) } else { s }
}

/// The value of a hexadecimal digit.
pub open spec fn hex_value(c: char) -> Option<nat> {
    if '0' <= c && c <= '9' {
        Some((c as u32 - '0' as u32) as nat)
    } else if 'a' <= c && c <= 'f' {
        Some((c as u32 - 'a' as u32 + 10) as nat)
    } else if 'A' <= c && c <= 'F' {
        Some((c as u32 - 'A' as u32 + 10) as nat)
    } else {
        None
    }
}

/// Two characters read as a `u8` in base 16 (`u8::from_str_radix`, which also takes
/// a leading `+`).
pub open spec fn hex_pair(a: char, b: char) -> Option<nat> {
    if a == '+' {
        hex_value(b)
    } else {
        match (hex_value(a), hex_value(b)) {
            (Some(x), Some(y)) => Some(16 * x + y),
            _ => None,
        }
    }
}

/// Slicing the two-byte fields of a six-byte colour does not cut a character: the
/// first cut always has to fall between characters, the second one only once the
/// first field has been read.
pub open spec fn hex_fields_sliceable(hex: Seq<char>) -> bool {
    let t = strip_hashes(hex);
    byte_len(t) == 6 ==> {
        &&& is_char_boundary(t, 2)
        &&& (t.len() >= 2 && hex_pair(t[0], t[1]) is Some && utf8_width(t[0]) == 1 && utf8_width(t[1]) == 1)
            ==> is_char_boundary(t, 4)
    }
}

/// The red, green and blue bytes of `#RRGGBB` (any number of leading `#`), when it has
/// exactly six characters that read as three base-16 bytes.
pub open spec fn hex_rgb(hex: Seq<char>) -> Option<(u8, u8, u8)> {
    let t = strip_hashes(hex);
    if t.len() == 6 && byte_len(t) == 6 {
        match (hex_pair(t[0], t[1]), hex_pair(t[2], t[3]), hex_pair(t[4], t[5])) {
            (Some(r), Some(g), Some(b)) => Some((r as u8, g as u8, b as u8)),
            _ => None,
        }
    } else {
        None
    }
}

/// The value of a hexadecimal digit.
fn hex_digit(c: char) -> (r: Option<u8>)
    ensures
        match r {
            Some(v) => hex_value(c) == Some(v as nat),
            None => hex_value(c) is None,
        },
{
    if '0' <= c && c <= '9' {
        Some(((c as u32) - 48) as u8)
    } else if 'a' <= c && c <= 'f' {
        Some(((c as u32) - 97 + 10) as u8)
    } else if 'A' <= c && c <= 'F' {
        Some(((c as u32) - 65 + 10) as u8)
    } else {
        None
    }
}

/// Two characters read in base 16 (see `hex_pair`).
fn parse_hex_pair(a: char, b: char) -> (r: Option<u8>)
    ensures
        match r {
            Some(v) => hex_pair(a, b) == Some(v as nat),
            None => hex_pair(a, b) is None,
        },
{
    if a == '+' {
        return hex_digit(b);
    }
    match (hex_digit(a), hex_digit(b)) {
        (Some(x), Some(y)) => Some(16 * x + y),
        _ => None,
    }
}

/// The width of a character in UTF-8.
fn char_width(c: char) -> (r: usize)
    ensures
        r == utf8_width(c),
{
    let v = c as u32;
    if v < 0x80 {
        1
    } else if v < 0x800 {
        2
    } else if v < 0x10000 {
        3
    } else {
        4
    }
}

/// Parse a hex colour such as `#2E3440` into its red, green and blue bytes (see `hex_rgb`).
pub fn parse_hex_rgb(hex: &str) -> (r: Option<(u8, u8, u8)>)
    requires
        hex_fields_sliceable(hex@),
    ensures
        r == hex_rgb(hex@),
{
    let all = chars_of(hex);
    let mut start: usize = 0;
    assert(all@.skip(0) =~= all@);
    while start < all.len() && all[start] == '#'
        invariant
            start <= all@.len(),
            strip_hashes(all@) == strip_hashes(all@.skip(start as int)),
        decreases all@.len() - start,
    {
        assert(all@.skip(start as int).drop_first() =~= all@.skip(start + 1));
        start = start + 1;
    }
    assert(strip_hashes(all@.skip(start as int)) == all@.skip(start as int));
    let ghost t = all@.skip(start as int);
    if all.len() - start != 6 {
        return None;
    }
    let mut bytes: usize = 0;
    let mut i: usize = start;
    while i < all.len()
        invariant
            start <= i <= all@.len(),
            all@.len() - start == 6,
            t == all@.skip(start as int),
            bytes == byte_len(t.take(i - start)),
            bytes <= 4 * (i - start),
        decreases all@.len() - i,
    {
        assert(t.take(i - start + 1).drop_last() =~= t.take(i - start));
        bytes = bytes + char_width(all[i]);
        i = i + 1;
    }
    assert(t.take(6) =~= t);
    if bytes != 6 {
        return None;
    }
    let r = parse_hex_pair(all[start], all[start + 1]);
    let g = parse_hex_pair(all[start + 2], all[start + 3]);
    let b = parse_hex_pair(all[start + 4], all[start + 5]);
    match (r, g, b) {
        (Some(r), Some(g), Some(b)) => Some((r, g, b)),
        _ => None,
    }
}

} // verus!
