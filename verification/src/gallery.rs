//! Gallery view: the entries of a directory of images, their order and filter,
//! and the selection in a grid of thumbnails moved by the keyboard.

use vstd::prelude::*;
use crate::config::{GalleryConfig, SortOrder};
use crate::path::{extension, extension_of, file_name, file_name_of, same_path, str_equal, string_from_chars};
use crate::sort::{is_stable_sort, key_lt, keys_view, lemma_key_order, lemma_perm_onto, reversed, stable_sort, SortKey};
use crate::text::{ascii_lower, ascii_lowercase, chars_of, contains_seq, is_substring, lowercase, to_lowercase};

verus! {

/// A single image entry in the gallery.
#[derive(Debug)]
pub struct GalleryEntry {
    /// Full path to the image file.
    pub path: String,
    /// File name for display.
    pub name: String,
    /// File size in bytes.
    pub size: u64,
    /// Last modified timestamp (unix seconds).
    pub modified: u64,
    /// Whether a thumbnail has been generated.
    pub thumbnail_ready: bool,
    /// Decoded thumbnail RGBA data (if loaded).
    pub thumbnail_data: Option<ThumbnailData>,
    /// Whether this entry is marked for batch operations.
    pub marked: bool,
}

/// RGBA thumbnail pixel data.
#[derive(Debug)]
pub struct ThumbnailData {
    pub width: u32,
    pub height: u32,
    pub data: Vec<u8>,
}

/// What `image` makes of the bytes of a file at `path` (in the format that the path's
/// extension names) as a thumbnail within `max_size` square, as RGBA: width, height and
/// pixel bytes; none where it cannot decode them.
pub uninterp spec fn thumbnail_rgba(bytes: Seq<u8>, path: Seq<char>, max_size: u32) -> Option<(u32, u32, Seq<u8>)>;

/// Calls `image::ImageFormat::from_path` for the format, `image::load_from_memory_with_format`
/// to decode the bytes in it, `DynamicImage::thumbnail` and `to_rgba8`. The contract
/// names the result, a function of its arguments, and claims what the source shows:
/// four bytes for each of the `width * height` pixels, and a size within the bounds
/// (for bounds of at least one pixel, as the image is never scaled below one pixel).
#[verifier::external_body]
fn decode_thumbnail(bytes: &[u8], path: &str, max_size: u32) -> (r: Option<(u32, u32, Vec<u8>)>)
    ensures
        match r {
            Some((w, h, data)) => {
                &&& thumbnail_rgba(bytes@, path@, max_size) == Some((w, h, data@))
                &&& data@.len() == 4 * w * h
                &&& max_size > 0 ==> w <= max_size && h <= max_size
            },
            None => thumbnail_rgba(bytes@, path@, max_size) is None,
        },
{
    let format = image::ImageFormat::from_path(path).ok()?;
    let image = image::load_from_memory_with_format(bytes, format).ok()?;
    let thumb = image.thumbnail(max_size, max_size).to_rgba8();
    Some((thumb.width(), thumb.height(), thumb.into_raw()))
}

/// Generate a thumbnail, within `max_size` square, from the bytes of the image file at
/// `path`: none where they do not decode.
pub fn thumbnail_from(bytes: &[u8], path: &str, max_size: u32) -> (r: Option<ThumbnailData>)
    ensures
        r is Some <==> thumbnail_rgba(bytes@, path@, max_size) is Some,
        r matches Some(t) ==> {
            &&& thumbnail_rgba(bytes@, path@, max_size) == Some((t.width, t.height, t.data@))
            &&& t.data@.len() == 4 * t.width * t.height
            &&& max_size > 0 ==> t.width <= max_size && t.height <= max_size
        },
{
    match decode_thumbnail(bytes, path, max_size) {
        Some((width, height, data)) => Some(ThumbnailData { width, height, data }),
        None => None,
    }
}

/// What a directory listing reports of one of its entries.
#[derive(Debug)]
pub struct DirEntryInfo {
    /// Full path of the entry.
    pub path: String,
    /// Whether the entry is a regular file.
    pub is_file: bool,
    /// Size in bytes (0 when unknown).
    pub size: u64,
    /// Last modification, in unix seconds (0 when unknown).
    pub modified: u64,
}

/// The extensions (in lowercase) of the files that the gallery shows.
pub open spec fn is_image_extension(e: Seq<char>) -> bool {
    ||| e == "jpg"@
    ||| e == "jpeg"@
    ||| e == "png"@
    ||| e == "gif"@
    ||| e == "bmp"@
    ||| e == "tiff"@
    ||| e == "tif"@
    ||| e == "webp"@
    ||| e == "avif"@
    ||| e == "ico"@
}

/// A path whose extension, lowercased, is one of the image extensions.
pub open spec fn is_image_path(path: Seq<char>) -> bool {
    match extension(path) {
        Some(e) => is_image_extension(lowercase(e)),
        None => false,
    }
}

/// Whether a lowercase extension is an image extension.
pub fn is_image_extension_str(e: &str) -> (r: bool)
    ensures
        r == is_image_extension(e@),
{
    str_equal(e, "jpg") || str_equal(e, "jpeg") || str_equal(e, "png") || str_equal(e, "gif")
        || str_equal(e, "bmp") || str_equal(e, "tiff") || str_equal(e, "tif") || str_equal(e, "webp")
        || str_equal(e, "avif") || str_equal(e, "ico")
}

/// Check if a file path has a supported image extension.
pub fn is_image_file(path: &str) -> (r: bool)
    ensures
        r == is_image_path(path@),
{
    match extension_of(path) {
        None => false,
        Some(ext) => {
            let e = string_from_chars(&ext);
            let lower = to_lowercase(e.as_str());
            is_image_extension_str(lower.as_str())
        },
    }
}

/// The display name of a file at `path`: its file name, or nothing.
pub open spec fn entry_name(path: Seq<char>) -> Seq<char> {
    match file_name(path) {
        Some(n) => n,
        None => Seq::empty(),
    }
}

/// `e` is the fresh gallery entry for the listed file `d`.
pub open spec fn entry_of(e: GalleryEntry, d: DirEntryInfo) -> bool {
    &&& e.path == d.path
    &&& e.name@ == entry_name(d.path@)
    &&& e.size == d.size
    &&& e.modified == d.modified
    &&& !e.thumbnail_ready
    &&& e.thumbnail_data is None
    &&& !e.marked
}

/// A listed entry that the gallery shows: a file with an image extension.
pub open spec fn is_listed_image(d: DirEntryInfo) -> bool {
    d.is_file && is_image_path(d.path@)
}

/// The listed entries that the gallery shows, in listing order.
pub open spec fn listed_images(listing: Seq<DirEntryInfo>) -> Seq<DirEntryInfo>
    decreases listing.len(),
{
    if listing.len() == 0 {
        Seq::empty()
    } else if is_listed_image(listing.last()) {
        listed_images(listing.drop_last()).push(listing.last())
    } else {
        listed_images(listing.drop_last())
    }
}

/// The key by which an entry is sorted: its lowercased name for name order (and for
/// dimensions order, which falls back to it), else its date or size.
pub open spec fn entry_key(e: GalleryEntry, order: SortOrder) -> (Seq<char>, u64) {
    match order {
        SortOrder::Name | SortOrder::Dimensions => (lowercase(e.name@), 0u64),
        SortOrder::Date => (Seq::empty(), e.modified),
        SortOrder::Size => (Seq::empty(), e.size),
    }
}

/// The sort keys of a sequence of entries.
pub open spec fn entry_keys(entries: Seq<GalleryEntry>, order: SortOrder) -> Seq<(Seq<char>, u64)> {
    Seq::new(entries.len(), |i: int| entry_key(entries[i], order))
}

/// `res` is `entries` stably sorted by `order`, then reversed when `reverse` is set.
pub open spec fn sorted_as(res: Seq<GalleryEntry>, entries: Seq<GalleryEntry>, order: SortOrder, reverse: bool) -> bool {
    exists|perm: Seq<int>| #[trigger] is_stable_sort(unreversed(res, reverse), entries, entry_keys(entries, order), perm)
}

/// `res` read in ascending order: reversed back when the order is reversed.
pub open spec fn unreversed(res: Seq<GalleryEntry>, reverse: bool) -> Seq<GalleryEntry> {
    if reverse { res.reverse() } else { res }
}

/// The sort order that follows `order` in the cycle name, date, size, dimensions.
pub open spec fn next_sort_order(order: SortOrder) -> SortOrder {
    match order {
        SortOrder::Name => SortOrder::Date,
        SortOrder::Date => SortOrder::Size,
        SortOrder::Size => SortOrder::Dimensions,
        SortOrder::Dimensions => SortOrder::Name,
    }
}

/// The entry at `i` matches a lowercase query.
pub open spec fn entry_matches(entries: Seq<GalleryEntry>, query: Seq<char>, i: int) -> bool {
    is_substring(query, lowercase(entries[i].name@))
}

/// The positions among the first `n` entries whose lowercased name contains `query`, in order.
pub open spec fn matching_indices(entries: Seq<GalleryEntry>, query: Seq<char>, n: nat) -> Seq<usize>
    decreases n,
{
    if n == 0 {
        Seq::empty()
    } else if entry_matches(entries, query, n - 1) {
        matching_indices(entries, query, (n - 1) as nat).push((n - 1) as usize)
    } else {
        matching_indices(entries, query, (n - 1) as nat)
    }
}

/// The number of marked entries.
pub open spec fn count_marked(entries: Seq<GalleryEntry>) -> nat
    decreases entries.len(),
{
    if entries.len() == 0 {
        0
    } else {
        count_marked(entries.drop_last()) + if entries.last().marked { 1nat } else { 0nat }
    }
}

/// Gallery state managing a directory of images.
#[derive(Debug)]
pub struct Gallery {
    /// All entries from the scanned directory.
    entries: Vec<GalleryEntry>,
    /// Currently selected entry index.
    selected: usize,
    /// Number of visible columns in the grid.
    columns: usize,
    /// Number of visible rows.
    visible_rows: usize,
    /// Scroll offset in rows.
    scroll_offset: usize,
    /// Current sort order.
    sort_order: SortOrder,
    /// Whether sort is reversed.
    sort_reverse: bool,
    /// The directory being viewed.
    directory: String,
    /// Thumbnail size for generation.
    thumbnail_size: u32,
    /// The configured number of columns, kept whatever the window width (0 = from the
    /// window width).
    fixed_columns: usize,
    /// Search/filter query.
    filter_query: String,
    /// Indices of entries matching the filter (empty = all shown).
    filtered_indices: Vec<usize>,
}

/// The state of a gallery.
pub struct GalleryView {
    pub entries: Seq<GalleryEntry>,
    pub selected: usize,
    pub columns: usize,
    pub visible_rows: usize,
    pub scroll_offset: usize,
    pub sort_order: SortOrder,
    pub sort_reverse: bool,
    pub directory: Seq<char>,
    pub thumbnail_size: u32,
    pub fixed_columns: usize,
    pub filter_query: Seq<char>,
    pub filtered_indices: Seq<usize>,
}

impl View for Gallery {
    type V = GalleryView;

    closed spec fn view(&self) -> GalleryView {
        GalleryView {
            entries: self.entries@,
            selected: self.selected,
            columns: self.columns,
            visible_rows: self.visible_rows,
            scroll_offset: self.scroll_offset,
            sort_order: self.sort_order,
            sort_reverse: self.sort_reverse,
            directory: self.directory@,
            thumbnail_size: self.thumbnail_size,
            fixed_columns: self.fixed_columns,
            filter_query: self.filter_query@,
            filtered_indices: self.filtered_indices@,
        }
    }
}

impl GalleryView {
    /// No filter is active: every entry is shown.
    pub open spec fn unfiltered(self) -> bool {
        self.filtered_indices.len() == 0 && self.filter_query.len() == 0
    }

    /// The number of entries shown: all of them, or those that the filter kept.
    pub open spec fn effective_len(self) -> nat {
        if self.unfiltered() {
            self.entries.len()
        } else {
            self.filtered_indices.len()
        }
    }

    /// The entry shown at a grid position, if any.
    pub open spec fn actual_index(self, visual_idx: int) -> Option<usize> {
        if self.unfiltered() {
            if 0 <= visual_idx < self.entries.len() {
                Some(visual_idx as usize)
            } else {
                None
            }
        } else if 0 <= visual_idx < self.filtered_indices.len() {
            Some(self.filtered_indices[visual_idx])
        } else {
            None
        }
    }

    /// The scroll offset that keeps `selected` within the visible rows: unchanged if
    /// its row is visible, else the least movement that makes it so.
    pub open spec fn scroll_for(self, selected: int) -> int {
        let row = selected / self.columns as int;
        if row < self.scroll_offset {
            row
        } else if row >= self.scroll_offset + self.visible_rows {
            row + 1 - self.visible_rows
        } else {
            self.scroll_offset as int
        }
    }

    /// The invariant of a gallery.
    pub open spec fn wf(self) -> bool {
        &&& self.columns >= 1
        &&& self.fixed_columns > 0 ==> self.columns == self.fixed_columns
        &&& self.visible_rows >= 1
        &&& self.filtered_indices.len() <= self.entries.len()
        &&& forall|i: int| 0 <= i < self.filtered_indices.len() ==> #[trigger] self.filtered_indices[i] < self.entries.len()
        &&& self.selected < self.effective_len() || self.selected == 0
        &&& self.scroll_offset <= self.selected
    }

    /// `new` equals `self` except for the selection and scroll offset.
    pub open spec fn same_but_position(self, new: GalleryView) -> bool {
        &&& new.entries == self.entries
        &&& new.columns == self.columns
        &&& new.visible_rows == self.visible_rows
        &&& new.sort_order == self.sort_order
        &&& new.sort_reverse == self.sort_reverse
        &&& new.directory == self.directory
        &&& new.thumbnail_size == self.thumbnail_size
        &&& new.fixed_columns == self.fixed_columns
        &&& new.filter_query == self.filter_query
        &&& new.filtered_indices == self.filtered_indices
    }

    /// `new` equals `self` except for the filter.
    pub open spec fn same_but_filter(self, new: GalleryView) -> bool {
        &&& new.entries == self.entries
        &&& new.selected == self.selected
        &&& new.columns == self.columns
        &&& new.visible_rows == self.visible_rows
        &&& new.scroll_offset == self.scroll_offset
        &&& new.sort_order == self.sort_order
        &&& new.sort_reverse == self.sort_reverse
        &&& new.directory == self.directory
        &&& new.thumbnail_size == self.thumbnail_size
        &&& new.fixed_columns == self.fixed_columns
    }

    /// `new` is `self` with its entries re-sorted by `order` and `reverse`, which
    /// become its settings; selection, scroll and filter are left as they were.
    pub open spec fn resorted(self, new: GalleryView, order: SortOrder, reverse: bool) -> bool {
        &&& sorted_as(new.entries, self.entries, order, reverse)
        &&& new.entries.len() == self.entries.len()
        &&& new.sort_order == order
        &&& new.sort_reverse == reverse
        &&& new.selected == self.selected
        &&& new.columns == self.columns
        &&& new.visible_rows == self.visible_rows
        &&& new.scroll_offset == self.scroll_offset
        &&& new.directory == self.directory
        &&& new.thumbnail_size == self.thumbnail_size
        &&& new.fixed_columns == self.fixed_columns
        &&& new.filter_query == self.filter_query
        &&& new.filtered_indices == self.filtered_indices
    }

    /// `new` is `self` with the filter set to the lowercase query `q`: the matching
    /// positions are listed (none for an empty query) and the selection is reset.
    pub open spec fn filtered_by(self, new: GalleryView, q: Seq<char>) -> bool {
        &&& new.filter_query == q
        &&& new.filtered_indices == (if q.len() == 0 {
            Seq::<usize>::empty()
        } else {
            matching_indices(self.entries, q, self.entries.len())
        })
        &&& new.selected == 0
        &&& new.scroll_offset == 0
        &&& new.entries == self.entries
        &&& new.columns == self.columns
        &&& new.visible_rows == self.visible_rows
        &&& new.sort_order == self.sort_order
        &&& new.sort_reverse == self.sort_reverse
        &&& new.directory == self.directory
        &&& new.thumbnail_size == self.thumbnail_size
        &&& new.fixed_columns == self.fixed_columns
    }

    /// `new` is `self` moved one cell right, when there is a next cell.
    pub open spec fn moved_right(self, new: GalleryView) -> bool {
        if self.effective_len() > 0 && self.selected + 1 < self.effective_len() {
            self.selects(new, self.selected + 1)
        } else {
            new == self
        }
    }

    /// `new` is `self` moved one cell left, when there is a previous cell.
    pub open spec fn moved_left(self, new: GalleryView) -> bool {
        if self.selected > 0 {
            self.selects(new, self.selected - 1)
        } else {
            new == self
        }
    }

    /// `new` is `self` moved one row down, when that cell exists.
    pub open spec fn moved_down(self, new: GalleryView) -> bool {
        if self.effective_len() > 0 && self.selected + self.columns < self.effective_len() {
            self.selects(new, self.selected + self.columns)
        } else {
            new == self
        }
    }

    /// `new` is `self` moved one row up, when there is a row above.
    pub open spec fn moved_up(self, new: GalleryView) -> bool {
        if self.selected >= self.columns {
            self.selects(new, self.selected - self.columns)
        } else {
            new == self
        }
    }

    /// `new` is `self` with the first cell selected.
    pub open spec fn selected_first(self, new: GalleryView) -> bool {
        self.selects(new, 0)
    }

    /// `new` is `self` with the last cell selected, when there is one.
    pub open spec fn selected_last(self, new: GalleryView) -> bool {
        if self.effective_len() > 0 {
            self.selects(new, self.effective_len() - 1)
        } else {
            new == self
        }
    }

    /// `new` is `self` with the mark of the selected entry flipped, when one is selected.
    pub open spec fn mark_toggled(self, new: GalleryView) -> bool {
        &&& new.selected == self.selected
        &&& new.columns == self.columns
        &&& new.visible_rows == self.visible_rows
        &&& new.scroll_offset == self.scroll_offset
        &&& new.sort_order == self.sort_order
        &&& new.sort_reverse == self.sort_reverse
        &&& new.directory == self.directory
        &&& new.thumbnail_size == self.thumbnail_size
        &&& new.fixed_columns == self.fixed_columns
        &&& new.filter_query == self.filter_query
        &&& new.filtered_indices == self.filtered_indices
        &&& new.entries.len() == self.entries.len()
        &&& match self.actual_index(self.selected as int) {
            None => new.entries == self.entries,
            Some(idx) => {
                &&& forall|i: int| 0 <= i < self.entries.len() && i != idx ==> new.entries[i] == self.entries[i]
                &&& new.entries[idx as int].marked == !self.entries[idx as int].marked
                &&& new.entries[idx as int].path == self.entries[idx as int].path
                &&& new.entries[idx as int].name == self.entries[idx as int].name
                &&& new.entries[idx as int].size == self.entries[idx as int].size
                &&& new.entries[idx as int].modified == self.entries[idx as int].modified
                &&& new.entries[idx as int].thumbnail_ready == self.entries[idx as int].thumbnail_ready
                &&& new.entries[idx as int].thumbnail_data == self.entries[idx as int].thumbnail_data
            },
        }
    }

    /// `new` is `self` with the selection moved to `selected` and scrolled into view.
    pub open spec fn selects(self, new: GalleryView, selected: int) -> bool {
        &&& self.same_but_position(new)
        &&& new.selected == selected
        &&& new.scroll_offset == self.scroll_for(selected)
    }
}

/// `matching_indices` lists positions below `n`, increasing.
pub proof fn lemma_matching_indices(entries: Seq<GalleryEntry>, query: Seq<char>, n: nat)
    requires
        n <= usize::MAX,
    ensures
        matching_indices(entries, query, n).len() <= n,
        forall|i: int| 0 <= i < matching_indices(entries, query, n).len()
            ==> #[trigger] matching_indices(entries, query, n)[i] < n,
        forall|i: int, j: int| 0 <= i < j < matching_indices(entries, query, n).len()
            ==> matching_indices(entries, query, n)[i] < matching_indices(entries, query, n)[j],
    decreases n,
{
    if n > 0 {
        lemma_matching_indices(entries, query, (n - 1) as nat);
        let prev = matching_indices(entries, query, (n - 1) as nat);
        let cur = matching_indices(entries, query, n);
        if entry_matches(entries, query, n - 1) {
            assert(cur == prev.push((n - 1) as usize));
        } else {
            assert(cur == prev);
        }
        assert forall|i: int, j: int| 0 <= i < j < cur.len() implies cur[i] < cur[j] by {
            if j < prev.len() {
                assert(cur[i] == prev[i] && cur[j] == prev[j]);
            } else {
                assert(cur[i] == prev[i]);
            }
        }
    }
}

impl Gallery {
    /// Create a new empty gallery.
    pub fn new(config: &GalleryConfig) -> (g: Self)
        ensures
            g@.wf(),
            g@.entries.len() == 0,
            g@.selected == 0,
            g@.columns == (if config.columns == 0 { 4 } else { config.columns as usize }),
            g@.visible_rows == 4,
            g@.scroll_offset == 0,
            g@.sort_order == config.sort,
            g@.sort_reverse == config.sort_reverse,
            g@.directory.len() == 0,
            g@.thumbnail_size == config.thumbnail_size,
            g@.fixed_columns == config.columns as usize,
            g@.filter_query.len() == 0,
            g@.filtered_indices.len() == 0,
    {
        Gallery {
            entries: Vec::new(),
            selected: 0,
            columns: if config.columns == 0 { 4 } else { config.columns as usize },
            visible_rows: 4,
            scroll_offset: 0,
            sort_order: config.sort,
            sort_reverse: config.sort_reverse,
            directory: String::new(),
            thumbnail_size: config.thumbnail_size,
            fixed_columns: config.columns as usize,
            filter_query: String::new(),
            filtered_indices: Vec::new(),
        }
    }

    /// Sort entries according to current sort settings.
    fn apply_sort(&mut self)
        ensures
            sorted_as(final(self)@.entries, old(self)@.entries, old(self)@.sort_order, old(self)@.sort_reverse),
            final(self)@.entries.len() == old(self)@.entries.len(),
            final(self)@.selected == old(self)@.selected,
            final(self)@.columns == old(self)@.columns,
            final(self)@.visible_rows == old(self)@.visible_rows,
            final(self)@.scroll_offset == old(self)@.scroll_offset,
            final(self)@.sort_order == old(self)@.sort_order,
            final(self)@.sort_reverse == old(self)@.sort_reverse,
            final(self)@.directory == old(self)@.directory,
            final(self)@.thumbnail_size == old(self)@.thumbnail_size,
            final(self)@.fixed_columns == old(self)@.fixed_columns,
            final(self)@.filter_query == old(self)@.filter_query,
            final(self)@.filtered_indices == old(self)@.filtered_indices,
    {
        let mut entries: Vec<GalleryEntry> = Vec::new();
        std::mem::swap(&mut entries, &mut self.entries);
        let order = self.sort_order;
        let mut keys: Vec<SortKey> = Vec::new();
        let mut i: usize = 0;
        while i < entries.len()
            invariant
                i <= entries@.len(),
                keys_view(keys@) == entry_keys(entries@, order).take(i as int),
            decreases entries@.len() - i,
        {
            let key = match order {
                SortOrder::Name | SortOrder::Dimensions => {
                    let lower = to_lowercase(entries[i].name.as_str());
                    SortKey { text: chars_of(lower.as_str()), num: 0 }
                },
                SortOrder::Date => SortKey { text: Vec::new(), num: entries[i].modified },
                SortOrder::Size => SortKey { text: Vec::new(), num: entries[i].size },
            };
            let ghost kv = keys_view(keys@);
            keys.push(key);
            proof {
                assert(keys_view(keys@) =~= kv.push(entry_key(entries@[i as int], order)));
                assert(entry_keys(entries@, order).take(i + 1) =~= entry_keys(entries@, order).take(i as int).push(
                    entry_key(entries@[i as int], order),
                ));
            }
            i = i + 1;
        }
        assert(entry_keys(entries@, order).take(entries@.len() as int) =~= entry_keys(entries@, order));
        let ghost before = entries@;
        let ghost kvs = keys_view(keys@);
        let sorted = stable_sort(entries, keys);
        let ghost perm = choose|perm: Seq<int>| is_stable_sort(sorted@, before, kvs, perm);
        assert(is_stable_sort(sorted@, before, entry_keys(before, order), perm));
        if self.sort_reverse {
            let r = reversed(sorted);
            assert(r@.reverse() =~= sorted@);
            self.entries = r;
            assert(is_stable_sort(unreversed(self.entries@, true), before, entry_keys(before, order), perm));
        } else {
            self.entries = sorted;
            assert(is_stable_sort(unreversed(self.entries@, false), before, entry_keys(before, order), perm));
        }
        assert(sorted_as(self@.entries, before, order, self.sort_reverse));
    }

    /// Scan a directory listing: keep the image files, in the current sort order,
    /// and start afresh with no selection, scroll or filter. Returns how many were kept.
    pub fn scan_directory(&mut self, dir: &str, listing: Vec<DirEntryInfo>) -> (count: usize)
        requires
            old(self)@.wf(),
        ensures
            final(self)@.wf(),
            final(self)@.directory == dir@,
            final(self)@.selected == 0,
            final(self)@.scroll_offset == 0,
            final(self)@.filter_query.len() == 0,
            final(self)@.filtered_indices.len() == 0,
            final(self)@.columns == old(self)@.columns,
            final(self)@.visible_rows == old(self)@.visible_rows,
            final(self)@.sort_order == old(self)@.sort_order,
            final(self)@.sort_reverse == old(self)@.sort_reverse,
            final(self)@.thumbnail_size == old(self)@.thumbnail_size,
            final(self)@.fixed_columns == old(self)@.fixed_columns,
            exists|fresh: Seq<GalleryEntry>| {
                &&& fresh.len() == listed_images(listing@).len()
                &&& forall|i: int| 0 <= i < fresh.len() ==> #[trigger] entry_of(fresh[i], listed_images(listing@)[i])
                &&& sorted_as(final(self)@.entries, fresh, old(self)@.sort_order, old(self)@.sort_reverse)
            },
            count == final(self)@.entries.len(),
    {
        let ghost all = listing@;
        let mut listing = listing;
        let mut fresh: Vec<GalleryEntry> = Vec::new();
        let n = listing.len();
        let mut k: usize = 0;
        while k < n
            invariant
                n == all.len(),
                k <= n,
                listing@ == all.subrange(k as int, n as int),
                fresh@.len() == listed_images(all.take(k as int)).len(),
                forall|i: int| 0 <= i < fresh@.len() ==> #[trigger] entry_of(fresh@[i], listed_images(all.take(k as int))[i]),
            decreases n - k,
        {
            let d = listing.remove(0);
            assert(d == all[k as int]);
            assert(listing@ =~= all.subrange(k + 1, n as int));
            assert(all.take(k + 1).drop_last() =~= all.take(k as int));
            assert(all.take(k + 1).last() == d);
            let keep = d.is_file && is_image_file(d.path.as_str());
            if keep {
                let name = match file_name_of(d.path.as_str()) {
                    Some(v) => string_from_chars(&v),
                    None => String::new(),
                };
                let ghost dd = d;
                let e = GalleryEntry {
                    path: d.path,
                    name,
                    size: d.size,
                    modified: d.modified,
                    thumbnail_ready: false,
                    thumbnail_data: None,
                    marked: false,
                };
                assert(entry_of(e, dd));
                fresh.push(e);
            }
            k = k + 1;
        }
        assert(all.take(n as int) =~= all);
        self.directory = crate::config::owned(dir);
        self.entries = fresh;
        self.selected = 0;
        self.scroll_offset = 0;
        self.filter_query = String::new();
        self.filtered_indices = Vec::new();
        self.apply_sort();
        self.entries.len()
    }
}

/// The first position whose entry has the same path as `path` (see `same_path`).
pub open spec fn first_with_path(entries: Seq<GalleryEntry>, path: Seq<char>) -> Option<int>
    decreases entries.len(),
{
    if entries.len() == 0 {
        None
    } else {
        match first_with_path(entries.drop_last(), path) {
            Some(i) => Some(i),
            None => if crate::path::components(entries.last().path@) == crate::path::components(path) {
                Some(entries.len() - 1)
            } else {
                None
            },
        }
    }
}

/// `first_with_path` finds the first matching position.
pub proof fn lemma_first_with_path(entries: Seq<GalleryEntry>, path: Seq<char>)
    ensures
        match first_with_path(entries, path) {
            None => forall|i: int| 0 <= i < entries.len() ==>
                crate::path::components(#[trigger] entries[i].path@) != crate::path::components(path),
            Some(k) => 0 <= k < entries.len()
                && crate::path::components(entries[k].path@) == crate::path::components(path)
                && forall|i: int| 0 <= i < k ==>
                    crate::path::components(#[trigger] entries[i].path@) != crate::path::components(path),
        },
    decreases entries.len(),
{
    if entries.len() > 0 {
        lemma_first_with_path(entries.drop_last(), path);
        assert forall|i: int| 0 <= i < entries.len() - 1 implies entries[i] == entries.drop_last()[i] by {}
    }
}

/// The visible window of a view: the grid positions from the first visible row up to
/// the end of the last visible row, cut at the number of entries shown.
pub open spec fn visible_range(v: GalleryView) -> (int, int) {
    let start = v.scroll_offset * v.columns;
    let end = (v.scroll_offset + v.visible_rows) * v.columns;
    (start as int, if end < v.effective_len() { end as int } else { v.effective_len() as int })
}

impl Gallery {
    /// Cycle to the next sort order.
    pub fn cycle_sort(&mut self)
        requires
            old(self)@.wf(),
        ensures
            final(self)@.wf(),
            old(self)@.resorted(final(self)@, next_sort_order(old(self)@.sort_order), old(self)@.sort_reverse),
    {
        self.sort_order = match self.sort_order {
            SortOrder::Name => SortOrder::Date,
            SortOrder::Date => SortOrder::Size,
            SortOrder::Size => SortOrder::Dimensions,
            SortOrder::Dimensions => SortOrder::Name,
        };
        self.apply_sort();
    }

    /// Toggle sort direction.
    pub fn toggle_sort_reverse(&mut self)
        requires
            old(self)@.wf(),
        ensures
            final(self)@.wf(),
            old(self)@.resorted(final(self)@, old(self)@.sort_order, !old(self)@.sort_reverse),
    {
        self.sort_reverse = !self.sort_reverse;
        self.apply_sort();
    }

    /// Apply a text filter to entries: keep those whose lowercased name contains the
    /// lowercased query, and select the first of them.
    pub fn set_filter(&mut self, query: &str)
        requires
            old(self)@.wf(),
        ensures
            final(self)@.wf(),
            old(self)@.filtered_by(final(self)@, lowercase(query@)),
    {
        self.filter_query = to_lowercase(query);
        if self.filter_query.as_str().is_empty() {
            self.filtered_indices = Vec::new();
        } else {
            let q = chars_of(self.filter_query.as_str());
            let mut found: Vec<usize> = Vec::new();
            let mut i: usize = 0;
            while i < self.entries.len()
                invariant
                    i <= self.entries@.len(),
                    q@ == self.filter_query@,
                    found@ == matching_indices(self.entries@, q@, i as nat),
                decreases self.entries@.len() - i,
            {
                let lower = to_lowercase(self.entries[i].name.as_str());
                let name = chars_of(lower.as_str());
                if contains_seq(&name, &q) {
                    found.push(i);
                }
                i = i + 1;
            }
            self.filtered_indices = found;
        }
        self.selected = 0;
        self.scroll_offset = 0;
        proof {
            assert(self.entries@.len() == self.entries.len());
            lemma_matching_indices(self.entries@, self.filter_query@, self.entries.len() as nat);
        }
    }

    /// Clear the active filter.
    pub fn clear_filter(&mut self)
        requires
            old(self)@.wf(),
        ensures
            final(self)@.wf(),
            final(self)@.filter_query.len() == 0,
            final(self)@.filtered_indices.len() == 0,
            old(self)@.same_but_filter(final(self)@),
    {
        self.filter_query = String::new();
        self.filtered_indices = Vec::new();
    }

    /// The number of entries shown (filtered or all).
    pub fn effective_len(&self) -> (r: usize)
        requires
            self@.wf(),
        ensures
            r == self@.effective_len(),
    {
        if self.filtered_indices.len() == 0 && self.filter_query.as_str().is_empty() {
            self.entries.len()
        } else {
            self.filtered_indices.len()
        }
    }

    /// Map a grid position to the position of the entry shown there.
    pub fn actual_index(&self, visual_idx: usize) -> (r: Option<usize>)
        requires
            self@.wf(),
        ensures
            r == self@.actual_index(visual_idx as int),
            r matches Some(idx) ==> idx < self@.entries.len(),
    {
        if self.filtered_indices.len() == 0 && self.filter_query.as_str().is_empty() {
            if visual_idx < self.entries.len() {
                Some(visual_idx)
            } else {
                None
            }
        } else if visual_idx < self.filtered_indices.len() {
            Some(self.filtered_indices[visual_idx])
        } else {
            None
        }
    }

    /// Ensure selected item is within the visible scroll region.
    fn ensure_visible(&mut self)
        requires
            old(self)@.columns >= 1,
            old(self)@.visible_rows >= 1,
        ensures
            final(self)@ == (GalleryView { scroll_offset: old(self)@.scroll_for(old(self)@.selected as int) as usize, ..old(self)@ }),
            final(self)@.scroll_offset <= final(self)@.selected,
    {
        let row = self.selected / self.columns;
        let sel = self.selected;
        let cols = self.columns;
        assert(row <= sel) by (nonlinear_arith)
            requires
                row == sel / cols,
                cols >= 1,
        ;
        if row < self.scroll_offset {
            self.scroll_offset = row;
        } else if row - self.scroll_offset >= self.visible_rows {
            self.scroll_offset = row - self.visible_rows + 1;
        }
    }

    /// Move selection right by one cell.
    pub fn move_right(&mut self)
        requires
            old(self)@.wf(),
        ensures
            final(self)@.wf(),
            old(self)@.moved_right(final(self)@),
    {
        let len = self.effective_len();
        if len == 0 {
            return;
        }
        if self.selected + 1 < len {
            self.selected += 1;
            self.ensure_visible();
        }
    }

    /// Move selection left by one cell.
    pub fn move_left(&mut self)
        requires
            old(self)@.wf(),
        ensures
            final(self)@.wf(),
            old(self)@.moved_left(final(self)@),
    {
        if self.selected > 0 {
            self.selected -= 1;
            self.ensure_visible();
        }
    }

    /// Move selection down by one row.
    pub fn move_down(&mut self)
        requires
            old(self)@.wf(),
            old(self)@.selected + old(self)@.columns <= usize::MAX,
        ensures
            final(self)@.wf(),
            old(self)@.moved_down(final(self)@),
    {
        let len = self.effective_len();
        if len == 0 {
            return;
        }
        let next = self.selected + self.columns;
        if next < len {
            self.selected = next;
            self.ensure_visible();
        }
    }

    /// Move selection up by one row.
    pub fn move_up(&mut self)
        requires
            old(self)@.wf(),
        ensures
            final(self)@.wf(),
            old(self)@.moved_up(final(self)@),
    {
        if self.selected >= self.columns {
            self.selected -= self.columns;
            self.ensure_visible();
        }
    }

    /// Jump to first entry.
    pub fn select_first(&mut self)
        requires
            old(self)@.wf(),
        ensures
            final(self)@.wf(),
            old(self)@.selected_first(final(self)@),
    {
        self.selected = 0;
        self.ensure_visible();
    }

    /// Jump to last entry.
    pub fn select_last(&mut self)
        requires
            old(self)@.wf(),
        ensures
            final(self)@.wf(),
            old(self)@.selected_last(final(self)@),
    {
        let len = self.effective_len();
        if len > 0 {
            self.selected = len - 1;
            self.ensure_visible();
        }
    }

    /// Toggle mark on the selected entry.
    pub fn toggle_mark(&mut self)
        requires
            old(self)@.wf(),
        ensures
            final(self)@.wf(),
            old(self)@.mark_toggled(final(self)@),
    {
        if let Some(idx) = self.actual_index(self.selected) {
            let m = self.entries[idx].marked;
            self.entries[idx].marked = !m;
        }
    }
}

impl Gallery {
    /// Update visible geometry based on window size: as many rows of cells of the
    /// thumbnail size plus padding as fit, and at least one; the columns likewise,
    /// unless a number of columns was configured, which then stays.
    pub fn update_layout(&mut self, window_width: u32, window_height: u32)
        requires
            old(self)@.wf(),
            old(self)@.thumbnail_size + 20 <= u32::MAX,
        ensures
            final(self)@.wf(),
            final(self)@ == (GalleryView {
                columns: if old(self)@.fixed_columns > 0 {
                    old(self)@.fixed_columns
                } else {
                    (if window_width / (old(self)@.thumbnail_size + 20) as u32 >= 1 {
                        window_width / (old(self)@.thumbnail_size + 20) as u32
                    } else {
                        1
                    }) as usize
                },
                visible_rows: (if window_height / (old(self)@.thumbnail_size + 20) as u32 >= 1 {
                    window_height / (old(self)@.thumbnail_size + 20) as u32
                } else {
                    1
                }) as usize,
                ..old(self)@
            }),
    {
        let cell_size = self.thumbnail_size + 20;
        if cell_size > 0 {
            let c = window_width / cell_size;
            let r = window_height / cell_size;
            if self.fixed_columns == 0 {
                self.columns = if c >= 1 { c as usize } else { 1 };
            }
            self.visible_rows = if r >= 1 { r as usize } else { 1 };
        }
    }

    /// Get the currently selected entry.
    pub fn selected_entry(&self) -> (r: Option<&GalleryEntry>)
        requires
            self@.wf(),
        ensures
            match self@.actual_index(self@.selected as int) {
                None => r is None,
                Some(idx) => r is Some && *r.unwrap() == self@.entries[idx as int],
            },
    {
        match self.actual_index(self.selected) {
            Some(idx) => Some(&self.entries[idx]),
            None => None,
        }
    }

    /// Get the path of the selected entry.
    pub fn selected_path(&self) -> (r: Option<&str>)
        requires
            self@.wf(),
        ensures
            match self@.actual_index(self@.selected as int) {
                None => r is None,
                Some(idx) => r is Some && r.unwrap()@ == self@.entries[idx as int].path@,
            },
    {
        match self.selected_entry() {
            Some(e) => Some(e.path.as_str()),
            None => None,
        }
    }

    /// Get the selected visual index.
    pub fn selected_index(&self) -> (r: usize)
        ensures
            r == self@.selected,
    {
        self.selected
    }

    /// Get the number of columns.
    pub fn columns(&self) -> (r: usize)
        ensures
            r == self@.columns,
    {
        self.columns
    }

    /// Get the scroll offset in rows.
    pub fn scroll_offset(&self) -> (r: usize)
        ensures
            r == self@.scroll_offset,
    {
        self.scroll_offset
    }

    /// Get the visible row count.
    pub fn visible_rows(&self) -> (r: usize)
        ensures
            r == self@.visible_rows,
    {
        self.visible_rows
    }

    /// Get total entry count.
    pub fn len(&self) -> (r: usize)
        ensures
            r == self@.entries.len(),
    {
        self.entries.len()
    }

    /// Check if gallery is empty.
    pub fn is_empty(&self) -> (r: bool)
        ensures
            r == (self@.entries.len() == 0),
    {
        self.entries.len() == 0
    }

    /// Get the directory being viewed.
    pub fn directory(&self) -> (r: &str)
        ensures
            r@ == self@.directory,
    {
        self.directory.as_str()
    }

    /// Get all entries.
    pub fn entries(&self) -> (r: &[GalleryEntry])
        ensures
            r@ == self@.entries,
    {
        self.entries.as_slice()
    }

    /// Get entries visible in the current scroll viewport, with their grid positions.
    pub fn visible_entries(&self) -> (r: Vec<(usize, &GalleryEntry)>)
        requires
            self@.wf(),
            (self@.scroll_offset + self@.visible_rows) * self@.columns <= usize::MAX,
        ensures
            r@.len() == (if visible_range(self@).0 < visible_range(self@).1 {
                visible_range(self@).1 - visible_range(self@).0
            } else {
                0
            }),
            forall|i: int| 0 <= i < r@.len() ==> {
                let vis = visible_range(self@).0 + i;
                &&& (#[trigger] r@[i]).0 == vis
                &&& self@.actual_index(vis) is Some
                &&& *r@[i].1 == self@.entries[self@.actual_index(vis).unwrap() as int]
            },
    {
        let ghost v = self@;
        assert(self.scroll_offset + self.visible_rows <= (self.scroll_offset + self.visible_rows) * self.columns)
            by (nonlinear_arith)
            requires self.columns >= 1;
        let sum = self.scroll_offset + self.visible_rows;
        assert(self.scroll_offset * self.columns <= sum * self.columns) by (nonlinear_arith)
            requires sum == self.scroll_offset + self.visible_rows;
        let start = self.scroll_offset * self.columns;
        let full_end = sum * self.columns;
        let len = self.effective_len();
        let end = if full_end < len { full_end } else { len };
        let mut out: Vec<(usize, &GalleryEntry)> = Vec::new();
        let mut vis = start;
        while vis < end
            invariant
                v == self@,
                v.wf(),
                start <= vis,
                end <= v.effective_len(),
                start as int == visible_range(v).0,
                end as int == visible_range(v).1,
                vis <= end || vis == start,
                out@.len() == vis - start,
                forall|i: int| 0 <= i < out@.len() ==> {
                    let p = visible_range(v).0 + i;
                    &&& (#[trigger] out@[i]).0 == p
                    &&& v.actual_index(p) is Some
                    &&& *out@[i].1 == v.entries[v.actual_index(p).unwrap() as int]
                },
            decreases end - vis,
        {
            let idx = self.actual_index(vis).unwrap();
            out.push((vis, &self.entries[idx]));
            vis = vis + 1;
        }
        out
    }

    /// Get all image paths in the gallery, in gallery order.
    pub fn all_paths(&self) -> (r: Vec<String>)
        ensures
            r@.len() == self@.entries.len(),
            forall|i: int| 0 <= i < r@.len() ==> (#[trigger] r@[i])@ == self@.entries[i].path@,
    {
        let mut out: Vec<String> = Vec::new();
        let mut i: usize = 0;
        while i < self.entries.len()
            invariant
                i <= self@.entries.len(),
                out@.len() == i,
                forall|k: int| 0 <= k < i ==> (#[trigger] out@[k])@ == self@.entries[k].path@,
            decreases self@.entries.len() - i,
        {
            out.push(self.entries[i].path.clone());
            i = i + 1;
        }
        out
    }

    /// Get the current sort order.
    pub fn sort_order(&self) -> (r: SortOrder)
        ensures
            r == self@.sort_order,
    {
        self.sort_order
    }

    /// Get the thumbnail size.
    pub fn thumbnail_size(&self) -> (r: u32)
        ensures
            r == self@.thumbnail_size,
    {
        self.thumbnail_size
    }

    /// Get the current filter query.
    pub fn filter_query(&self) -> (r: &str)
        ensures
            r@ == self@.filter_query,
    {
        self.filter_query.as_str()
    }

    /// Get the number of marked entries.
    pub fn marked_count(&self) -> (r: usize)
        ensures
            r == count_marked(self@.entries),
    {
        let mut count: usize = 0;
        let mut i: usize = 0;
        while i < self.entries.len()
            invariant
                i <= self@.entries.len(),
                count == count_marked(self@.entries.take(i as int)),
                count <= i,
            decreases self@.entries.len() - i,
        {
            assert(self@.entries.take(i + 1).drop_last() =~= self@.entries.take(i as int));
            if self.entries[i].marked {
                count = count + 1;
            }
            i = i + 1;
        }
        assert(self@.entries.take(self@.entries.len() as int) =~= self@.entries);
        count
    }

    /// Store a generated thumbnail on the first entry with the given path.
    pub fn set_thumbnail(&mut self, path: &str, data: ThumbnailData)
        requires
            old(self)@.wf(),
        ensures
            final(self)@.wf(),
            final(self)@.entries.len() == old(self)@.entries.len(),
            final(self)@ == (GalleryView { entries: final(self)@.entries, ..old(self)@ }),
            match first_with_path(old(self)@.entries, path@) {
                None => final(self)@.entries == old(self)@.entries,
                Some(k) => {
                    &&& forall|i: int| 0 <= i < old(self)@.entries.len() && i != k
                        ==> final(self)@.entries[i] == old(self)@.entries[i]
                    &&& final(self)@.entries[k] == (GalleryEntry {
                        thumbnail_data: Some(data),
                        thumbnail_ready: true,
                        ..old(self)@.entries[k]
                    })
                },
            },
    {
        proof { lemma_first_with_path(self@.entries, path@); }
        let mut i: usize = 0;
        while i < self.entries.len()
            invariant
                i <= self@.entries.len(),
                self@ == old(self)@,
                old(self)@.wf(),
                forall|k: int| 0 <= k < i ==>
                    crate::path::components(#[trigger] self@.entries[k].path@) != crate::path::components(path@),
            decreases self@.entries.len() - i,
        {
            if same_path(self.entries[i].path.as_str(), path) {
                proof {
                    lemma_first_with_path(self@.entries, path@);
                }
                self.entries[i].thumbnail_data = Some(data);
                self.entries[i].thumbnail_ready = true;
                assert(self@.entries.len() == old(self)@.entries.len());
                assert(self@.wf());
                return;
            }
            i = i + 1;
        }
    }
}

/// The paths of a sequence of listed entries.
pub open spec fn listed_paths(listing: Seq<DirEntryInfo>) -> Seq<String> {
    Seq::new(listing.len(), |i: int| listing[i].path)
}

/// The key by which `list_images_in_dir` orders paths: the file name (or nothing)
/// with ASCII letters lowercased.
pub open spec fn path_name_key(path: String) -> (Seq<char>, u64) {
    (ascii_lower(entry_name(path@)), 0u64)
}

/// The keys of a sequence of paths.
pub open spec fn path_name_keys(paths: Seq<String>) -> Seq<(Seq<char>, u64)> {
    Seq::new(paths.len(), |i: int| path_name_key(paths[i]))
}

/// The image files of a directory listing, ordered by their file names compared
/// without ASCII case (and otherwise in listing order).
pub fn list_images_in_dir(listing: Vec<DirEntryInfo>) -> (r: Vec<String>)
    ensures
        exists|perm: Seq<int>| #[trigger] is_stable_sort(
            r@,
            listed_paths(listed_images(listing@)),
            path_name_keys(listed_paths(listed_images(listing@))),
            perm,
        ),
{
    let ghost all = listing@;
    let mut listing = listing;
    let mut paths: Vec<String> = Vec::new();
    let mut keys: Vec<SortKey> = Vec::new();
    let n = listing.len();
    let mut k: usize = 0;
    while k < n
        invariant
            n == all.len(),
            k <= n,
            listing@ == all.subrange(k as int, n as int),
            paths@ == listed_paths(listed_images(all.take(k as int))),
            keys_view(keys@) == path_name_keys(paths@),
        decreases n - k,
    {
        let d = listing.remove(0);
        assert(d == all[k as int]);
        assert(listing@ =~= all.subrange(k + 1, n as int));
        assert(all.take(k + 1).drop_last() =~= all.take(k as int));
        assert(all.take(k + 1).last() == d);
        if d.is_file && is_image_file(d.path.as_str()) {
            let name = match file_name_of(d.path.as_str()) {
                Some(v) => v,
                None => Vec::new(),
            };
            assert(name@ == entry_name(d.path@));
            let key = SortKey { text: ascii_lowercase(&name), num: 0 };
            let ghost dp = d.path;
            assert(crate::sort::key_view(key) == path_name_key(dp));
            let ghost kv = keys_view(keys@);
            let ghost pv = paths@;
            keys.push(key);
            paths.push(d.path);
            assert(paths@ =~= listed_paths(listed_images(all.take(k + 1))));
            assert(paths@ == pv.push(dp));
            assert(keys_view(keys@) =~= kv.push(path_name_key(dp)));
            assert(path_name_keys(paths@) =~= path_name_keys(pv).push(path_name_key(dp)));
            assert(keys_view(keys@) =~= path_name_keys(paths@));
        } else {
            assert(listed_images(all.take(k + 1)) == listed_images(all.take(k as int)));
        }
        k = k + 1;
    }
    assert(all.take(n as int) =~= all);
    let ghost pv = paths@;
    let ghost kv = keys_view(keys@);
    let r = stable_sort(paths, keys);
    let ghost perm = choose|perm: Seq<int>| is_stable_sort(r@, pv, kv, perm);
    assert(is_stable_sort(r@, pv, kv, perm));
    r
}

/// Toggling the mark twice leaves the gallery as it was.
pub proof fn law_toggle_mark_twice(g0: GalleryView, g1: GalleryView, g2: GalleryView)
    requires
        g0.wf(),
        g0.mark_toggled(g1),
        g1.mark_toggled(g2),
    ensures
        g2 == g0,
{
    assert(g1.actual_index(g1.selected as int) == g0.actual_index(g0.selected as int));
    match g0.actual_index(g0.selected as int) {
        None => {},
        Some(idx) => {
            assert(g2.entries[idx as int] == g0.entries[idx as int]);
            assert(g2.entries =~= g0.entries);
        },
    }
}

/// The number of marked entries of a sequence changes by one when one entry's mark flips.
proof fn lemma_count_marked_flip(a: Seq<GalleryEntry>, b: Seq<GalleryEntry>, idx: int)
    requires
        a.len() == b.len(),
        0 <= idx < a.len(),
        forall|i: int| 0 <= i < a.len() && i != idx ==> b[i].marked == a[i].marked,
        b[idx].marked == !a[idx].marked,
    ensures
        count_marked(b) == if a[idx].marked { count_marked(a) - 1 } else { count_marked(a) + 1int },
    decreases a.len(),
{
    if idx < a.len() - 1 {
        lemma_count_marked_flip(a.drop_last(), b.drop_last(), idx);
    } else {
        assert forall|i: int| 0 <= i < a.len() - 1 implies b.drop_last()[i].marked == a.drop_last()[i].marked by {}
        lemma_count_marked_same(a.drop_last(), b.drop_last());
    }
}

/// Sequences with the same marks have the same number of marked entries.
proof fn lemma_count_marked_same(a: Seq<GalleryEntry>, b: Seq<GalleryEntry>)
    requires
        a.len() == b.len(),
        forall|i: int| 0 <= i < a.len() ==> b[i].marked == a[i].marked,
    ensures
        count_marked(a) == count_marked(b),
    decreases a.len(),
{
    if a.len() > 0 {
        lemma_count_marked_same(a.drop_last(), b.drop_last());
    }
}

/// Toggling the mark of a selected entry changes the number of marked entries by one:
/// up if it was unmarked, down if it was marked; with nothing selected, no count changes.
pub proof fn law_toggle_mark_count(g0: GalleryView, g1: GalleryView)
    requires
        g0.wf(),
        g0.mark_toggled(g1),
    ensures
        match g0.actual_index(g0.selected as int) {
            None => count_marked(g1.entries) == count_marked(g0.entries),
            Some(idx) => count_marked(g1.entries) == if g0.entries[idx as int].marked {
                count_marked(g0.entries) - 1
            } else {
                count_marked(g0.entries) + 1int
            },
        },
{
    match g0.actual_index(g0.selected as int) {
        None => {},
        Some(idx) => {
            lemma_count_marked_flip(g0.entries, g1.entries, idx as int);
        },
    }
}

/// After the selection moves, the row of the selected cell is among the visible rows.
pub proof fn law_selection_visible(g: GalleryView, ng: GalleryView, selected: int)
    requires
        g.wf(),
        0 <= selected,
        g.selects(ng, selected),
    ensures
        ng.scroll_offset <= selected / (ng.columns as int) < ng.scroll_offset + ng.visible_rows,
{
}

/// Moving right and then left comes back to the cell one started from, and so does
/// moving down and then up, whenever the first move took place.
pub proof fn law_moves_undo(g0: GalleryView, g1: GalleryView, g2: GalleryView, g3: GalleryView, g4: GalleryView)
    requires
        g0.wf(),
        g0.moved_right(g1),
        g1.moved_left(g2),
        g0.moved_down(g3),
        g3.moved_up(g4),
    ensures
        g1.selected != g0.selected ==> g2.selected == g0.selected,
        g3.selected != g0.selected ==> g4.selected == g0.selected,
{
}

/// The filter keeps exactly the entries whose lowercased name contains the query, in
/// gallery order and without repeats.
pub proof fn law_filter_exact(entries: Seq<GalleryEntry>, q: Seq<char>)
    requires
        entries.len() <= usize::MAX,
    ensures
        forall|i: int| 0 <= i < entries.len() ==>
            (matching_indices(entries, q, entries.len()).contains(i as usize) <==> entry_matches(entries, q, i)),
        forall|a: int, b: int| 0 <= a < b < matching_indices(entries, q, entries.len()).len() ==>
            matching_indices(entries, q, entries.len())[a] < matching_indices(entries, q, entries.len())[b],
{
    lemma_matching_indices(entries, q, entries.len());
    lemma_matching_contains(entries, q, entries.len());
}

/// After the filter is set to `query`, an entry is shown exactly when its file name,
/// lowercased, contains the lowercased query: the directory part of its path never
/// decides. An empty query shows every entry.
pub proof fn law_filter_by_name(g: GalleryView, ng: GalleryView, query: Seq<char>)
    requires
        g.entries.len() <= usize::MAX,
        g.filtered_by(ng, lowercase(query)),
    ensures
        lowercase(query).len() == 0 ==> ng.unfiltered() && ng.effective_len() == g.entries.len(),
        lowercase(query).len() > 0 ==> forall|i: int| 0 <= i < g.entries.len() ==>
            (ng.filtered_indices.contains(i as usize)
                <==> is_substring(lowercase(query), lowercase(#[trigger] g.entries[i].name@))),
        forall|k: int| 0 <= k < ng.filtered_indices.len() ==> #[trigger] ng.filtered_indices[k] < g.entries.len(),
        ng.entries == g.entries,
{
    let q = lowercase(query);
    if q.len() > 0 {
        lemma_matching_contains(g.entries, q, g.entries.len());
        assert forall|i: int| 0 <= i < g.entries.len() implies
            (ng.filtered_indices.contains(i as usize)
                <==> is_substring(q, lowercase(#[trigger] g.entries[i].name@))) by {
            assert(entry_matches(g.entries, q, i) == is_substring(q, lowercase(g.entries[i].name@)));
        }
    }
}

/// A position below `n` is listed exactly when its entry matches.
proof fn lemma_matching_contains(entries: Seq<GalleryEntry>, q: Seq<char>, n: nat)
    requires
        n <= usize::MAX,
    ensures
        forall|i: int| 0 <= i < n ==>
            (matching_indices(entries, q, n).contains(i as usize) <==> entry_matches(entries, q, i)),
        forall|k: int| 0 <= k < matching_indices(entries, q, n).len() ==> matching_indices(entries, q, n)[k] < n,
    decreases n,
{
    if n > 0 {
        lemma_matching_contains(entries, q, (n - 1) as nat);
        lemma_matching_indices(entries, q, n);
        let prev = matching_indices(entries, q, (n - 1) as nat);
        let cur = matching_indices(entries, q, n);
        assert forall|i: int| 0 <= i < n implies
            (cur.contains(i as usize) <==> entry_matches(entries, q, i)) by {
            if entry_matches(entries, q, n - 1) {
                assert(cur == prev.push((n - 1) as usize));
                if i < n - 1 {
                    if cur.contains(i as usize) {
                        let k = choose|k: int| 0 <= k < cur.len() && cur[k] == i as usize;
                        if k == prev.len() {
                            assert(cur[k] == (n - 1) as usize);
                        } else {
                            assert(prev[k] == i as usize);
                        }
                    }
                    if prev.contains(i as usize) {
                        let k = choose|k: int| 0 <= k < prev.len() && prev[k] == i as usize;
                        assert(cur[k] == i as usize);
                    }
                } else {
                    assert(cur[prev.len() as int] == (n - 1) as usize);
                }
            } else {
                assert(cur == prev);
                if i == n - 1 {
                    if cur.contains(i as usize) {
                        let k = choose|k: int| 0 <= k < cur.len() && cur[k] == i as usize;
                        assert(prev[k] < n - 1);
                    }
                }
            }
        }
    }
}

/// Clearing the filter shows every entry again.
pub proof fn law_clear_filter_shows_all(g: GalleryView, ng: GalleryView)
    requires
        ng.filter_query.len() == 0,
        ng.filtered_indices.len() == 0,
        g.same_but_filter(ng),
    ensures
        ng.effective_len() == g.entries.len(),
{
}

/// No two entries share a sort key.
pub open spec fn distinct_keys(s: Seq<GalleryEntry>, order: SortOrder) -> bool {
    forall|i: int, j: int| 0 <= i < s.len() && 0 <= j < s.len() && i != j
        ==> entry_key(s[i], order) != entry_key(s[j], order)
}

/// Sort keys strictly increase along the entries.
pub open spec fn strictly_sorted(s: Seq<GalleryEntry>, order: SortOrder) -> bool {
    forall|i: int, j: int| 0 <= i < j < s.len() ==> key_lt(entry_key(s[i], order), entry_key(s[j], order))
}

/// Every entry of `x` occurs in `y`, and the other way round.
pub open spec fn same_members(x: Seq<GalleryEntry>, y: Seq<GalleryEntry>) -> bool {
    &&& forall|i: int| 0 <= i < x.len() ==> y.contains(#[trigger] x[i])
    &&& forall|j: int| 0 <= j < y.len() ==> x.contains(#[trigger] y[j])
}

/// A stable sort of entries with distinct keys holds the same entries, in strictly
/// increasing key order.
proof fn lemma_sort_members(res: Seq<GalleryEntry>, items: Seq<GalleryEntry>, order: SortOrder, perm: Seq<int>)
    requires
        is_stable_sort(res, items, entry_keys(items, order), perm),
        distinct_keys(items, order),
    ensures
        same_members(res, items),
        strictly_sorted(res, order),
{
    let keys = entry_keys(items, order);
    lemma_perm_onto(perm);
    assert forall|i: int| 0 <= i < res.len() implies items.contains(#[trigger] res[i]) by {
        assert(items[perm[i]] == res[i]);
    }
    assert forall|j: int| 0 <= j < items.len() implies res.contains(#[trigger] items[j]) by {
        assert(perm.contains(j));
        let i = choose|i: int| 0 <= i < perm.len() && perm[i] == j;
        assert(res[i] == items[j]);
    }
    assert forall|i: int, j: int| 0 <= i < j < res.len()
        implies key_lt(entry_key(res[i], order), entry_key(res[j], order)) by {
        assert(keys[perm[i]] == entry_key(res[i], order));
        assert(keys[perm[j]] == entry_key(res[j], order));
        assert(perm[i] != perm[j]);
        lemma_key_order(keys[perm[i]], keys[perm[j]], keys[perm[i]]);
    }
}

/// Strictly sorted entries have distinct keys, and so have their reverse.
proof fn lemma_strictly_sorted_distinct(s: Seq<GalleryEntry>, order: SortOrder)
    requires
        strictly_sorted(s, order),
    ensures
        distinct_keys(s, order),
        distinct_keys(s.reverse(), order),
{
    assert forall|i: int, j: int| 0 <= i < s.len() && 0 <= j < s.len() && i != j
        implies entry_key(s[i], order) != entry_key(s[j], order) by {
        if i < j {
            lemma_key_order(entry_key(s[i], order), entry_key(s[j], order), entry_key(s[i], order));
        } else {
            lemma_key_order(entry_key(s[j], order), entry_key(s[i], order), entry_key(s[j], order));
        }
    }
    let r = s.reverse();
    assert forall|i: int, j: int| 0 <= i < r.len() && 0 <= j < r.len() && i != j
        implies entry_key(r[i], order) != entry_key(r[j], order) by {
        assert(r[i] == s[s.len() - 1 - i]);
        assert(r[j] == s[s.len() - 1 - j]);
    }
}

/// Reversing keeps the members.
proof fn lemma_reverse_members(s: Seq<GalleryEntry>)
    ensures
        same_members(s.reverse(), s),
        same_members(s, s.reverse()),
{
    let r = s.reverse();
    assert forall|i: int| 0 <= i < r.len() implies s.contains(#[trigger] r[i]) by {
        assert(r[i] == s[s.len() - 1 - i]);
    }
    assert forall|j: int| 0 <= j < s.len() implies r.contains(#[trigger] s[j]) by {
        assert(r[s.len() - 1 - j] == s[j]);
    }
}

/// Having the same members is transitive.
proof fn lemma_members_trans(x: Seq<GalleryEntry>, y: Seq<GalleryEntry>, z: Seq<GalleryEntry>)
    requires
        same_members(x, y),
        same_members(y, z),
    ensures
        same_members(x, z),
{
    assert forall|i: int| 0 <= i < x.len() implies z.contains(#[trigger] x[i]) by {
        assert(y.contains(x[i]));
        let k = choose|k: int| 0 <= k < y.len() && y[k] == x[i];
        assert(z.contains(y[k]));
    }
    assert forall|j: int| 0 <= j < z.len() implies x.contains(#[trigger] z[j]) by {
        assert(y.contains(z[j]));
        let k = choose|k: int| 0 <= k < y.len() && y[k] == z[j];
        assert(x.contains(y[k]));
    }
}

/// Two strictly sorted sequences of the same members agree on their first `n` entries.
proof fn lemma_agree_prefix(x: Seq<GalleryEntry>, y: Seq<GalleryEntry>, order: SortOrder, n: nat)
    requires
        x.len() == y.len(),
        n <= x.len(),
        strictly_sorted(x, order),
        strictly_sorted(y, order),
        same_members(x, y),
    ensures
        forall|m: int| 0 <= m < n ==> x[m] == y[m],
    decreases n,
{
    if n > 0 {
        lemma_agree_prefix(x, y, order, (n - 1) as nat);
        let i = n - 1;
        if x[i] != y[i] {
            assert(y.contains(x[i]));
            let k = choose|k: int| 0 <= k < y.len() && y[k] == x[i];
            assert(x.contains(y[i]));
            let j = choose|j: int| 0 <= j < x.len() && x[j] == y[i];
            let kx = entry_key(x[i], order);
            let ky = entry_key(y[i], order);
            lemma_key_order(kx, ky, kx);
            lemma_key_order(ky, kx, ky);
            if k < i {
                assert(x[k] == y[k]);
                assert(key_lt(entry_key(x[k], order), entry_key(x[i], order)));
            } else {
                assert(key_lt(entry_key(y[i], order), entry_key(y[k], order)));
            }
            if j < i {
                assert(x[j] == y[j]);
                assert(key_lt(entry_key(y[j], order), entry_key(y[i], order)));
            } else {
                assert(key_lt(entry_key(x[i], order), entry_key(x[j], order)));
            }
        }
    }
}

/// What a sort of entries with distinct keys leaves: the same entries, with distinct
/// keys, strictly sorted once read in ascending order.
proof fn lemma_resorted_members(g: GalleryView, ng: GalleryView, order: SortOrder, reverse: bool)
    requires
        distinct_keys(g.entries, order),
        g.resorted(ng, order, reverse),
    ensures
        same_members(unreversed(ng.entries, reverse), g.entries),
        strictly_sorted(unreversed(ng.entries, reverse), order),
        same_members(ng.entries, g.entries),
        distinct_keys(ng.entries, order),
        ng.sort_order == order,
        ng.sort_reverse == reverse,
{
    let u = unreversed(ng.entries, reverse);
    let p = choose|perm: Seq<int>| #[trigger] is_stable_sort(u, g.entries, entry_keys(g.entries, order), perm);
    lemma_sort_members(u, g.entries, order, p);
    lemma_strictly_sorted_distinct(u, order);
    if reverse {
        assert(u.reverse() =~= ng.entries);
        lemma_reverse_members(ng.entries);
        lemma_members_trans(ng.entries, u, g.entries);
    }
}

/// After a sort, reversing the order twice gives back the order that sort produced,
/// when no two entries share a sort key. (Entries with equal keys may come back in
/// the opposite relative order.)
pub proof fn law_reverse_twice(
    g0: GalleryView,
    g1: GalleryView,
    g2: GalleryView,
    g3: GalleryView,
    order: SortOrder,
    reverse: bool,
)
    requires
        distinct_keys(g0.entries, order),
        g0.resorted(g1, order, reverse),
        g1.resorted(g2, g1.sort_order, !g1.sort_reverse),
        g2.resorted(g3, g2.sort_order, !g2.sort_reverse),
    ensures
        g3 == g1,
{
    lemma_resorted_members(g0, g1, order, reverse);
    lemma_resorted_members(g1, g2, order, !reverse);
    lemma_resorted_members(g2, g3, order, reverse);
    let u1 = unreversed(g1.entries, reverse);
    let u3 = unreversed(g3.entries, reverse);
    lemma_members_trans(g3.entries, g2.entries, g1.entries);
    if reverse {
        lemma_reverse_members(g1.entries);
        lemma_reverse_members(g3.entries);
        lemma_members_trans(u3, g3.entries, g1.entries);
        lemma_members_trans(u3, g1.entries, u1);
    } else {
        assert(same_members(u3, u1));
    }
    assert(same_members(u1, u3));
    lemma_agree_prefix(u1, u3, order, u1.len());
    assert(u1 =~= u3);
    if reverse {
        assert(g1.entries =~= u1.reverse());
        assert(g3.entries =~= u3.reverse());
    }
    assert(g3.entries =~= g1.entries);
}

/// Four steps of the sort cycle come back to the first order.
pub proof fn law_sort_cycle(order: SortOrder)
    ensures
        next_sort_order(next_sort_order(next_sort_order(next_sort_order(order)))) == order,
{
}

} // verus!
