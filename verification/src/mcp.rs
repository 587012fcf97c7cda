//! What the tool server reports of a directory of images.

use vstd::prelude::*;
use crate::gallery::{entry_name, is_image_extension, is_image_path};
use crate::path::{extension, extension_of, file_name_of, str_equal, string_from_chars};
use crate::text::{lowercase, to_lowercase};

verus! {

/// The extensions (in lowercase) of the files that the tool server lists.
pub open spec fn is_tool_image_extension(e: Seq<char>) -> bool {
    ||| e == "jpg"@
    ||| e == "jpeg"@
    ||| e == "png"@
    ||| e == "gif"@
    ||| e == "bmp"@
    ||| e == "tiff"@
    ||| e == "tif"@
    ||| e == "webp"@
    ||| e == "avif"@
}

/// A path whose extension, lowercased, is one that the tool server lists.
pub open spec fn is_tool_image_path(path: Seq<char>) -> bool {
    match extension(path) {
        Some(e) => is_tool_image_extension(lowercase(e)),
        None => false,
    }
}

/// The tool server lists the files with the extensions jpg, jpeg, png, gif, bmp, tiff,
/// tif, webp and avif, in any case: the gallery's image extensions but for ico.
pub proof fn law_tool_extensions(e: Seq<char>)
    ensures
        is_tool_image_extension(e) <==> (
            e == "jpg"@ || e == "jpeg"@ || e == "png"@ || e == "gif"@ || e == "bmp"@
                || e == "tiff"@ || e == "tif"@ || e == "webp"@ || e == "avif"@
        ),
        is_tool_image_extension(e) <==> (is_image_extension(e) && e != "ico"@),
{
    reveal_strlit("ico");
    reveal_strlit("jpg");
    reveal_strlit("jpeg");
    reveal_strlit("png");
    reveal_strlit("gif");
    reveal_strlit("bmp");
    reveal_strlit("tiff");
    reveal_strlit("tif");
    reveal_strlit("webp");
    reveal_strlit("avif");
    assert("jpg"@[0] != "ico"@[0]);
    assert("png"@[0] != "ico"@[0]);
    assert("gif"@[0] != "ico"@[0]);
    assert("bmp"@[0] != "ico"@[0]);
    assert("tif"@[0] != "ico"@[0]);
    assert("jpeg"@.len() != "ico"@.len());
    assert("tiff"@.len() != "ico"@.len());
    assert("webp"@.len() != "ico"@.len());
    assert("avif"@.len() != "ico"@.len());
}

/// A path is listed by the tool server exactly when its extension, lowercased, is one
/// of the listed ones; the gallery lists it too.
pub proof fn law_tool_paths(path: Seq<char>)
    ensures
        is_tool_image_path(path) <==> (extension(path) matches Some(x) && {
            let e = lowercase(x);
            e == "jpg"@ || e == "jpeg"@ || e == "png"@ || e == "gif"@ || e == "bmp"@
                || e == "tiff"@ || e == "tif"@ || e == "webp"@ || e == "avif"@
        }),
        is_tool_image_path(path) ==> is_image_path(path),
{
    if let Some(x) = extension(path) {
        law_tool_extensions(lowercase(x));
    }
}

/// An entry of a directory as read from the file system.
#[derive(Clone, Debug)]
pub struct ListedFile {
    /// The entry's path.
    pub path: String,
    /// Its size in bytes, where its metadata could be read.
    pub size_bytes: Option<u64>,
}

/// An image as the tool server reports it.
#[derive(Clone, Debug)]
pub struct ToolImage {
    /// The image's path.
    pub path: String,
    /// Its file name (empty where the path has none).
    pub name: String,
    /// Its size in bytes, where known.
    pub size_bytes: Option<u64>,
}

/// The entries that the tool server lists, in listing order.
pub open spec fn tool_listed(files: Seq<ListedFile>) -> Seq<ListedFile>
    decreases files.len(),
{
    if files.len() == 0 {
        Seq::empty()
    } else if is_tool_image_path(files.last().path@) {
        tool_listed(files.drop_last()).push(files.last())
    } else {
        tool_listed(files.drop_last())
    }
}

/// `t` reports the listed entry `f`.
pub open spec fn tool_image_of(t: ToolImage, f: ListedFile) -> bool {
    &&& t.path@ == f.path@
    &&& t.name@ == entry_name(f.path@)
    &&& t.size_bytes == f.size_bytes
}

/// Whether a lowercase extension is one that the tool server lists.
pub fn is_tool_image_extension_str(e: &str) -> (r: bool)
    ensures
        r == is_tool_image_extension(e@),
{
    str_equal(e, "jpg") || str_equal(e, "jpeg") || str_equal(e, "png") || str_equal(e, "gif")
        || str_equal(e, "bmp") || str_equal(e, "tiff") || str_equal(e, "tif") || str_equal(e, "webp")
        || str_equal(e, "avif")
}

/// Whether the tool server lists a file at `path`.
pub fn is_tool_image(path: &str) -> (r: bool)
    ensures
        r == is_tool_image_path(path@),
{
    match extension_of(path) {
        None => false,
        Some(ext) => {
            let e = string_from_chars(&ext);
            let lower = to_lowercase(e.as_str());
            is_tool_image_extension_str(lower.as_str())
        },
    }
}

/// The images of a directory listing that the gallery-listing tool reports: the
/// entries with a listed image extension, in listing order, each with its file name.
pub fn gallery_images(files: &Vec<ListedFile>) -> (r: Vec<ToolImage>)
    ensures
        r@.len() == tool_listed(files@).len(),
        forall|i: int| 0 <= i < r@.len() ==> #[trigger] tool_image_of(r@[i], tool_listed(files@)[i]),
{
    let mut r: Vec<ToolImage> = Vec::new();
    let mut k: usize = 0;
    while k < files.len()
        invariant
            k <= files@.len(),
            r@.len() == tool_listed(files@.take(k as int)).len(),
            forall|i: int| 0 <= i < r@.len() ==> #[trigger] tool_image_of(r@[i], tool_listed(files@.take(k as int))[i]),
        decreases files@.len() - k,
    {
        let f = &files[k];
        assert(files@.take(k + 1).drop_last() =~= files@.take(k as int));
        assert(files@.take(k + 1).last() == *f);
        if is_tool_image(f.path.as_str()) {
            let name = match file_name_of(f.path.as_str()) {
                Some(v) => string_from_chars(&v),
                None => String::new(),
            };
            let t = ToolImage { path: f.path.clone(), name, size_bytes: f.size_bytes };
            assert(tool_image_of(t, *f));
            r.push(t);
        }
        k = k + 1;
    }
    assert(files@.take(files@.len() as int) =~= files@);
    r
}

} // verus!
