//! Classification of media files by their extension.
use vstd::prelude::*;

use crate::text::{
    ascii_lower, chars_of, is_ascii_chars, last_segment, last_segment_of, lowercase, str_eq, string_of,
    to_lowercase,
};

verus! {

/// The kinds of files that browsing tells apart.
#[derive(Clone, Copy, Debug, PartialEq, Eq, Structural)]
pub enum FileKind {
    Raw,
    Image,
    Video,
    Other,
}

/// Camera RAW extensions, in lower case.
pub open spec fn raw_extensions() -> Seq<Seq<char>> {
    seq![
        "cr2"@, "cr3"@, "nef"@, "arw"@, "orf"@, "rw2"@, "dng"@, "raf"@, "pef"@, "srw"@, "x3f"@,
        "3fr"@, "mrw"@, "nrw"@, "raw"@,
    ]
}

/// Still image extensions, in lower case.
pub open spec fn image_extensions() -> Seq<Seq<char>> {
    seq!["jpg"@, "jpeg"@, "png"@, "gif"@, "bmp"@, "webp"@, "tiff"@, "tif"@, "heic"@, "heif"@]
}

/// Video extensions, in lower case.
pub open spec fn video_extensions() -> Seq<Seq<char>> {
    seq!["mp4"@, "mov"@, "avi"@, "mkv"@, "360"@, "webm"@]
}

/// The kind that a lower-cased extension denotes.
pub open spec fn kind_of_extension(ext: Seq<char>) -> FileKind {
    if raw_extensions().contains(ext) {
        FileKind::Raw
    } else if image_extensions().contains(ext) {
        FileKind::Image
    } else if video_extensions().contains(ext) {
        FileKind::Video
    } else {
        FileKind::Other
    }
}

/// The lower-cased extension of a file name: what follows its last '.',
/// or the whole name when it has none. An ASCII extension is lowered letter
/// by letter; any other goes through the Unicode lowercase mapping.
pub open spec fn extension_of(name: Seq<char>) -> Seq<char> {
    let seg = last_segment(name, '.');
    if is_ascii_chars(seg) {
        ascii_lower(seg)
    } else {
        lowercase(seg)
    }
}

/// The kind of a file, judged by its name.
pub open spec fn kind_of_name(name: Seq<char>) -> FileKind {
    kind_of_extension(extension_of(name))
}

/// The label of each kind, as the browse API reports it.
pub open spec fn kind_label(k: FileKind) -> Seq<char> {
    match k {
        FileKind::Raw => "raw"@,
        FileKind::Image => "image"@,
        FileKind::Video => "video"@,
        FileKind::Other => "other"@,
    }
}

fn raw_extension_list() -> (v: Vec<&'static str>)
    ensures
        v@.map_values(|s: &str| s@) == raw_extensions(),
{
    let v = vec![
        "cr2", "cr3", "nef", "arw", "orf", "rw2", "dng", "raf", "pef", "srw", "x3f", "3fr", "mrw",
        "nrw", "raw",
    ];
    assert(v@.map_values(|s: &str| s@) =~= raw_extensions());
    v
}

fn image_extension_list() -> (v: Vec<&'static str>)
    ensures
        v@.map_values(|s: &str| s@) == image_extensions(),
{
    let v = vec!["jpg", "jpeg", "png", "gif", "bmp", "webp", "tiff", "tif", "heic", "heif"];
    assert(v@.map_values(|s: &str| s@) =~= image_extensions());
    v
}

fn video_extension_list() -> (v: Vec<&'static str>)
    ensures
        v@.map_values(|s: &str| s@) == video_extensions(),
{
    let v = vec!["mp4", "mov", "avi", "mkv", "360", "webm"];
    assert(v@.map_values(|s: &str| s@) =~= video_extensions());
    v
}

/// Whether `x` is one of the strings of `list`.
fn list_contains(list: &Vec<&'static str>, x: &str) -> (r: bool)
    ensures
        r == list@.map_values(|s: &str| s@).contains(x@),
{
    let ghost views = list@.map_values(|s: &str| s@);
    let n = list.len();
    let mut i: usize = 0;
    while i < n
        invariant
            n == list@.len(),
            views == list@.map_values(|s: &str| s@),
            i <= n,
            forall|j: int| 0 <= j < i ==> views[j] != x@,
        decreases n - i,
    {
        if str_eq(list[i], x) {
            assert(views[i as int] == x@);
            return true;
        }
        i = i + 1;
    }
    false
}

/// The kind that a lower-cased extension denotes.
pub fn classify_extension(ext: &str) -> (k: FileKind)
    ensures
        k == kind_of_extension(ext@),
{
    if list_contains(&raw_extension_list(), ext) {
        FileKind::Raw
    } else if list_contains(&image_extension_list(), ext) {
        FileKind::Image
    } else if list_contains(&video_extension_list(), ext) {
        FileKind::Video
    } else {
        FileKind::Other
    }
}

/// The lower-cased extension of a file name.
pub fn extension(name: &str) -> (ext: String)
    ensures
        ext@ == extension_of(name@),
{
    let cs = chars_of(name);
    let seg = last_segment_of(&cs, '.');
    let seg = string_of(&seg);
    to_lowercase(seg.as_str())
}

/// The kind of a file, judged by its name.
pub fn file_kind(name: &str) -> (k: FileKind)
    ensures
        k == kind_of_name(name@),
{
    let ext = extension(name);
    classify_extension(ext.as_str())
}

impl FileKind {
    /// The label of the kind: "raw", "image", "video" or "other".
    pub fn as_str(&self) -> (s: &'static str)
        ensures
            s@ == kind_label(*self),
    {
        match self {
            FileKind::Raw => "raw",
            FileKind::Image => "image",
            FileKind::Video => "video",
            FileKind::Other => "other",
        }
    }
}

/// The label of a file's kind: "raw", "image", "video" or "other".
pub fn classify_file(name: &str) -> (label: &'static str)
    ensures
        label@ == kind_label(kind_of_name(name@)),
{
    file_kind(name).as_str()
}

/// Whether a path names a camera RAW file.
pub fn is_raw(path: &str) -> (r: bool)
    ensures
        r == raw_extensions().contains(extension_of(path@)),
{
    let ext = extension(path);
    list_contains(&raw_extension_list(), ext.as_str())
}

} // verus!
