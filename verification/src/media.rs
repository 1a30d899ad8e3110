//! Serving media: byte ranges of streamed files, content types, and how
//! thumbnails and previews are rendered.
use vstd::prelude::*;

use crate::filetype::{extension_of, is_raw, raw_extensions};
use crate::text::{
    after_first, chars_of, decimal, first_segment, parse_usize, parsed_usize, push_chars,
    push_decimal, split_first,
};

verus! {

/// The size of a thumbnail when a request names none.
pub fn default_thumb_size() -> (n: u32)
    ensures
        n == 300,
{
    300
}

/// The byte range that a `Range` header's specification (the text after
/// "bytes=") selects from a body of `total` bytes, as (first, last): "a-b"
/// selects a..=b, "a-" from a to the end, "-n" the last n bytes; both ends
/// are clamped to the last byte, and unparsable numbers count as 0 (start)
/// or the end (last byte). Without a '-' the whole body is selected.
pub open spec fn range_of(spec: Seq<char>, total: int) -> (int, int) {
    if !spec.contains('-') {
        (0, total - 1)
    } else {
        let head = first_segment(spec, '-');
        let tail = after_first(spec, '-');
        if head.len() == 0 {
            let suffix: int = match parsed_usize(tail) {
                Some(v) => v as int,
                None => 0,
            };
            (if suffix >= total {
                0
            } else {
                total - suffix
            }, total - 1)
        } else {
            let start: int = match parsed_usize(head) {
                Some(v) => v as int,
                None => 0,
            };
            let end: int = if tail.len() == 0 {
                total - 1
            } else {
                match parsed_usize(tail) {
                    Some(v) => v as int,
                    None => total - 1,
                }
            };
            (if start < total - 1 {
                start
            } else {
                total - 1
            }, if end < total - 1 {
                end
            } else {
                total - 1
            })
        }
    }
}

/// The byte range that a `Range` specification selects from a body of
/// `total` bytes. A body must have at least one byte.
pub fn parse_range(spec: &str, total: usize) -> (r: (usize, usize))
    requires
        total > 0,
    ensures
        r.0 as int == range_of(spec@, total as int).0,
        r.1 as int == range_of(spec@, total as int).1,
{
    let cs = chars_of(spec);
    let (head, rest) = split_first(&cs, '-');
    match rest {
        None => (0, total - 1),
        Some(tail) => {
            if head.len() == 0 {
                let suffix = match parse_usize(&tail) {
                    Some(v) => v,
                    None => 0,
                };
                let start = total.saturating_sub(suffix);
                (start, total - 1)
            } else {
                let start = match parse_usize(&head) {
                    Some(v) => v,
                    None => 0,
                };
                let end = if tail.len() == 0 {
                    total - 1
                } else {
                    match parse_usize(&tail) {
                        Some(v) => v,
                        None => total - 1,
                    }
                };
                (if start < total - 1 {
                    start
                } else {
                    total - 1
                }, if end < total - 1 {
                    end
                } else {
                    total - 1
                })
            }
        },
    }
}

/// `s` with `prefix` removed from its front, when it starts with it.
pub open spec fn strip_prefix_of(s: Seq<char>, prefix: Seq<char>) -> Option<Seq<char>> {
    if prefix.len() <= s.len() && s.take(prefix.len() as int) == prefix {
        Some(s.skip(prefix.len() as int))
    } else {
        None
    }
}

/// Removes `prefix` from the front of `s`, when `s` starts with it.
pub fn strip_prefix(s: &Vec<char>, prefix: &Vec<char>) -> (r: Option<Vec<char>>)
    ensures
        match strip_prefix_of(s@, prefix@) {
            Some(rest) => r matches Some(v) && v@ == rest,
            None => r is None,
        },
{
    let n = s.len();
    let m = prefix.len();
    if m > n {
        return None;
    }
    let mut i: usize = 0;
    while i < m
        invariant
            n == s@.len(),
            m == prefix@.len(),
            m <= n,
            i <= m,
            s@.take(i as int) =~= prefix@.take(i as int),
        decreases m - i,
    {
        if s[i] != prefix[i] {
            assert(s@.take(m as int)[i as int] != prefix@[i as int]);
            return None;
        }
        i = i + 1;
    }
    assert(prefix@.take(m as int) =~= prefix@);
    let mut rest: Vec<char> = Vec::new();
    let mut j = m;
    while j < n
        invariant
            n == s@.len(),
            m <= j <= n,
            rest@ =~= s@.subrange(m as int, j as int),
        decreases n - j,
    {
        rest.push(s[j]);
        j = j + 1;
    }
    Some(rest)
}

/// What `mime_guess` makes of a path: the first media type guessed from its
/// extension, or "application/octet-stream".
pub uninterp spec fn guessed_content_type(path: Seq<char>) -> Seq<char>;

/// `mime_guess::from_path(path).first_or_octet_stream()`, as text. The
/// contract names the result `guessed_content_type` of the path; the table
/// of extensions is the crate's and is not stated.
#[verifier::external_body]
fn content_type(path: &str) -> (r: String)
    ensures
        r@ == guessed_content_type(path@),
{
    mime_guess::from_path(path).first_or_octet_stream().to_string()
}

/// A part of a streamed body.
pub struct ByteRange {
    /// The first byte sent.
    pub start: usize,
    /// The last byte sent.
    pub end: usize,
    /// How many bytes are sent.
    pub length: usize,
    /// The `Content-Range` header: "bytes START-END/TOTAL".
    pub content_range: String,
}

/// How a file is streamed: its content type, and the part of it that is
/// sent (all of it when `range` is `None`).
pub struct StreamPlan {
    pub content_type: String,
    pub range: Option<ByteRange>,
}

/// The byte range that a `Range` header value asks for, when it is a
/// "bytes=" range.
pub open spec fn requested_range(header: Option<Seq<char>>, total: int) -> Option<(int, int)> {
    match header {
        Some(h) => match strip_prefix_of(h, "bytes="@) {
            Some(spec) => Some(range_of(spec, total)),
            None => None,
        },
        None => None,
    }
}

/// Whether a `Range` header can be served from a body of `total` bytes:
/// a "bytes=" range needs a non-empty body and must not end before it
/// starts (serving such a range panics).
pub open spec fn range_servable(header: Option<Seq<char>>, total: int) -> bool {
    match header {
        Some(h) => strip_prefix_of(h, "bytes="@) is Some ==> total > 0 && {
            let r = requested_range(header, total).unwrap();
            r.0 <= r.1
        },
        None => true,
    }
}

/// The `Content-Range` header for bytes `start..=end` of `total`.
pub open spec fn content_range_of(start: nat, end: nat, total: nat) -> Seq<char> {
    "bytes "@ + decimal(start) + "-"@ + decimal(end) + "/"@ + decimal(total)
}

/// How to stream the file at `path`, of `total` bytes, given the request's
/// `Range` header (when it is present and readable as text).
pub fn plan_stream(path: &str, range_header: Option<&str>, total: usize) -> (plan: StreamPlan)
    requires
        range_servable(
            match range_header {
                Some(h) => Some(h@),
                None => None,
            },
            total as int,
        ),
    ensures
        plan.content_type@ == guessed_content_type(path@),
        match requested_range(
            match range_header {
                Some(h) => Some(h@),
                None => None,
            },
            total as int,
        ) {
            Some((s, e)) => plan.range matches Some(r) && r.start == s && r.end == e && r.length
                == e - s + 1 && r.content_range@ == content_range_of(
                s as nat,
                e as nat,
                total as nat,
            ),
            None => plan.range is None,
        },
{
    let content_type = content_type(path);
    let range = match range_header {
        None => None,
        Some(h) => {
            let hs = chars_of(h);
            let prefix = chars_of("bytes=");
            proof {
                reveal_strlit("bytes=");
            }
            match strip_prefix(&hs, &prefix) {
                None => None,
                Some(spec) => {
                    let spec_str = crate::text::string_of(&spec);
                    let (start, end) = parse_range(spec_str.as_str(), total);
                    let length = end - start + 1;
                    let mut content_range = crate::text::owned("bytes ");
                    push_decimal(&mut content_range, start as u64);
                    push_chars(&mut content_range, &chars_of("-"));
                    push_decimal(&mut content_range, end as u64);
                    push_chars(&mut content_range, &chars_of("/"));
                    push_decimal(&mut content_range, total as u64);
                    Some(ByteRange { start, end, length, content_range })
                },
            }
        },
    };
    StreamPlan { content_type, range }
}

/// How an image is rendered: decoded as a camera RAW file or as an
/// ordinary image, fitted within a box, and encoded as JPEG.
pub struct RenderPlan {
    pub raw: bool,
    pub max_w: u32,
    pub max_h: u32,
    pub quality: u8,
}

/// How a thumbnail of the file at `path` is rendered: within `w` by `h`,
/// at JPEG quality 80.
pub fn thumbnail_plan(path: &str, w: u32, h: u32) -> (plan: RenderPlan)
    ensures
        plan.raw == raw_extensions().contains(extension_of(path@)),
        plan.max_w == w,
        plan.max_h == h,
        plan.quality == 80,
{
    RenderPlan { raw: is_raw(path), max_w: w, max_h: h, quality: 80 }
}

/// The largest side of a preview.
pub fn preview_max_dim() -> (n: u32)
    ensures
        n == 2048,
{
    2048
}

/// How a preview of the file at `path` is rendered: within 2048 by 2048, at
/// JPEG quality 90.
pub fn preview_plan(path: &str) -> (plan: RenderPlan)
    ensures
        plan.raw == raw_extensions().contains(extension_of(path@)),
        plan.max_w == 2048,
        plan.max_h == 2048,
        plan.quality == 90,
{
    let d = preview_max_dim();
    RenderPlan { raw: is_raw(path), max_w: d, max_h: d, quality: 90 }
}

/// The size of the previews that the media mesh renders by content id.
pub fn cid_preview_size() -> (n: u32)
    ensures
        n == 1600,
{
    1600
}

} // verus!

verus! {

/// Whether a `Range` header can be served from a body of `total` bytes.
pub fn range_is_servable(range_header: Option<&str>, total: usize) -> (r: bool)
    ensures
        r == range_servable(
            match range_header {
                Some(h) => Some(h@),
                None => None,
            },
            total as int,
        ),
{
    match range_header {
        None => true,
        Some(h) => {
            let hs = chars_of(h);
            let prefix = chars_of("bytes=");
            proof {
                reveal_strlit("bytes=");
            }
            match strip_prefix(&hs, &prefix) {
                None => true,
                Some(spec) => {
                    if total == 0 {
                        false
                    } else {
                        let spec_str = crate::text::string_of(&spec);
                        let (start, end) = parse_range(spec_str.as_str(), total);
                        start <= end
                    }
                },
            }
        },
    }
}

} // verus!
