//! Browsing a device's files: finding the device, ordering and paging its
//! listing, joining it with the catalog, and indexing it by month.
use vstd::prelude::*;

use crate::filetype::{file_kind, kind_label, kind_of_name, FileKind};
use crate::months::{group_keys, groups_of, month_key, month_key_of, month_key_ok, MonthGroup};
use crate::order::{key_views, stable_order, stably_sorted};
use crate::text::{chars_of, owned, str_eq};

verus! {

/// A device known to the media mesh.
pub struct DeviceInfo {
    pub id: String,
    pub name: String,
}

/// One entry of a device directory listing.
pub struct FileEntry {
    pub name: String,
    pub path: String,
    pub is_dir: bool,
    pub size: u64,
    /// The file's modification time, as an ISO 8601 string.
    pub modified: Option<String>,
}

/// One entry of the indexed catalog of a directory.
pub struct CatalogEntry {
    pub path: String,
    pub cid: String,
    /// The capture date from the file's metadata.
    pub modified: Option<String>,
    pub has_thumbnail: bool,
    pub has_preview: bool,
}

/// Query parameters of a browse request.
pub struct BrowseParams {
    pub device: String,
    pub dir: String,
    pub path: String,
    pub offset: usize,
    pub limit: usize,
    pub sort: String,
}

/// Query parameters of a month index request.
pub struct MonthsParams {
    pub device: String,
    pub dir: String,
    pub path: String,
    pub sort: String,
}

/// One entry of a browse response.
pub struct BrowseEntry {
    pub name: String,
    pub path: String,
    pub is_dir: bool,
    pub size: u64,
    pub modified: Option<String>,
    /// "dir", "raw", "image", "video" or "other".
    pub file_type: &'static str,
    /// The content id, present once the thumbnail is ready.
    pub cid: Option<String>,
    /// Whether nothing is left to generate for this entry.
    pub processed: bool,
}

/// A page of a directory listing.
pub struct BrowseResponse {
    pub entries: Vec<BrowseEntry>,
    pub total: usize,
    pub offset: usize,
    pub has_more: bool,
}

/// The sort order used when a request names none.
pub fn default_sort() -> (s: String)
    ensures
        s@ == "newest"@,
{
    owned("newest")
}

/// The page offset used when a request names none.
pub fn default_offset() -> (n: usize)
    ensures
        n == 0,
{
    0
}

/// The page size used when a request names none.
pub fn default_limit() -> (n: usize)
    ensures
        n == 100,
{
    100
}

/// The view of an optional string.
pub open spec fn opt_view(o: Option<String>) -> Option<Seq<char>> {
    match o {
        Some(s) => Some(s@),
        None => None,
    }
}

/// The first device whose id or name is `key`.
pub open spec fn device_matches(d: DeviceInfo, key: Seq<char>) -> bool {
    d.id@ == key || d.name@ == key
}

/// The position of the first device whose id or name is `key`, if any.
pub fn find_device(devices: &Vec<DeviceInfo>, key: &str) -> (r: Option<usize>)
    ensures
        match r {
            Some(i) => i < devices@.len() && device_matches(devices@[i as int], key@) && forall|j: int|
                0 <= j < i ==> !device_matches(#[trigger] devices@[j], key@),
            None => forall|j: int|
                0 <= j < devices@.len() ==> !device_matches(#[trigger] devices@[j], key@),
        },
{
    let n = devices.len();
    let mut i: usize = 0;
    while i < n
        invariant
            n == devices@.len(),
            i <= n,
            forall|j: int| 0 <= j < i ==> !device_matches(#[trigger] devices@[j], key@),
        decreases n - i,
    {
        if str_eq(devices[i].id.as_str(), key) || str_eq(devices[i].name.as_str(), key) {
            return Some(i);
        }
        i = i + 1;
    }
    None
}

impl CatalogEntry {
    /// A copy of the entry.
    pub fn duplicate(&self) -> (r: CatalogEntry)
        ensures
            r == *self,
    {
        CatalogEntry {
            path: self.path.clone(),
            cid: self.cid.clone(),
            modified: match &self.modified {
                Some(m) => Some(m.clone()),
                None => None,
            },
            has_thumbnail: self.has_thumbnail,
            has_preview: self.has_preview,
        }
    }
}

impl FileEntry {
    /// A copy of the entry.
    pub fn duplicate(&self) -> (r: FileEntry)
        ensures
            r == *self,
    {
        FileEntry {
            name: self.name.clone(),
            path: self.path.clone(),
            is_dir: self.is_dir,
            size: self.size,
            modified: match &self.modified {
                Some(m) => Some(m.clone()),
                None => None,
            },
        }
    }
}

/// The key a listing is sorted by: the modification time, or the empty
/// string when there is none. ISO 8601 times sort correctly as text.
pub open spec fn modified_key(f: FileEntry) -> Seq<char> {
    match f.modified {
        Some(m) => m@,
        None => Seq::empty(),
    }
}

/// The sort keys of a listing.
pub open spec fn listing_keys(files: Seq<FileEntry>) -> Seq<Seq<char>> {
    files.map_values(|f: FileEntry| modified_key(f))
}

/// Whether a sort parameter asks for newest first: anything but "oldest".
pub open spec fn sorts_descending(sort: Seq<char>) -> bool {
    sort != "oldest"@
}

/// `out` is `files` listed in the order `p`.
pub open spec fn listed_in_order(files: Seq<FileEntry>, p: Seq<usize>, out: Seq<FileEntry>) -> bool {
    &&& out.len() == p.len()
    &&& forall|k: int| 0 <= k < p.len() ==> #[trigger] out[k] == files[p[k] as int]
}

/// `r` is the listing `files` ordered by modification time, stably, newest
/// first unless `sort` is "oldest".
pub open spec fn sorted_listing(files: Seq<FileEntry>, sort: Seq<char>, r: Seq<FileEntry>) -> bool {
    exists|p: Seq<usize>|
        stably_sorted::<Vec<char>>(listing_keys(files), sorts_descending(sort), p) && listed_in_order(
            files,
            p,
            r,
        )
}

/// Orders a listing by modification time: oldest first when `sort` is
/// "oldest", newest first otherwise; entries with equal times keep their
/// order, and entries without a time count as the empty string.
pub fn sort_files(files: &Vec<FileEntry>, sort: &str) -> (r: Vec<FileEntry>)
    ensures
        sorted_listing(files@, sort@, r@),
{
    let desc = !str_eq(sort, "oldest");
    let n = files.len();
    let mut keys: Vec<Vec<char>> = Vec::new();
    let mut i: usize = 0;
    while i < n
        invariant
            n == files@.len(),
            i <= n,
            keys@.len() == i,
            forall|k: int| 0 <= k < i ==> #[trigger] keys@[k]@ == modified_key(files@[k]),
        decreases n - i,
    {
        let key = match &files[i].modified {
            Some(m) => chars_of(m.as_str()),
            None => Vec::new(),
        };
        keys.push(key);
        i = i + 1;
    }
    assert(key_views(keys@) =~= listing_keys(files@));
    let order = stable_order(&keys, desc);
    let mut out: Vec<FileEntry> = Vec::new();
    let mut k: usize = 0;
    while k < n
        invariant
            n == files@.len(),
            order@.len() == n,
            forall|t: int| 0 <= t < n ==> #[trigger] order@[t] < n,
            k <= n,
            out@.len() == k,
            forall|t: int| 0 <= t < k ==> #[trigger] out@[t] == files@[order@[t] as int],
        decreases n - k,
    {
        out.push(files[order[k]].duplicate());
        k = k + 1;
    }
    assert(listed_in_order(files@, order@, out@));
    out
}

} // verus!

verus! {

/// The entries of `files` from position `offset` on, at most `limit` of
/// them.
pub open spec fn page_of(files: Seq<FileEntry>, offset: int, limit: int) -> Seq<FileEntry> {
    if offset >= files.len() {
        Seq::empty()
    } else if offset + limit >= files.len() {
        files.subrange(offset, files.len() as int)
    } else {
        files.subrange(offset, offset + limit)
    }
}

/// Skips `offset` entries of a listing and keeps at most `limit` of the rest.
pub fn paginate(files: &Vec<FileEntry>, offset: usize, limit: usize) -> (page: Vec<FileEntry>)
    ensures
        page@ == page_of(files@, offset as int, limit as int),
{
    let n = files.len();
    let mut page: Vec<FileEntry> = Vec::new();
    if offset >= n {
        return page;
    }
    let end = if limit >= n - offset {
        n
    } else {
        offset + limit
    };
    let mut i = offset;
    while i < end
        invariant
            n == files@.len(),
            offset <= i <= end <= n,
            page@ =~= files@.subrange(offset as int, i as int),
        decreases end - i,
    {
        page.push(files[i].duplicate());
        i = i + 1;
    }
    page
}

/// Whether more entries follow a page: `offset + limit < total`.
pub fn has_more(offset: usize, limit: usize, total: usize) -> (r: bool)
    requires
        offset + limit <= usize::MAX,
    ensures
        r == (offset + limit < total),
{
    offset + limit < total
}

/// The position of the last catalog entry for `path`, if any. (A map built
/// from the catalog keeps the last entry of each path.)
pub open spec fn catalog_slot(catalog: Seq<CatalogEntry>, path: Seq<char>) -> Option<int>
    decreases catalog.len(),
{
    if catalog.len() == 0 {
        None
    } else if catalog.last().path@ == path {
        Some(catalog.len() - 1)
    } else {
        catalog_slot(catalog.drop_last(), path)
    }
}

/// A catalog slot is a position of the catalog.
pub proof fn lemma_catalog_slot_in_range(catalog: Seq<CatalogEntry>, path: Seq<char>)
    ensures
        catalog_slot(catalog, path) matches Some(i) ==> 0 <= i < catalog.len(),
    decreases catalog.len(),
{
    if catalog.len() > 0 {
        lemma_catalog_slot_in_range(catalog.drop_last(), path);
    }
}

/// The catalog entry that a listing entry at `path` is matched with.
pub open spec fn catalog_info(catalog: Seq<CatalogEntry>, path: Seq<char>) -> Option<CatalogEntry> {
    match catalog_slot(catalog, path) {
        Some(i) => Some(catalog[i]),
        None => None,
    }
}

/// Finds the last catalog entry for `path`.
pub fn lookup_catalog(catalog: &Vec<CatalogEntry>, path: &str) -> (r: Option<usize>)
    ensures
        r is Some <==> catalog_slot(catalog@, path@) is Some,
        r matches Some(i) ==> catalog_slot(catalog@, path@) == Some(i as int) && i < catalog@.len(),
{
    proof {
        lemma_catalog_slot_in_range(catalog@, path@);
    }
    let mut i = catalog.len();
    assert(catalog@.take(i as int) =~= catalog@);
    while i > 0
        invariant
            i <= catalog@.len(),
            catalog_slot(catalog@, path@) == catalog_slot(catalog@.take(i as int), path@),
        decreases i,
    {
        let ghost t = catalog@.take(i as int);
        assert(t.last() == catalog@[i - 1]);
        if str_eq(catalog[i - 1].path.as_str(), path) {
            return Some(i - 1);
        }
        assert(t.drop_last() =~= catalog@.take(i - 1));
        i = i - 1;
    }
    None
}

/// The type label of a listing entry: "dir" for directories, otherwise the
/// label of the file's kind.
pub open spec fn entry_type_label(f: FileEntry) -> Seq<char> {
    if f.is_dir {
        "dir"@
    } else {
        kind_label(kind_of_name(f.name@))
    }
}

/// The content id shown for an entry: the catalog's, once its thumbnail is
/// ready.
pub open spec fn shown_cid(info: Option<CatalogEntry>) -> Option<Seq<char>> {
    match info {
        Some(e) => if e.has_thumbnail {
            Some(e.cid@)
        } else {
            None
        },
        None => None,
    }
}

/// Whether an entry needs nothing more: directories, videos and other files
/// never do; images and RAW files once both thumbnail and preview exist.
pub open spec fn is_processed(f: FileEntry, info: Option<CatalogEntry>) -> bool {
    f.is_dir || kind_of_name(f.name@) == FileKind::Other || kind_of_name(f.name@)
        == FileKind::Video || match info {
        Some(e) => e.has_thumbnail && e.has_preview,
        None => false,
    }
}

/// The date shown for an entry: the catalog's capture date when it has one,
/// else the file's modification time.
pub open spec fn shown_modified(f: FileEntry, info: Option<CatalogEntry>) -> Option<Seq<char>> {
    match info {
        Some(e) => match e.modified {
            Some(m) => Some(m@),
            None => opt_view(f.modified),
        },
        None => opt_view(f.modified),
    }
}

/// `e` is the browse entry for listing entry `f`, given its catalog entry.
pub open spec fn entry_for(e: BrowseEntry, f: FileEntry, info: Option<CatalogEntry>) -> bool {
    &&& e.name == f.name
    &&& e.path == f.path
    &&& e.is_dir == f.is_dir
    &&& e.size == f.size
    &&& e.file_type@ == entry_type_label(f)
    &&& opt_view(e.cid) == shown_cid(info)
    &&& e.processed == is_processed(f, info)
    &&& opt_view(e.modified) == shown_modified(f, info)
}

/// The browse entry for a listing entry and its catalog entry.
pub fn browse_entry(f: &FileEntry, info: Option<&CatalogEntry>) -> (e: BrowseEntry)
    ensures
        entry_for(
            e,
            *f,
            match info {
                Some(c) => Some(*c),
                None => None,
            },
        ),
{
    let kind = file_kind(f.name.as_str());
    let file_type = if f.is_dir {
        "dir"
    } else {
        kind.as_str()
    };
    let cid = match info {
        Some(c) => if c.has_thumbnail {
            Some(c.cid.clone())
        } else {
            None
        },
        None => None,
    };
    let processed = f.is_dir || kind == FileKind::Other || kind == FileKind::Video || match info {
        Some(c) => c.has_thumbnail && c.has_preview,
        None => false,
    };
    let modified = match info {
        Some(c) => match &c.modified {
            Some(m) => Some(m.clone()),
            None => match &f.modified {
                Some(m) => Some(m.clone()),
                None => None,
            },
        },
        None => match &f.modified {
            Some(m) => Some(m.clone()),
            None => None,
        },
    };
    BrowseEntry {
        name: f.name.clone(),
        path: f.path.clone(),
        is_dir: f.is_dir,
        size: f.size,
        modified,
        file_type,
        cid,
        processed,
    }
}

/// The browse entries of a page, each joined with its catalog entry.
pub fn browse_entries(page: &Vec<FileEntry>, catalog: &Vec<CatalogEntry>) -> (entries: Vec<
    BrowseEntry,
>)
    ensures
        entries@.len() == page@.len(),
        forall|k: int|
            0 <= k < page@.len() ==> entry_for(
                #[trigger] entries@[k],
                page@[k],
                catalog_info(catalog@, page@[k].path@),
            ),
{
    let n = page.len();
    let mut entries: Vec<BrowseEntry> = Vec::new();
    let mut k: usize = 0;
    while k < n
        invariant
            n == page@.len(),
            k <= n,
            entries@.len() == k,
            forall|t: int|
                0 <= t < k ==> entry_for(
                    #[trigger] entries@[t],
                    page@[t],
                    catalog_info(catalog@, page@[t].path@),
                ),
        decreases n - k,
    {
        let f = &page[k];
        let slot = lookup_catalog(catalog, f.path.as_str());
        proof {
            lemma_catalog_slot_in_range(catalog@, f.path@);
        }
        let e = match slot {
            Some(i) => {
                let c = &catalog[i];
                assert(catalog_info(catalog@, page@[k as int].path@) == Some(*c));
                browse_entry(f, Some(c))
            },
            None => {
                assert(catalog_info(catalog@, page@[k as int].path@) is None);
                browse_entry(f, None)
            },
        };
        assert(entry_for(e, page@[k as int], catalog_info(catalog@, page@[k as int].path@)));
        let ghost before = entries@;
        entries.push(e);
        assert(forall|t: int| 0 <= t < k ==> entries@[t] == before[t]);
        k = k + 1;
    }
    entries
}

/// A page of the listing of `total` entries, starting at `offset`.
pub fn browse_response(entries: Vec<BrowseEntry>, total: usize, offset: usize, limit: usize) -> (r:
    BrowseResponse)
    requires
        offset + limit <= usize::MAX,
    ensures
        r.entries == entries,
        r.total == total,
        r.offset == offset,
        r.has_more == (offset + limit < total),
{
    BrowseResponse { entries, total, offset, has_more: has_more(offset, limit, total) }
}

} // verus!

verus! {

/// Whether a listing entry is a picture that the catalog indexes: a file
/// (not a directory) whose kind is image or RAW.
pub open spec fn is_indexable(f: FileEntry) -> bool {
    !f.is_dir && (kind_of_name(f.name@) == FileKind::Image || kind_of_name(f.name@) == FileKind::Raw)
}

/// The paths of the indexable entries of a page, in order.
pub open spec fn indexable_paths_of(page: Seq<FileEntry>) -> Seq<Seq<char>>
    decreases page.len(),
{
    if page.len() == 0 {
        Seq::empty()
    } else if is_indexable(page.last()) {
        indexable_paths_of(page.drop_last()).push(page.last().path@)
    } else {
        indexable_paths_of(page.drop_last())
    }
}

/// The views of a vector of strings.
pub open spec fn string_views(v: Seq<String>) -> Seq<Seq<char>> {
    v.map_values(|s: String| s@)
}

/// The paths of the pictures of a page: the files that the catalog is
/// consulted for. When there are none, the catalog is not consulted.
pub fn indexable_paths(page: &Vec<FileEntry>) -> (paths: Vec<String>)
    ensures
        string_views(paths@) == indexable_paths_of(page@),
{
    let n = page.len();
    let mut paths: Vec<String> = Vec::new();
    let mut i: usize = 0;
    while i < n
        invariant
            n == page@.len(),
            i <= n,
            string_views(paths@) == indexable_paths_of(page@.take(i as int)),
        decreases n - i,
    {
        let f = &page[i];
        let ghost t = page@.take(i + 1);
        assert(t.drop_last() =~= page@.take(i as int));
        assert(t.last() == page@[i as int]);
        let kind = file_kind(f.name.as_str());
        if !f.is_dir && (kind == FileKind::Image || kind == FileKind::Raw) {
            paths.push(f.path.clone());
            assert(string_views(paths@) =~= indexable_paths_of(page@.take(i as int)).push(
                f.path@,
            ));
        }
        i = i + 1;
    }
    assert(page@.take(n as int) =~= page@);
    paths
}

/// Whether the catalog lacks a ready thumbnail for `path`: it has no entry
/// for it, or its entry has no thumbnail yet.
pub open spec fn lacks_thumbnail(catalog: Seq<CatalogEntry>, path: Seq<char>) -> bool {
    shown_cid(catalog_info(catalog, path)) is None
}

/// The paths among `paths` that still need a thumbnail, in order.
pub open spec fn thumbnail_backlog(catalog: Seq<CatalogEntry>, paths: Seq<Seq<char>>) -> Seq<
    Seq<char>,
>
    decreases paths.len(),
{
    if paths.len() == 0 {
        Seq::empty()
    } else if lacks_thumbnail(catalog, paths.last()) {
        thumbnail_backlog(catalog, paths.drop_last()).push(paths.last())
    } else {
        thumbnail_backlog(catalog, paths.drop_last())
    }
}

/// The pictures that the media mesh should index in the background: those
/// that the catalog has no ready thumbnail for.
pub fn needs_thumbnail(paths: &Vec<String>, catalog: &Vec<CatalogEntry>) -> (r: Vec<String>)
    ensures
        string_views(r@) == thumbnail_backlog(catalog@, string_views(paths@)),
{
    let ghost ps = string_views(paths@);
    let n = paths.len();
    let mut r: Vec<String> = Vec::new();
    let mut i: usize = 0;
    while i < n
        invariant
            n == paths@.len(),
            ps == string_views(paths@),
            i <= n,
            string_views(r@) == thumbnail_backlog(catalog@, ps.take(i as int)),
        decreases n - i,
    {
        let ghost t = ps.take(i + 1);
        assert(t.drop_last() =~= ps.take(i as int));
        assert(t.last() == paths@[i as int]@);
        let slot = lookup_catalog(catalog, paths[i].as_str());
        let lacks = match slot {
            Some(k) => !catalog[k].has_thumbnail,
            None => true,
        };
        if lacks {
            r.push(paths[i].clone());
            assert(string_views(r@) =~= thumbnail_backlog(catalog@, ps.take(i as int)).push(
                paths@[i as int]@,
            ));
        }
        i = i + 1;
    }
    assert(ps.take(n as int) =~= ps);
    r
}

/// What showing a page asks of the media mesh first.
pub enum PageLookup {
    /// The page holds no pictures: it is shown without the catalog, and
    /// nothing is indexed.
    NoPictures,
    /// The directory's catalog is needed for these pictures of the page.
    FetchCatalog(Vec<String>),
}

/// Decides whether showing a page needs the directory's catalog: only when
/// the page holds pictures, whose paths are then looked up.
pub fn plan_page_lookup(page: &Vec<FileEntry>) -> (r: PageLookup)
    ensures
        match r {
            PageLookup::NoPictures => indexable_paths_of(page@).len() == 0,
            PageLookup::FetchCatalog(paths) => string_views(paths@) == indexable_paths_of(page@)
                && indexable_paths_of(page@).len() > 0,
        },
{
    let paths = indexable_paths(page);
    if paths.len() == 0 {
        PageLookup::NoPictures
    } else {
        PageLookup::FetchCatalog(paths)
    }
}

/// Decides, once the catalog is at hand, which pictures of a page the media
/// mesh is asked to index in the background: `None` when every one has a
/// ready thumbnail (no request is made), else those that lack one, in order.
pub fn plan_indexing(paths: &Vec<String>, catalog: &Vec<CatalogEntry>) -> (r: Option<Vec<String>>)
    ensures
        match r {
            Some(v) => string_views(v@) == thumbnail_backlog(catalog@, string_views(paths@))
                && v@.len() > 0,
            None => thumbnail_backlog(catalog@, string_views(paths@)).len() == 0,
        },
{
    let backlog = needs_thumbnail(paths, catalog);
    if backlog.len() == 0 {
        None
    } else {
        Some(backlog)
    }
}

/// The month keys of a listing.
pub open spec fn listing_month_keys(files: Seq<FileEntry>) -> Seq<Seq<char>> {
    files.map_values(|f: FileEntry| month_key_of(opt_view(f.modified)))
}

/// Indexes a listing by month: the runs of consecutive entries modified in
/// the same month, each with its label, size and starting position.
pub fn month_groups(files: &Vec<FileEntry>) -> (groups: Vec<MonthGroup>)
    requires
        forall|i: int| 0 <= i < files@.len() ==> month_key_ok(opt_view(#[trigger] files@[i].modified)),
    ensures
        groups_of(listing_month_keys(files@), groups@),
{
    let n = files.len();
    let mut keys: Vec<String> = Vec::new();
    let mut i: usize = 0;
    while i < n
        invariant
            n == files@.len(),
            forall|t: int| 0 <= t < files@.len() ==> month_key_ok(opt_view(#[trigger] files@[t].modified)),
            i <= n,
            keys@.len() == i,
            forall|t: int| 0 <= t < i ==> #[trigger] keys@[t]@ == month_key_of(opt_view(files@[t].modified)),
            forall|t: int| 0 <= t < i ==> #[trigger] keys@[t]@.len() > 0,
        decreases n - i,
    {
        let key = match &files[i].modified {
            Some(m) => month_key(Some(m.as_str())),
            None => month_key(None),
        };
        keys.push(key);
        i = i + 1;
    }
    let groups = group_keys(&keys);
    assert(keys@.map_values(|k: String| k@) =~= listing_month_keys(files@));
    groups
}

} // verus!

verus! {

/// Whether the month key of a modification date is defined.
pub fn month_key_defined(modified: Option<&str>) -> (r: bool)
    ensures
        r == month_key_ok(
            match modified {
                Some(s) => Some(s@),
                None => None,
            },
        ),
{
    match modified {
        None => true,
        Some(s) => {
            let bytes = s.as_bytes();
            if bytes.len() >= 7 {
                s.is_char_boundary(7)
            } else {
                true
            }
        },
    }
}

/// Whether every entry of a listing has a defined month key.
pub fn month_keys_defined(files: &Vec<FileEntry>) -> (r: bool)
    ensures
        r == forall|i: int|
            0 <= i < files@.len() ==> month_key_ok(opt_view(#[trigger] files@[i].modified)),
{
    let n = files.len();
    let mut i: usize = 0;
    while i < n
        invariant
            n == files@.len(),
            i <= n,
            forall|t: int| 0 <= t < i ==> month_key_ok(opt_view(#[trigger] files@[t].modified)),
        decreases n - i,
    {
        let ok = match &files[i].modified {
            Some(m) => month_key_defined(Some(m.as_str())),
            None => month_key_defined(None),
        };
        if !ok {
            return false;
        }
        i = i + 1;
    }
    true
}

} // verus!
