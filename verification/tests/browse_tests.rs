use gunita::browse::{
    browse_entries, browse_response, default_limit, default_offset, default_sort, find_device,
    indexable_paths, month_groups, month_keys_defined, needs_thumbnail, paginate, plan_indexing,
    plan_page_lookup, sort_files, CatalogEntry, DeviceInfo, FileEntry, PageLookup,
};
use gunita::filetype::{classify_file, file_kind, is_raw, FileKind};

fn file(name: &str, modified: Option<&str>) -> FileEntry {
    FileEntry {
        name: name.to_string(),
        path: format!("photos/{name}"),
        is_dir: false,
        size: 10,
        modified: modified.map(|m| m.to_string()),
    }
}

fn dir(name: &str) -> FileEntry {
    FileEntry {
        name: name.to_string(),
        path: format!("photos/{name}"),
        is_dir: true,
        size: 0,
        modified: None,
    }
}

fn names(files: &[FileEntry]) -> Vec<String> {
    files.iter().map(|f| f.name.clone()).collect()
}

#[test]
fn classifies_by_extension() {
    assert_eq!(classify_file("IMG_0001.CR2"), "raw");
    assert_eq!(classify_file("photo.jpeg"), "image");
    assert_eq!(classify_file("Photo.JPG"), "image");
    assert_eq!(classify_file("clip.360"), "video");
    assert_eq!(classify_file("clip.MKV"), "video");
    assert_eq!(classify_file("notes.txt"), "other");
    assert_eq!(classify_file("README"), "other");
    assert_eq!(classify_file("archive.tar.heic"), "image");
    assert_eq!(classify_file("trailing."), "other");
    assert_eq!(file_kind("a.dng"), FileKind::Raw);
}

#[test]
fn extension_without_dot_is_whole_name() {
    // A name without a dot is its own extension.
    assert_eq!(classify_file("raw"), "raw");
    assert_eq!(classify_file("MP4"), "video");
}

#[test]
fn detects_raw_paths() {
    assert!(is_raw("dir/IMG.NEF"));
    assert!(is_raw("x.3fr"));
    assert!(!is_raw("x.jpg"));
    assert!(!is_raw("nef.jpg"));
}

#[test]
fn browse_defaults() {
    assert_eq!(default_sort(), "newest");
    assert_eq!(default_offset(), 0);
    assert_eq!(default_limit(), 100);
}

#[test]
fn finds_device_by_id_or_name() {
    let devices = vec![
        DeviceInfo { id: "d1".into(), name: "laptop".into() },
        DeviceInfo { id: "d2".into(), name: "phone".into() },
        DeviceInfo { id: "phone".into(), name: "tablet".into() },
    ];
    assert_eq!(find_device(&devices, "d2"), Some(1));
    assert_eq!(find_device(&devices, "laptop"), Some(0));
    assert_eq!(find_device(&devices, "phone"), Some(1));
    assert_eq!(find_device(&devices, "tablet"), Some(2));
    assert_eq!(find_device(&devices, "nas"), None);
}

#[test]
fn sorts_newest_first_by_default() {
    let files = vec![
        file("a.jpg", Some("2024-01-05T10:00:00")),
        file("b.jpg", None),
        file("c.jpg", Some("2024-03-01T09:00:00")),
        file("d.jpg", Some("2024-01-05T10:00:00")),
    ];
    let sorted = sort_files(&files, "newest");
    assert_eq!(names(&sorted), vec!["c.jpg", "a.jpg", "d.jpg", "b.jpg"]);
    let sorted = sort_files(&files, "anything");
    assert_eq!(names(&sorted), vec!["c.jpg", "a.jpg", "d.jpg", "b.jpg"]);
}

#[test]
fn sorts_oldest_first_stably() {
    let files = vec![
        file("a.jpg", Some("2024-01-05T10:00:00")),
        file("b.jpg", None),
        file("c.jpg", Some("2024-03-01T09:00:00")),
        file("d.jpg", Some("2024-01-05T10:00:00")),
    ];
    let sorted = sort_files(&files, "oldest");
    assert_eq!(names(&sorted), vec!["b.jpg", "a.jpg", "d.jpg", "c.jpg"]);
}

#[test]
fn sorting_empty_listing() {
    assert!(sort_files(&Vec::new(), "oldest").is_empty());
}

#[test]
fn paginates() {
    let files: Vec<FileEntry> = (0..5).map(|i| file(&format!("{i}.jpg"), None)).collect();
    assert_eq!(names(&paginate(&files, 1, 2)), vec!["1.jpg", "2.jpg"]);
    assert_eq!(names(&paginate(&files, 3, 100)), vec!["3.jpg", "4.jpg"]);
    assert!(paginate(&files, 5, 10).is_empty());
    assert!(paginate(&files, 9, 10).is_empty());
    assert!(paginate(&files, 0, 0).is_empty());
    // Consecutive pages make up the larger page.
    let mut joined = paginate(&files, 0, 2);
    joined.extend(paginate(&files, 2, 2));
    assert_eq!(names(&joined), names(&paginate(&files, 0, 4)));
}

#[test]
fn reports_whether_more_follow() {
    let r = browse_response(Vec::new(), 10, 0, 5);
    assert!(r.has_more);
    let r = browse_response(Vec::new(), 10, 5, 5);
    assert!(!r.has_more);
    assert_eq!(r.total, 10);
    assert_eq!(r.offset, 5);
}

fn catalog_entry(path: &str, cid: &str, modified: Option<&str>, thumb: bool, preview: bool) -> CatalogEntry {
    CatalogEntry {
        path: path.to_string(),
        cid: cid.to_string(),
        modified: modified.map(|m| m.to_string()),
        has_thumbnail: thumb,
        has_preview: preview,
    }
}

#[test]
fn joins_entries_with_catalog() {
    let page = vec![
        dir("album"),
        file("a.jpg", Some("2024-05-01")),
        file("b.cr2", Some("2024-05-02")),
        file("c.mp4", Some("2024-05-03")),
        file("d.txt", None),
        file("e.png", Some("2024-05-04")),
    ];
    let catalog = vec![
        catalog_entry("photos/a.jpg", "cid-old", None, false, false),
        catalog_entry("photos/a.jpg", "cid-a", Some("2023-12-24T18:00:00"), true, true),
        catalog_entry("photos/b.cr2", "cid-b", None, false, true),
    ];
    let entries = browse_entries(&page, &catalog);
    assert_eq!(entries.len(), 6);

    assert_eq!(entries[0].file_type, "dir");
    assert!(entries[0].processed);
    assert_eq!(entries[0].cid, None);

    // The last catalog entry of a path wins, and its capture date is preferred.
    assert_eq!(entries[1].file_type, "image");
    assert_eq!(entries[1].cid.as_deref(), Some("cid-a"));
    assert!(entries[1].processed);
    assert_eq!(entries[1].modified.as_deref(), Some("2023-12-24T18:00:00"));

    // No thumbnail yet: no cid, not processed, file time kept.
    assert_eq!(entries[2].file_type, "raw");
    assert_eq!(entries[2].cid, None);
    assert!(!entries[2].processed);
    assert_eq!(entries[2].modified.as_deref(), Some("2024-05-02"));

    assert_eq!(entries[3].file_type, "video");
    assert!(entries[3].processed);
    assert_eq!(entries[4].file_type, "other");
    assert!(entries[4].processed);

    // Not in the catalog.
    assert_eq!(entries[5].file_type, "image");
    assert!(!entries[5].processed);
    assert_eq!(entries[5].modified.as_deref(), Some("2024-05-04"));
    assert_eq!(entries[5].name, "e.png");
    assert_eq!(entries[5].path, "photos/e.png");
    assert_eq!(entries[5].size, 10);
}

#[test]
fn picks_pictures_to_index() {
    let page = vec![
        dir("album.jpg"),
        file("a.jpg", None),
        file("b.cr2", None),
        file("c.mp4", None),
        file("e.png", None),
    ];
    let paths = indexable_paths(&page);
    assert_eq!(paths, vec!["photos/a.jpg", "photos/b.cr2", "photos/e.png"]);
    let catalog = vec![
        catalog_entry("photos/a.jpg", "cid-a", None, true, true),
        catalog_entry("photos/b.cr2", "cid-b", None, false, false),
    ];
    assert_eq!(needs_thumbnail(&paths, &catalog), vec!["photos/b.cr2", "photos/e.png"]);
    assert!(indexable_paths(&vec![dir("x"), file("v.mov", None)]).is_empty());
}

#[test]
fn groups_listing_by_month() {
    let files = vec![
        file("a", Some("2024-03-15T10:00:00")),
        file("b", Some("2024-03-01")),
        file("c", Some("2024-02-28")),
        file("d", None),
        file("e", Some("2024")),
        file("f", Some("2024-03-02")),
    ];
    assert!(month_keys_defined(&files));
    let groups = month_groups(&files);
    let summary: Vec<(String, String, usize, usize)> = groups
        .iter()
        .map(|g| (g.month.clone(), g.label.clone(), g.count, g.offset))
        .collect();
    assert_eq!(
        summary,
        vec![
            ("2024-03".to_string(), "March 2024".to_string(), 2, 0),
            ("2024-02".to_string(), "February 2024".to_string(), 1, 2),
            ("unknown".to_string(), "Unknown Date".to_string(), 2, 3),
            ("2024-03".to_string(), "March 2024".to_string(), 1, 5),
        ]
    );
    // Counts add up to the listing.
    assert_eq!(groups.iter().map(|g| g.count).sum::<usize>(), files.len());
    assert!(month_groups(&Vec::new()).is_empty());
}

#[test]
fn month_keys_need_a_character_boundary() {
    let files = vec![file("a", Some("2024-0é"))];
    assert!(!month_keys_defined(&files));
    let files = vec![file("a", Some("2024-é"))];
    assert!(month_keys_defined(&files));
}

#[test]
fn kind_ignores_case_and_earlier_extensions() {
    for name in ["IMG_0001.cr2", "photo.jpeg", "clip.mkv", "notes.txt", "x.Tif"] {
        assert_eq!(classify_file(name), classify_file(&name.to_ascii_uppercase()));
    }
    assert_eq!(classify_file("a.b.nef"), classify_file("other.nef"));
    assert_eq!(classify_file(".nef"), "raw");
    assert_eq!(file_kind("DSC.ARW"), FileKind::Raw);
}

#[test]
fn oldest_reverses_newest_for_distinct_dates() {
    let files = vec![
        file("b", Some("2024-02-01")),
        file("u", None),
        file("a", Some("2023-12-31")),
        file("c", Some("2024-03-05")),
    ];
    let mut oldest = names(&sort_files(&files, "oldest"));
    let newest = names(&sort_files(&files, "newest"));
    assert_eq!(oldest, vec!["u", "a", "b", "c"]);
    oldest.reverse();
    assert_eq!(newest, oldest);
    // Undated entries come first under "oldest", last otherwise.
    let files = vec![file("x", None), file("d", Some("2024-01-01")), file("y", None)];
    assert_eq!(names(&sort_files(&files, "oldest")), vec!["x", "y", "d"]);
    assert_eq!(names(&sort_files(&files, "whatever")), vec!["d", "x", "y"]);
}

#[test]
fn plans_page_lookups_and_indexing() {
    match plan_page_lookup(&vec![dir("x"), file("v.mov", None)]) {
        PageLookup::NoPictures => {}
        PageLookup::FetchCatalog(_) => panic!("no pictures on this page"),
    }
    let page = vec![file("a.jpg", None), file("b.nef", None), file("c.txt", None)];
    let paths = match plan_page_lookup(&page) {
        PageLookup::FetchCatalog(p) => p,
        PageLookup::NoPictures => panic!("the page holds pictures"),
    };
    assert_eq!(paths, vec!["photos/a.jpg", "photos/b.nef"]);
    let ready = vec![
        catalog_entry("photos/a.jpg", "ca", None, true, true),
        catalog_entry("photos/b.nef", "cb", None, true, false),
    ];
    assert!(plan_indexing(&paths, &ready).is_none());
    let partial = vec![catalog_entry("photos/a.jpg", "ca", None, true, true)];
    assert_eq!(plan_indexing(&paths, &partial), Some(vec!["photos/b.nef".to_string()]));
}
