use gunita::browse::CatalogEntry;
use gunita::cache::{cache_dir, cid_cache_path, hex_string, join_path, mesh_cache_dir, mesh_cache_path, path_hash};
use gunita::config::{Cli, Command, Config, SalitaConfig, ServerConfig};
use gunita::messages::{
    collection_not_found, device_not_found, item_not_in_memory, memory_not_found,
    memory_not_in_collection,
};
use gunita::models::{default_file_type, playback_entries, MemoryField, MemoryItem, MemoryNote, UpdateMemory};
use gunita::state::{catalog_fetch_limit, CatalogCache};
use sha2::{Digest, Sha256};

#[test]
fn joins_paths_like_std() {
    for (base, comp) in [("/data", "cache"), ("/data/", "cache"), ("", "cache"), ("/data", "/abs"), ("rel", "x/y")] {
        let expected = std::path::Path::new(base).join(comp);
        assert_eq!(join_path(base, comp), expected.to_str().unwrap(), "{base:?} + {comp:?}");
    }
    assert_eq!(cache_dir("/home/u/.gunita"), "/home/u/.gunita/cache");
}

#[test]
fn hashes_paths() {
    let digest = Sha256::digest(b"DCIM/Camera/IMG_1.jpg");
    let expected: String = digest[..12].iter().map(|b| format!("{b:02x}")).collect();
    let h = path_hash("DCIM", "Camera/IMG_1.jpg");
    assert_eq!(h, expected);
    assert_eq!(h.len(), 24);
    assert_ne!(path_hash("DCIM", "a"), path_hash("DCIM", "b"));
    assert_eq!(hex_string(&[0x00, 0x0f, 0xa5, 0xff]), "000fa5ff");
}

#[test]
fn names_cache_files() {
    let h = path_hash("dir", "p.jpg");
    assert_eq!(mesh_cache_dir("/c", "dev1"), "/c/dev1");
    assert_eq!(mesh_cache_path("/c", "dev1", "dir", "p.jpg", 300, 200), format!("/c/dev1/{h}_300x200.jpg"));
    assert_eq!(cid_cache_path("/c", "bafy", 1600, 1600), "/c/cid/bafy/1600x1600.jpg");
}

fn cli(config: Option<&str>, data_dir: Option<&str>, host: Option<&str>, port: Option<u16>) -> Cli {
    Cli {
        command: Command::Serve { host: host.map(|h| h.to_string()), port },
        config: config.map(|c| c.to_string()),
        data_dir: data_dir.map(|d| d.to_string()),
    }
}

#[test]
fn config_defaults() {
    let c = Config::default();
    assert_eq!(c.server.host, "0.0.0.0");
    assert_eq!(c.server.port, 7777);
    assert_eq!(c.salita.url, "http://localhost:6969");
    assert_eq!(ServerConfig::default().port, 7777);
    assert_eq!(SalitaConfig::default().url, "http://localhost:6969");
}

#[test]
fn config_locations() {
    let c = cli(None, None, None, None);
    assert_eq!(Config::data_dir(&c, Some("/home/ana")), "/home/ana/.gunita");
    assert_eq!(Config::db_path(&c, Some("/home/ana")), "/home/ana/.gunita/gunita.db");
    assert_eq!(Config::config_path(&c, Some("/home/ana")), "/home/ana/.gunita/config.toml");
    let c = cli(Some("/etc/gunita.toml"), Some("/srv/g"), None, None);
    assert_eq!(Config::data_dir(&c, None), "/srv/g");
    assert_eq!(Config::db_path(&c, None), "/srv/g/gunita.db");
    assert_eq!(Config::config_path(&c, None), "/etc/gunita.toml");
}

#[test]
fn config_overrides() {
    let c = Config::default().with_overrides(&cli(None, None, Some("127.0.0.1"), Some(8080)), Some("http://mesh:1".to_string()));
    assert_eq!(c.server.host, "127.0.0.1");
    assert_eq!(c.server.port, 8080);
    assert_eq!(c.salita.url, "http://mesh:1");
    let c = Config::default().with_overrides(&cli(None, None, None, None), None);
    assert_eq!(c.server.host, "0.0.0.0");
    assert_eq!(c.server.port, 7777);
    assert_eq!(c.salita.url, "http://localhost:6969");
}

fn item(id: &str, sort_order: i32) -> MemoryItem {
    MemoryItem {
        id: id.into(),
        memory_id: "m".into(),
        kind: "media".into(),
        device_id: "d".into(),
        dir: "DCIM".into(),
        path: format!("{id}.jpg"),
        file_type: "image".into(),
        caption: String::new(),
        taken_at: None,
        sort_order,
        created_at: "2024-01-01".into(),
        cid: None,
    }
}

fn note(id: &str, sort_order: i32) -> MemoryNote {
    MemoryNote { id: id.into(), memory_id: "m".into(), content: "hi".into(), sort_order, created_at: "2024-01-01".into() }
}

#[test]
fn merges_playback_by_sort_order() {
    let items = vec![item("i1", 2), item("i2", 0), item("i3", 2)];
    let notes = vec![note("n1", 1), note("n2", 2), note("n3", -1)];
    let steps = playback_entries(&items, &notes);
    let ids: Vec<(String, i32, String)> = steps
        .iter()
        .map(|s| {
            let id = match (&s.item, &s.note) {
                (Some(i), None) => i.id.clone(),
                (None, Some(n)) => n.id.clone(),
                _ => panic!("a step holds one thing"),
            };
            (s.entry_type.clone(), s.sort_order, id)
        })
        .collect();
    let expected: Vec<(String, i32, String)> = vec![
        ("note", -1, "n3"),
        ("media", 0, "i2"),
        ("note", 1, "n1"),
        ("media", 2, "i1"),
        ("media", 2, "i3"),
        ("note", 2, "n2"),
    ]
    .into_iter()
    .map(|(a, b, c)| (a.to_string(), b, c.to_string()))
    .collect();
    assert_eq!(ids, expected);
    assert!(playback_entries(&Vec::new(), &Vec::new()).is_empty());
}

#[test]
fn lists_memory_changes() {
    let u = UpdateMemory {
        title: Some("Beach".into()),
        description: None,
        cover_path: None,
        location: Some("Siargao".into()),
        started_at: None,
        ended_at: Some("2024-05-02".into()),
    };
    let changes: Vec<(&str, String)> = u.changes().into_iter().map(|(f, v)| (f.column(), v)).collect();
    assert_eq!(
        changes,
        vec![("title", "Beach".to_string()), ("location", "Siargao".to_string()), ("ended_at", "2024-05-02".to_string())]
    );
    assert_eq!(MemoryField::StartedAt.column(), "started_at");
    assert_eq!(default_file_type(), "image");
}

#[test]
fn not_found_messages() {
    assert_eq!(memory_not_found("m1"), "Memory not found: m1");
    assert_eq!(collection_not_found("c1"), "Collection not found: c1");
    assert_eq!(device_not_found("nas"), "Device not found: nas");
    assert_eq!(item_not_in_memory("i1", "m1"), "Item i1 not found in memory m1");
    assert_eq!(memory_not_in_collection("m1", "c1"), "Memory m1 not in collection c1");
}

fn entry(path: &str) -> CatalogEntry {
    CatalogEntry { path: path.into(), cid: "c".into(), modified: None, has_thumbnail: true, has_preview: false }
}

#[test]
fn caches_catalogs_for_a_minute() {
    let mut cache = CatalogCache::new();
    assert!(cache.get_fresh("DCIM", 0).is_none());
    cache.insert("DCIM".into(), vec![entry("a"), entry("b")], 1_000);
    let got = cache.get_fresh("DCIM", 60_999).expect("fresh");
    assert_eq!(got.iter().map(|e| e.path.clone()).collect::<Vec<_>>(), vec!["a", "b"]);
    assert!(cache.get_fresh("DCIM", 61_000).is_none());
    // A clock that went back counts as no time elapsed.
    assert!(cache.get_fresh("DCIM", 0).is_some());
    assert!(cache.get_fresh("Other", 1_000).is_none());
    cache.insert("DCIM".into(), vec![entry("c")], 70_000);
    assert_eq!(cache.get_fresh("DCIM", 70_000).unwrap().len(), 1);
    cache.insert("Other".into(), vec![], 70_000);
    cache.remove("DCIM");
    assert!(cache.get_fresh("DCIM", 70_000).is_none());
    assert!(cache.get_fresh("Other", 70_000).is_some());
}

#[test]
fn records_catalog_fetches() {
    let mut cache = CatalogCache::new();
    assert_eq!(catalog_fetch_limit(), 50_000);
    let got = cache.record_fetch("DCIM", None, 5);
    assert!(got.is_empty());
    assert!(cache.get_fresh("DCIM", 5).is_none());
    let got = cache.record_fetch("DCIM", Some(vec![entry("a")]), 10);
    assert_eq!(got.len(), 1);
    assert_eq!(got[0].path, "a");
    assert_eq!(cache.get_fresh("DCIM", 59_000).unwrap()[0].path, "a");
    assert!(cache.get_fresh("DCIM", 60_010).is_none());
    // A later failed fetch leaves the cached catalog alone.
    assert!(cache.record_fetch("DCIM", None, 20).is_empty());
    assert!(cache.get_fresh("DCIM", 30).is_some());
}
