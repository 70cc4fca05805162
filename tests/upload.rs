use immich_uploader::scan::{is_image_extension, is_image_extension_lowered, scan_listing, EntryKind, ScanEntry, ScanWalk};
use immich_uploader::upload::{
    assets_url, base_url, bulk_check_url, device_asset_id, statistics_url, timestamp_of, timestamp_text, upload_form,
    Timestamp,
};

#[test]
fn trailing_slashes_are_trimmed() {
    assert_eq!(base_url("http://h:2283///"), "http://h:2283");
    assert_eq!(base_url("http://h"), "http://h");
    assert_eq!(base_url(""), "");
    assert_eq!(statistics_url("http://h/"), "http://h/api/server/statistics");
    assert_eq!(bulk_check_url("http://h/"), "http://h/api/assets/bulk-upload-check");
    assert_eq!(assets_url("http://h"), "http://h/api/assets");
}

#[test]
fn device_asset_id_removes_whitespace() {
    assert_eq!(device_asset_id("my photo.jpg", 1234), "myphoto.jpg-1234");
    assert_eq!(device_asset_id("a\tb\nc.png", 0), "abc.png-0");
    assert_eq!(device_asset_id("x.gif", u64::MAX), "x.gif-18446744073709551615");
}

#[test]
fn upload_form_fields() {
    let f = upload_form(
        Some("IMG 1.jpg".to_string()),
        10,
        None,
        "2024-01-02T03:04:05+00:00".to_string(),
    );
    assert_eq!(f.device_asset_id, "IMG1.jpg-10");
    assert_eq!(f.device_id, "ImmichAutoUploader");
    assert_eq!(f.file_created_at, "2024-01-02T03:04:05+00:00");
    assert_eq!(f.file_modified_at, "2024-01-02T03:04:05+00:00");
    assert_eq!(f.is_favorite, "false");
    assert_eq!(f.file_name, "IMG 1.jpg");
    let g = upload_form(None, 3, Some("c".to_string()), "m".to_string());
    assert_eq!(g.file_name, "unknown");
    assert_eq!(g.file_created_at, "c");
    assert_eq!(g.device_asset_id, "unknown-3");
}

#[test]
fn image_extensions() {
    for e in ["jpg", "jpeg", "png", "gif", "heic", "webp", "tiff"] {
        assert!(is_image_extension_lowered(e));
        assert!(is_image_extension(e));
    }
    assert!(is_image_extension("JPG"));
    assert!(is_image_extension("HeIc"));
    assert!(!is_image_extension_lowered("JPG"));
    assert!(!is_image_extension("txt"));
    assert!(!is_image_extension("jpgx"));
    assert!(!is_image_extension(""));
}

fn entry(path: &str, kind: EntryKind, ext: Option<&str>) -> ScanEntry {
    ScanEntry { path: path.to_string(), kind, extension: ext.map(|e| e.to_string()) }
}

#[test]
fn listing_rules() {
    let entries = vec![
        entry("/d/a.JPG", EntryKind::File, Some("JPG")),
        entry("/d/sub", EntryKind::Directory, None),
        entry("/d/notes.txt", EntryKind::File, Some("txt")),
        entry("/d/noext", EntryKind::File, None),
        entry("/d/b.png", EntryKind::File, Some("png")),
        entry("/d/link", EntryKind::Other, None),
    ];
    let flat = scan_listing(&entries, false);
    assert_eq!(flat.files, vec!["/d/a.JPG".to_string(), "/d/b.png".to_string()]);
    assert!(flat.subdirs.is_empty());
    let deep = scan_listing(&entries, true);
    assert_eq!(deep.files, flat.files);
    assert_eq!(deep.subdirs, vec!["/d/sub".to_string()]);
    // the same listing scanned again gives the same answer
    let again = scan_listing(&entries, false);
    assert_eq!(again.files, flat.files);
}

#[test]
fn flat_walk_lists_the_root_only() {
    let mut w = ScanWalk::new("/d".to_string(), false);
    assert_eq!(w.next_directory(), Some("/d".to_string()));
    w.absorb(&vec![
        entry("/d/a.jpg", EntryKind::File, Some("jpg")),
        entry("/d/sub", EntryKind::Directory, None),
    ]);
    assert_eq!(w.next_directory(), None);
    assert_eq!(w.into_files(), vec!["/d/a.jpg".to_string()]);
}

#[test]
fn deep_walk_finds_every_depth_once() {
    let mut w = ScanWalk::new("/d".to_string(), true);
    let mut seen = Vec::new();
    while let Some(dir) = w.next_directory() {
        seen.push(dir.clone());
        let entries = match dir.as_str() {
            "/d" => vec![
                entry("/d/a.jpg", EntryKind::File, Some("jpg")),
                entry("/d/s", EntryKind::Directory, None),
            ],
            "/d/s" => vec![
                entry("/d/s/b.webp", EntryKind::File, Some("webp")),
                entry("/d/s/t", EntryKind::Directory, None),
            ],
            "/d/s/t" => vec![entry("/d/s/t/c.TIFF", EntryKind::File, Some("TIFF"))],
            _ => vec![],
        };
        w.absorb(&entries);
    }
    assert_eq!(seen, vec!["/d".to_string(), "/d/s".to_string(), "/d/s/t".to_string()]);
    assert_eq!(
        w.into_files(),
        vec!["/d/a.jpg".to_string(), "/d/s/b.webp".to_string(), "/d/s/t/c.TIFF".to_string()]
    );
}

#[test]
fn timestamps_around_the_epoch() {
    assert_eq!(timestamp_of(false, 5, 7), Some(Timestamp { secs: 5, nanos: 7 }));
    assert_eq!(timestamp_of(true, 5, 0), Some(Timestamp { secs: -5, nanos: 0 }));
    assert_eq!(timestamp_of(true, 5, 250_000_000), Some(Timestamp { secs: -6, nanos: 750_000_000 }));
    assert_eq!(timestamp_of(false, u64::MAX, 0), None);
}

#[test]
fn rfc3339_text_of_timestamps() {
    assert_eq!(
        timestamp_text(Timestamp { secs: 1431648000, nanos: 0 }).as_deref(),
        Some("2015-05-15T00:00:00+00:00")
    );
    assert_eq!(
        timestamp_text(Timestamp { secs: -1, nanos: 500_000_000 }).as_deref(),
        Some("1969-12-31T23:59:59.500+00:00")
    );
}

#[test]
fn rfc3339_text_at_the_stated_bounds() {
    assert!(timestamp_text(Timestamp { secs: 8_000_000_000_000, nanos: 999_999_999 }).is_some());
    assert!(timestamp_text(Timestamp { secs: -8_000_000_000_000, nanos: 0 }).is_some());
}
