use clipboard_history::host::{history_path, millis_to_u64, now_ms};
use clipboard_history::item::{default_kind, files_item, image_item, item_matches, text_item};

#[test]
fn default_kind_is_text() {
    assert_eq!(default_kind(), "text");
}

#[test]
fn image_item_label() {
    let item = image_item("id".into(), 5, 1024, 768, "blobs/id.png".into(), "data:x".into(), "image:9".into());
    assert_eq!(item.text, "[Image 1024×768]");
    assert_eq!(item.kind, "image");
    assert_eq!(item.char_count, 0);
    assert_eq!((item.width, item.height), (Some(1024), Some(768)));
    assert_eq!(item.media_file.as_deref(), Some("blobs/id.png"));
    assert_eq!(item.preview_data_url.as_deref(), Some("data:x"));
}

#[test]
fn text_item_fields() {
    let item = text_item("id".into(), 9, "héllo", "text:1".into());
    assert_eq!(item.char_count, 5);
    assert_eq!(item.created_at, 9);
    assert!(item.paths.is_none() && item.media_file.is_none());
}

#[test]
fn matches_text_kind_and_paths() {
    let t = text_item("a".into(), 0, "Grüße Aus BERLIN", "text:1".into());
    assert!(item_matches(&t, "berlin"));
    assert!(item_matches(&t, "grüße"));
    assert!(item_matches(&t, "tex"));
    assert!(!item_matches(&t, "munich"));
    let f = files_item("b".into(), 0, vec!["/X/Notes.TXT".into()], "files:1".into());
    assert!(item_matches(&f, "notes.txt"));
    assert!(item_matches(&f, "files"));
    assert!(!item_matches(&f, "pdf"));
}

#[test]
fn history_path_joins() {
    assert_eq!(history_path("/data/dir"), "/data/dir/history.json");
    assert_eq!(history_path("/data/dir/"), "/data/dir/history.json");
    assert_eq!(history_path(""), "history.json");
}

#[test]
fn clock_readings() {
    assert_eq!(millis_to_u64(None), 0);
    assert_eq!(millis_to_u64(Some(1234)), 1234);
    assert_eq!(millis_to_u64(Some((1u128 << 64) + 5)), 5);
    assert!(now_ms() > 1_600_000_000_000);
}
