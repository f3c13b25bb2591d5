use std::path::PathBuf;

use clipboard_history::fingerprint::{fingerprint_paths, fingerprint_text};
use clipboard_history::item::{ClipboardItem, MAX_TEXT_CHARS};
use clipboard_history::store::{Capture, CaptureOutcome, HistoryStore, MAX_ITEMS};

fn empty_store() -> HistoryStore {
    HistoryStore::load(PathBuf::from("/tmp/history.json"), None)
}

fn saved_item(id: &str, kind: &str, text: &str, fingerprint: &str) -> ClipboardItem {
    ClipboardItem {
        id: id.to_string(),
        kind: kind.to_string(),
        created_at: 7,
        text: text.to_string(),
        char_count: text.chars().count(),
        width: None,
        height: None,
        media_file: None,
        paths: None,
        preview_data_url: None,
        fingerprint: fingerprint.to_string(),
    }
}

fn stored_item(out: CaptureOutcome) -> (ClipboardItem, Vec<ClipboardItem>) {
    match out {
        CaptureOutcome::Stored { item, evicted } => (item, evicted),
        _ => panic!("capture was not stored"),
    }
}

fn is_uuid_v4(s: &str) -> bool {
    let b: Vec<char> = s.chars().collect();
    b.len() == 36
        && b.iter().enumerate().all(|(i, c)| {
            if [8, 13, 18, 23].contains(&i) { *c == '-' } else { c.is_ascii_hexdigit() && !c.is_ascii_uppercase() }
        })
        && b[14] == '4'
        && "89ab".contains(b[19])
}

#[test]
fn load_normalizes_saved_items() {
    let saved = vec![saved_item("a", "", "hello", ""), saved_item("b", "image", "[Image 1×1]", "image:5")];
    let store = HistoryStore::load(PathBuf::from("/tmp/h.json"), Some(saved));
    assert_eq!(store.len(), 2);
    let items = store.items();
    assert_eq!(items[0].kind, "text");
    assert_eq!(items[0].fingerprint, fingerprint_text("hello"));
    assert_eq!(items[1].kind, "image");
    assert_eq!(items[1].fingerprint, "image:5");
    assert_eq!(store.path(), &PathBuf::from("/tmp/h.json"));
    // the newest item counts as last seen: capturing it again records nothing
    let mut store = store;
    assert!(matches!(store.push_capture(Capture::Text("hello".into())), CaptureOutcome::Ignored));
    assert_eq!(store.len(), 2);
}

#[test]
fn load_without_saved_history_is_empty() {
    let store = empty_store();
    assert_eq!(store.len(), 0);
    assert!(store.list(None).is_empty());
}

#[test]
fn text_capture_is_recorded_first() {
    let mut store = empty_store();
    let (item, evicted) = stored_item(store.push_capture(Capture::Text("first".into())));
    assert!(evicted.is_empty());
    assert_eq!(item.kind, "text");
    assert_eq!(item.text, "first");
    assert_eq!(item.char_count, 5);
    assert_eq!(item.fingerprint, fingerprint_text("first"));
    assert!(is_uuid_v4(&item.id), "{}", item.id);
    assert!(item.created_at > 1_600_000_000_000);
    stored_item(store.push_capture(Capture::Text("second".into())));
    assert_eq!(store.len(), 2);
    assert_eq!(store.items()[0].text, "second");
    assert_eq!(store.items()[1].text, "first");
}

#[test]
fn same_capture_twice_is_recorded_once() {
    let mut store = empty_store();
    stored_item(store.push_capture(Capture::Text("same".into())));
    assert!(matches!(store.push_capture(Capture::Text("same".into())), CaptureOutcome::Ignored));
    assert_eq!(store.len(), 1);
}

#[test]
fn recapture_moves_item_to_front_without_duplicate() {
    let mut store = empty_store();
    stored_item(store.push_capture(Capture::Text("a".into())));
    stored_item(store.push_capture(Capture::Text("b".into())));
    stored_item(store.push_capture(Capture::Text("a".into())));
    let texts: Vec<&str> = store.items().iter().map(|i| i.text.as_str()).collect();
    assert_eq!(texts, vec!["a", "b"]);
}

#[test]
fn long_text_is_truncated() {
    let mut store = empty_store();
    let long: String = std::iter::repeat('é').take(MAX_TEXT_CHARS + 10).collect();
    let (item, _) = stored_item(store.push_capture(Capture::Text(long.clone())));
    assert_eq!(item.char_count, MAX_TEXT_CHARS);
    assert_eq!(item.text.chars().count(), MAX_TEXT_CHARS);
    assert_eq!(item.fingerprint, fingerprint_text(&long));
}

#[test]
fn history_is_capped() {
    let mut store = empty_store();
    for i in 0..MAX_ITEMS {
        let (_, evicted) = stored_item(store.push_capture(Capture::Text(format!("item {i}"))));
        assert!(evicted.is_empty());
    }
    assert_eq!(store.len(), MAX_ITEMS);
    let (_, evicted) = stored_item(store.push_capture(Capture::Text("one more".into())));
    assert_eq!(store.len(), MAX_ITEMS);
    assert_eq!(evicted.len(), 1);
    assert_eq!(evicted[0].text, "item 0");
    assert_eq!(store.items()[0].text, "one more");
}

#[test]
fn oversized_loaded_history_is_cut_on_next_capture() {
    let saved: Vec<ClipboardItem> = (0..MAX_ITEMS + 3)
        .map(|i| saved_item(&format!("id{i}"), "text", &format!("t{i}"), &format!("fp{i}")))
        .collect();
    let mut store = HistoryStore::load(PathBuf::from("/tmp/h.json"), Some(saved));
    let (_, evicted) = stored_item(store.push_capture(Capture::Text("new".into())));
    assert_eq!(store.len(), MAX_ITEMS);
    let gone: Vec<&str> = evicted.iter().map(|i| i.text.as_str()).collect();
    assert_eq!(gone, vec!["t502", "t501", "t500", "t499"]);
}

#[test]
fn files_capture_lists_paths() {
    let mut store = empty_store();
    let paths = vec!["/home/u/b.txt".to_string(), "/home/u/a.txt".to_string()];
    let (item, _) = stored_item(store.push_capture(Capture::Files(paths.clone())));
    assert_eq!(item.kind, "files");
    assert_eq!(item.text, "/home/u/b.txt\n/home/u/a.txt");
    assert_eq!(item.char_count, 2);
    assert_eq!(item.paths, Some(paths.clone()));
    assert_eq!(item.fingerprint, fingerprint_paths(&paths));
    // the same files in another order are the same content
    let reversed = vec![paths[1].clone(), paths[0].clone()];
    assert!(matches!(store.push_capture(Capture::Files(reversed)), CaptureOutcome::Ignored));
}

#[test]
fn empty_file_list_is_ignored() {
    let mut store = empty_store();
    assert!(matches!(store.push_capture(Capture::Files(vec![])), CaptureOutcome::Ignored));
    assert_eq!(store.len(), 0);
}

#[test]
fn image_capture_waits_for_its_blob() {
    let mut store = empty_store();
    let out = store.push_capture(Capture::Image { width: 1, height: 1, rgba: vec![1, 2, 3, 4] });
    match out {
        CaptureOutcome::ImagePending { id, fingerprint, width, height, rgba } => {
            assert!(is_uuid_v4(&id));
            assert!(fingerprint.starts_with("image:"));
            assert_eq!((width, height), (1, 1));
            assert_eq!(rgba, vec![1, 2, 3, 4]);
            assert_eq!(store.len(), 0);
            let mut item = saved_item(&id, "image", "[Image 1×1]", &fingerprint);
            item.media_file = Some(format!("blobs/{id}.png"));
            let evicted = store.store_item(item);
            assert!(evicted.is_empty());
            assert_eq!(store.len(), 1);
            assert!(matches!(
                store.push_capture(Capture::Image { width: 1, height: 1, rgba: vec![1, 2, 3, 4] }),
                CaptureOutcome::Ignored
            ));
        },
        _ => panic!("expected a pending image"),
    }
}

#[test]
fn list_filters_by_trimmed_lowercase_query() {
    let mut store = empty_store();
    stored_item(store.push_capture(Capture::Text("Hello World".into())));
    stored_item(store.push_capture(Capture::Text("other".into())));
    stored_item(store.push_capture(Capture::Files(vec!["/Docs/Report.PDF".into()])));
    assert_eq!(store.list(None).len(), 3);
    assert_eq!(store.list(Some("   ")).len(), 3);
    let found = store.list(Some("  WORLD "));
    assert_eq!(found.len(), 1);
    assert_eq!(found[0].text, "Hello World");
    let found = store.list(Some("report.pdf"));
    assert_eq!(found.len(), 1);
    assert_eq!(found[0].kind, "files");
    // the kind is searched too
    assert_eq!(store.list(Some("TEXT")).len(), 2);
    assert!(store.list(Some("absent")).is_empty());
}

#[test]
fn get_and_delete_by_id() {
    let mut store = empty_store();
    let (a, _) = stored_item(store.push_capture(Capture::Text("a".into())));
    let (b, _) = stored_item(store.push_capture(Capture::Text("b".into())));
    assert_eq!(store.get(&a.id).map(|i| i.text.clone()), Some("a".to_string()));
    assert!(store.get("missing").is_none());
    let removed = store.delete(&a.id).expect("present");
    assert_eq!(removed.text, "a");
    assert_eq!(store.len(), 1);
    assert!(store.get(&a.id).is_none());
    assert!(store.delete(&a.id).is_none());
    assert_eq!(store.items()[0].id, b.id);
}

#[test]
fn clear_returns_everything() {
    let mut store = empty_store();
    stored_item(store.push_capture(Capture::Text("a".into())));
    stored_item(store.push_capture(Capture::Text("b".into())));
    let removed = store.clear();
    assert_eq!(removed.len(), 2);
    assert_eq!(store.len(), 0);
}

#[test]
fn bump_moves_item_to_front_with_new_time() {
    let mut store = empty_store();
    let (a, _) = stored_item(store.push_capture(Capture::Text("a".into())));
    stored_item(store.push_capture(Capture::Text("b".into())));
    assert!(store.bump_to_top_at(&a.id, 42));
    assert_eq!(store.items()[0].id, a.id);
    assert_eq!(store.items()[0].created_at, 42);
    assert_eq!(store.items()[1].text, "b");
    assert!(!store.bump_to_top_at("nope", 1));
    assert_eq!(store.len(), 2);
    assert!(store.bump_to_top(&a.id));
    assert!(store.items()[0].created_at >= a.created_at);
}

#[test]
fn copied_item_is_not_recorded_again() {
    let mut store = empty_store();
    let (a, _) = stored_item(store.push_capture(Capture::Text("a".into())));
    stored_item(store.push_capture(Capture::Text("b".into())));
    assert!(store.note_copied(&a));
    assert_eq!(store.items()[0].id, a.id);
    // the clipboard now holds "a": not recorded
    assert!(matches!(store.push_capture(Capture::Text("a".into())), CaptureOutcome::Ignored));
    // something else comes, then "a" again: suppressed once
    stored_item(store.push_capture(Capture::Text("c".into())));
    assert!(matches!(store.push_capture(Capture::Text("a".into())), CaptureOutcome::Ignored));
    assert_eq!(store.len(), 3);
    // the suppression is used up
    stored_item(store.push_capture(Capture::Text("d".into())));
    stored_item(store.push_capture(Capture::Text("a".into())));
    assert_eq!(store.items()[0].text, "a");
}

#[test]
fn accept_fingerprint_rules() {
    let mut store = empty_store();
    assert!(!store.accept_fingerprint(&String::new()));
    assert!(store.accept_fingerprint(&"text:1".to_string()));
}

#[test]
fn truncated_image_is_not_recorded() {
    let mut store = empty_store();
    stored_item(store.push_capture(Capture::Text("before".into())));
    match store.push_capture(Capture::Image { width: 2, height: 2, rgba: vec![0; 7] }) {
        CaptureOutcome::ImageRefused(f) => assert_eq!(f.message, "Image buffer is truncated"),
        _ => panic!("expected a refusal"),
    }
    assert_eq!(store.len(), 1);
    // the last seen content is still the text
    assert!(matches!(store.push_capture(Capture::Text("before".into())), CaptureOutcome::Ignored));
}
