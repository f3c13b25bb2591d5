use std::path::PathBuf;

use clipboard_history::failure::{INTERNAL_ERROR, INVALID_PARAMS};
use clipboard_history::item::{files_item, image_item, text_item};
use clipboard_history::request::{
    check_open_path, clipboard_payload, media_blob, open_path_problem, require_id, require_item,
    route, same_text, ClipboardPayload, Command, RequestParams, RouteError,
};
use clipboard_history::store::{Capture, CaptureOutcome, HistoryStore};

fn params(id: Option<&str>, query: Option<&str>, path: Option<&str>) -> RequestParams {
    RequestParams {
        id: id.map(String::from),
        query: query.map(String::from),
        path: path.map(String::from),
    }
}

#[test]
fn routes_known_methods() {
    let p = params(Some("x1"), Some("q"), Some("/tmp"));
    assert!(matches!(route("clipboard/list", &p), Ok(Command::List { query: Some(q) }) if q == "q"));
    assert!(matches!(route("clipboard/copy", &p), Ok(Command::Copy { id }) if id == "x1"));
    assert!(matches!(route("clipboard/delete", &p), Ok(Command::Delete { id }) if id == "x1"));
    assert!(matches!(route("clipboard/clear", &p), Ok(Command::Clear)));
    assert!(matches!(route("clipboard/capture", &p), Ok(Command::Capture)));
    assert!(matches!(route("clipboard/media", &p), Ok(Command::Media { id }) if id == "x1"));
    assert!(matches!(route("clipboard/open-path", &p), Ok(Command::OpenPath { path }) if path == "/tmp"));
    assert!(matches!(route("clipboard/list", &params(None, None, None)), Ok(Command::List { query: None })));
}

#[test]
fn refuses_missing_parameters() {
    let p = params(None, None, None);
    for m in ["clipboard/copy", "clipboard/delete", "clipboard/media"] {
        match route(m, &p) {
            Err(RouteError::Invalid(f)) => {
                assert_eq!(f.code, INVALID_PARAMS);
                assert_eq!(f.message, "Missing id");
            },
            _ => panic!("{m} should refuse"),
        }
    }
    match route("clipboard/open-path", &p) {
        Err(RouteError::Invalid(f)) => assert_eq!((f.code, f.message.as_str()), (INVALID_PARAMS, "Missing path")),
        _ => panic!("should refuse"),
    }
    let e = require_id(&p).unwrap_err();
    assert_eq!(e.message, "Missing id");
    assert_eq!(require_id(&params(Some("k"), None, None)).unwrap(), "k");
}

#[test]
fn refuses_unknown_method() {
    match route("clipboard/paste", &params(None, None, None)) {
        Err(RouteError::MethodNotFound(m)) => assert_eq!(m, "clipboard/paste"),
        _ => panic!("unknown method"),
    }
    assert!(matches!(route("", &params(None, None, None)), Err(RouteError::MethodNotFound(_))));
}

#[test]
fn same_text_compares_characters() {
    assert!(same_text("ab", "ab"));
    assert!(!same_text("ab", "abc"));
    assert!(!same_text("ab", "ac"));
}

#[test]
fn require_item_finds_or_refuses() {
    let mut store = HistoryStore::load(PathBuf::from("/tmp/x.json"), None);
    let id = match store.push_capture(Capture::Text("hi".into())) {
        CaptureOutcome::Stored { item, .. } => item.id,
        _ => panic!(),
    };
    assert_eq!(require_item(&store, &id).unwrap().text, "hi");
    let e = require_item(&store, "nope").unwrap_err();
    assert_eq!((e.code, e.message.as_str()), (INVALID_PARAMS, "Clipboard item not found"));
}

#[test]
fn payload_by_kind() {
    let t = text_item("1".into(), 0, "hello", "text:1".into());
    assert!(matches!(clipboard_payload(&t), Ok(ClipboardPayload::Text(s)) if s == "hello"));
    let f = files_item("2".into(), 0, vec!["/a".into(), "/b".into()], "files:1".into());
    assert!(matches!(clipboard_payload(&f), Ok(ClipboardPayload::Files(v)) if v == vec!["/a", "/b"]));
    let i = image_item("3".into(), 0, 2, 3, "blobs/3.png".into(), "data:".into(), "image:1".into());
    assert!(matches!(clipboard_payload(&i), Ok(ClipboardPayload::ImageBlob(r)) if r == "blobs/3.png"));
    let mut broken = i;
    broken.media_file = None;
    let e = clipboard_payload(&broken).err().unwrap();
    assert_eq!((e.code, e.message.as_str()), (INTERNAL_ERROR, "Image blob missing"));
    let mut no_paths = f;
    no_paths.paths = None;
    let e = clipboard_payload(&no_paths).err().unwrap();
    assert_eq!((e.code, e.message.as_str()), (INTERNAL_ERROR, "File paths missing"));
}

#[test]
fn media_only_for_images() {
    let t = text_item("1".into(), 0, "hello", "text:1".into());
    let e = media_blob(&t).unwrap_err();
    assert_eq!((e.code, e.message.as_str()), (INVALID_PARAMS, "Item is not an image"));
    let i = image_item("3".into(), 0, 2, 3, "blobs/3.png".into(), "data:".into(), "image:1".into());
    assert_eq!(media_blob(&i).unwrap(), "blobs/3.png");
    let mut broken = i;
    broken.media_file = None;
    let e = media_blob(&broken).unwrap_err();
    assert_eq!((e.code, e.message.as_str()), (INTERNAL_ERROR, "Image blob missing"));
}

#[test]
fn open_path_checks() {
    let e = check_open_path("  ", true).unwrap_err();
    assert_eq!((e.code, e.message.as_str()), (INVALID_PARAMS, "Path is empty"));
    let e = check_open_path("rel/path", false).unwrap_err();
    assert_eq!((e.code, e.message.as_str()), (INVALID_PARAMS, "Path must be absolute"));
    assert!(check_open_path("/abs", true).is_ok());
    assert!(open_path_problem("/tmp").is_ok());
    assert_eq!(open_path_problem("relative").unwrap_err().message, "Path must be absolute");
    assert_eq!(open_path_problem("").unwrap_err().message, "Path is empty");
}
