use clipboard_history::clipboard::{capture_step, ClipboardRead, ReadOutcome, ReadStep};
use clipboard_history::store::Capture;

#[test]
fn file_list_comes_first() {
    match capture_step(ClipboardRead::FileList, ReadOutcome::Files(vec!["/a".into()])) {
        ReadStep::Take(Capture::Files(v)) => assert_eq!(v, vec!["/a".to_string()]),
        other => panic!("{other:?}"),
    }
    assert!(matches!(capture_step(ClipboardRead::FileList, ReadOutcome::Files(vec![])), ReadStep::Next(ClipboardRead::Image)));
    assert!(matches!(capture_step(ClipboardRead::FileList, ReadOutcome::Nothing), ReadStep::Next(ClipboardRead::Image)));
}

#[test]
fn image_needs_both_edges() {
    match capture_step(ClipboardRead::Image, ReadOutcome::Image { width: 2, height: 1, rgba: vec![0; 8] }) {
        ReadStep::Take(Capture::Image { width, height, rgba }) => {
            assert_eq!((width, height), (2, 1));
            assert_eq!(rgba.len(), 8);
        },
        other => panic!("{other:?}"),
    }
    assert!(matches!(
        capture_step(ClipboardRead::Image, ReadOutcome::Image { width: 0, height: 5, rgba: vec![] }),
        ReadStep::Next(ClipboardRead::Text)
    ));
    assert!(matches!(capture_step(ClipboardRead::Image, ReadOutcome::Nothing), ReadStep::Next(ClipboardRead::Text)));
}

#[test]
fn text_comes_last() {
    match capture_step(ClipboardRead::Text, ReadOutcome::Text("hi".into())) {
        ReadStep::Take(Capture::Text(t)) => assert_eq!(t, "hi"),
        other => panic!("{other:?}"),
    }
    assert!(matches!(capture_step(ClipboardRead::Text, ReadOutcome::Text(String::new())), ReadStep::NoCapture));
    assert!(matches!(capture_step(ClipboardRead::Text, ReadOutcome::Nothing), ReadStep::NoCapture));
}
