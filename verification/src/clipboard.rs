use vstd::prelude::*;

use crate::store::Capture;
use crate::text::string_views;

verus! {

/// Which clipboard format to read next. File lists come first, then images, then text.
#[derive(Debug)]
pub enum ClipboardRead {
    FileList,
    Image,
    Text,
}

/// What a clipboard read gave.
#[derive(Debug)]
pub enum ReadOutcome {
    /// File paths, each as text.
    Files(Vec<String>),
    /// An RGBA image.
    Image { width: usize, height: usize, rgba: Vec<u8> },
    Text(String),
    /// The format was not there, or reading it failed.
    Nothing,
}

/// What to do after a read.
#[derive(Debug)]
pub enum ReadStep {
    /// Record this capture.
    Take(Capture),
    /// Read this format next.
    Next(ClipboardRead),
    /// The clipboard holds nothing to record.
    NoCapture,
}

/// Decides, after reading the clipboard in one format, whether that gave a
/// capture: a non-empty file list, an image with both edges above zero, or
/// non-empty text; otherwise the next format is read, and after text there is none.
pub fn capture_step(read: ClipboardRead, outcome: ReadOutcome) -> (step: ReadStep)
    ensures
        match (read, outcome) {
            (ClipboardRead::FileList, ReadOutcome::Files(ps)) if ps@.len() > 0 => step matches ReadStep::Take(
                Capture::Files(v),
            ) && string_views(v@) == string_views(ps@),
            (ClipboardRead::FileList, _) => step matches ReadStep::Next(ClipboardRead::Image),
            (ClipboardRead::Image, ReadOutcome::Image { width, height, rgba }) if width > 0
                && height > 0 => step matches ReadStep::Take(Capture::Image { width: w, height: h, rgba: px })
                && w == width as u32 && h == height as u32 && px@ == rgba@,
            (ClipboardRead::Image, _) => step matches ReadStep::Next(ClipboardRead::Text),
            (ClipboardRead::Text, ReadOutcome::Text(t)) if t@.len() > 0 => step matches ReadStep::Take(
                Capture::Text(s),
            ) && s@ == t@,
            (ClipboardRead::Text, _) => step is NoCapture,
        },
{
    match read {
        ClipboardRead::FileList => match outcome {
            ReadOutcome::Files(paths) if paths.len() > 0 => ReadStep::Take(Capture::Files(paths)),
            _ => ReadStep::Next(ClipboardRead::Image),
        },
        ClipboardRead::Image => match outcome {
            ReadOutcome::Image { width, height, rgba } if width > 0 && height > 0 => {
                ReadStep::Take(Capture::Image { width: width as u32, height: height as u32, rgba })
            },
            _ => ReadStep::Next(ClipboardRead::Text),
        },
        ClipboardRead::Text => match outcome {
            ReadOutcome::Text(text) if !text.as_str().is_empty() => ReadStep::Take(
                Capture::Text(text),
            ),
            _ => ReadStep::NoCapture,
        },
    }
}

} // verus!
