use vstd::prelude::*;

use crate::text::{
    chars_of, contains, contains_chars, decimal, join_strings, join_with, lowercase, push_decimal,
    string_views, to_lowercase, truncate_chars, truncated,
};

verus! {

broadcast use vstd::string::group_string_axioms;

/// The most characters that a text item keeps.
pub const MAX_TEXT_CHARS: usize = 100_000;

/// One entry of the clipboard history.
#[derive(Debug)]
pub struct ClipboardItem {
    pub id: String,
    /// `text`, `image` or `files`.
    pub kind: String,
    /// Milliseconds since the Unix epoch.
    pub created_at: u64,
    /// Searchable summary. For text items this is the full (truncated) content.
    pub text: String,
    pub char_count: usize,
    pub width: Option<u32>,
    pub height: Option<u32>,
    /// Relative path under the data directory, e.g. `blobs/<id>.png`.
    pub media_file: Option<String>,
    pub paths: Option<Vec<String>>,
    pub preview_data_url: Option<String>,
    pub fingerprint: String,
}

/// What a `ClipboardItem` holds, as mathematical values.
pub struct ItemView {
    pub id: Seq<char>,
    pub kind: Seq<char>,
    pub created_at: u64,
    pub text: Seq<char>,
    pub char_count: usize,
    pub width: Option<u32>,
    pub height: Option<u32>,
    pub media_file: Option<Seq<char>>,
    pub paths: Option<Seq<Seq<char>>>,
    pub preview_data_url: Option<Seq<char>>,
    pub fingerprint: Seq<char>,
}

/// The view of an optional string.
pub open spec fn opt_view(s: Option<String>) -> Option<Seq<char>> {
    match s {
        Some(v) => Some(v@),
        None => None,
    }
}

impl View for ClipboardItem {
    type V = ItemView;

    open spec fn view(&self) -> ItemView {
        ItemView {
            id: self.id@,
            kind: self.kind@,
            created_at: self.created_at,
            text: self.text@,
            char_count: self.char_count,
            width: self.width,
            height: self.height,
            media_file: opt_view(self.media_file),
            paths: match self.paths {
                Some(ps) => Some(string_views(ps@)),
                None => None,
            },
            preview_data_url: opt_view(self.preview_data_url),
            fingerprint: self.fingerprint@,
        }
    }
}

/// The views of a list of items.
pub open spec fn item_views(items: Seq<ClipboardItem>) -> Seq<ItemView> {
    items.map_values(|i: ClipboardItem| i@)
}

/// The kind `text`.
pub open spec fn kind_text() -> Seq<char> {
    seq!['t', 'e', 'x', 't']
}

/// The kind `image`.
pub open spec fn kind_image() -> Seq<char> {
    seq!['i', 'm', 'a', 'g', 'e']
}

/// The kind `files`.
pub open spec fn kind_files() -> Seq<char> {
    seq!['f', 'i', 'l', 'e', 's']
}

/// The kind that a saved item without one is given.
pub fn default_kind() -> (kind: String)
    ensures
        kind@ == kind_text(),
{
    let s = String::from_str("text");
    proof {
        reveal_strlit("text");
        assert(s@ =~= kind_text());
    }
    s
}

fn image_kind() -> (kind: String)
    ensures
        kind@ == kind_image(),
{
    let s = String::from_str("image");
    proof {
        reveal_strlit("image");
        assert(s@ =~= kind_image());
    }
    s
}

fn files_kind() -> (kind: String)
    ensures
        kind@ == kind_files(),
{
    let s = String::from_str("files");
    proof {
        reveal_strlit("files");
        assert(s@ =~= kind_files());
    }
    s
}

fn copy_string(s: &String) -> (r: String)
    ensures
        r@ == s@,
{
    s.clone()
}

fn copy_opt_string(s: &Option<String>) -> (r: Option<String>)
    ensures
        opt_view(r) == opt_view(*s),
{
    match s {
        Some(v) => Some(copy_string(v)),
        None => None,
    }
}

/// A copy of a list of strings.
pub fn copy_strings(v: &Vec<String>) -> (r: Vec<String>)
    ensures
        string_views(r@) == string_views(v@),
{
    let mut out: Vec<String> = Vec::new();
    let mut i: usize = 0;
    while i < v.len()
        invariant
            i <= v@.len(),
            string_views(out@) == string_views(v@).take(i as int),
        decreases v@.len() - i,
    {
        let ghost before = string_views(out@);
        out.push(copy_string(&v[i]));
        proof {
            assert(string_views(out@) =~= before.push(v@[i as int]@));
            assert(string_views(v@).take(i + 1) =~= string_views(v@).take(i as int).push(
                v@[i as int]@,
            ));
        }
        i = i + 1;
    }
    proof {
        assert(string_views(v@).take(i as int) =~= string_views(v@));
    }
    out
}

impl ClipboardItem {
    /// A copy of the item, field by field.
    pub fn duplicate(&self) -> (r: ClipboardItem)
        ensures
            r@ == self@,
    {
        ClipboardItem {
            id: copy_string(&self.id),
            kind: copy_string(&self.kind),
            created_at: self.created_at,
            text: copy_string(&self.text),
            char_count: self.char_count,
            width: self.width,
            height: self.height,
            media_file: copy_opt_string(&self.media_file),
            paths: match &self.paths {
                Some(ps) => Some(copy_strings(ps)),
                None => None,
            },
            preview_data_url: copy_opt_string(&self.preview_data_url),
            fingerprint: copy_string(&self.fingerprint),
        }
    }
}

/// Copies of a list of items.
pub fn duplicate_items(items: &[ClipboardItem]) -> (r: Vec<ClipboardItem>)
    ensures
        item_views(r@) == item_views(items@),
{
    let mut out: Vec<ClipboardItem> = Vec::new();
    let mut i: usize = 0;
    while i < items.len()
        invariant
            i <= items@.len(),
            item_views(out@) == item_views(items@).take(i as int),
        decreases items@.len() - i,
    {
        let ghost before = item_views(out@);
        out.push(items[i].duplicate());
        proof {
            assert(item_views(out@) =~= before.push(items@[i as int]@));
            assert(item_views(items@).take(i + 1) =~= item_views(items@).take(i as int).push(
                items@[i as int]@,
            ));
        }
        i = i + 1;
    }
    proof {
        assert(item_views(items@).take(i as int) =~= item_views(items@));
    }
    out
}

/// Whether an item turns up in a search for `needle` (already in lower case):
/// its text, its kind or one of its paths holds it, each taken in lower case.
pub open spec fn matches_needle(item: ItemView, needle: Seq<char>) -> bool {
    ||| contains(lowercase(item.text), needle)
    ||| contains(lowercase(item.kind), needle)
    ||| (item.paths matches Some(ps) && exists|i: int|
        0 <= i < ps.len() && #[trigger] contains(lowercase(ps[i]), needle))
}

fn lowercase_contains(s: &String, needle: &[char]) -> (b: bool)
    ensures
        b == contains(lowercase(s@), needle@),
{
    let lower = to_lowercase(s.as_str());
    let cs = chars_of(lower.as_str());
    contains_chars(cs.as_slice(), needle)
}

/// Whether `item` turns up in a search for `needle` (already in lower case).
pub fn item_matches(item: &ClipboardItem, needle: &str) -> (b: bool)
    ensures
        b == matches_needle(item@, needle@),
{
    let ns = chars_of(needle);
    if lowercase_contains(&item.text, ns.as_slice()) || lowercase_contains(
        &item.kind,
        ns.as_slice(),
    ) {
        return true;
    }
    match &item.paths {
        Some(paths) => {
            let ghost ps = string_views(paths@);
            let mut i: usize = 0;
            while i < paths.len()
                invariant
                    i <= paths@.len(),
                    ps == string_views(paths@),
                    item@.paths == Some(ps),
                    ns@ == needle@,
                    forall|k: int| 0 <= k < i ==> !contains(lowercase(#[trigger] ps[k]), needle@),
                decreases paths@.len() - i,
            {
                if lowercase_contains(&paths[i], ns.as_slice()) {
                    assert(contains(lowercase(ps[i as int]), needle@));
                    assert(item@.paths == Some(ps));
                    assert(item@.paths->0[i as int] == ps[i as int]);
                    return true;
                }
                i = i + 1;
            }
            false
        },
        None => false,
    }
}

/// The text item that a text capture becomes.
pub open spec fn text_item_view(
    id: Seq<char>,
    created_at: u64,
    text: Seq<char>,
    fingerprint: Seq<char>,
) -> ItemView {
    let kept = truncated(text, MAX_TEXT_CHARS as nat);
    ItemView {
        id,
        kind: kind_text(),
        created_at,
        text: kept,
        char_count: kept.len() as usize,
        width: None,
        height: None,
        media_file: None,
        paths: None,
        preview_data_url: None,
        fingerprint,
    }
}

/// The item for a text capture: the text cut to `MAX_TEXT_CHARS` characters.
pub fn text_item(id: String, created_at: u64, text: &str, fingerprint: String) -> (item:
    ClipboardItem)
    ensures
        item@ == text_item_view(id@, created_at, text@, fingerprint@),
{
    let kept = truncate_chars(text, MAX_TEXT_CHARS);
    let count = chars_of(kept.as_str()).len();
    ClipboardItem {
        id,
        kind: default_kind(),
        created_at,
        text: kept,
        char_count: count,
        width: None,
        height: None,
        media_file: None,
        paths: None,
        preview_data_url: None,
        fingerprint,
    }
}

/// The file-list item that a capture of paths becomes.
pub open spec fn files_item_view(
    id: Seq<char>,
    created_at: u64,
    paths: Seq<Seq<char>>,
    fingerprint: Seq<char>,
) -> ItemView {
    ItemView {
        id,
        kind: kind_files(),
        created_at,
        text: join_with(paths, '\n'),
        char_count: paths.len() as usize,
        width: None,
        height: None,
        media_file: None,
        paths: Some(paths),
        preview_data_url: None,
        fingerprint,
    }
}

/// The item for a file-list capture: its text is the paths, one per line.
pub fn files_item(id: String, created_at: u64, paths: Vec<String>, fingerprint: String) -> (item:
    ClipboardItem)
    ensures
        item@ == files_item_view(id@, created_at, string_views(paths@), fingerprint@),
{
    let label = join_strings(paths.as_slice(), '\n');
    let count = paths.len();
    ClipboardItem {
        id,
        kind: files_kind(),
        created_at,
        text: label,
        char_count: count,
        width: None,
        height: None,
        media_file: None,
        paths: Some(paths),
        preview_data_url: None,
        fingerprint,
    }
}

/// The label of an image item: `[Image {width}×{height}]`.
pub open spec fn image_label(width: u32, height: u32) -> Seq<char> {
    seq!['[', 'I', 'm', 'a', 'g', 'e', ' '] + decimal(width as nat) + seq!['\u{d7}'] + decimal(
        height as nat,
    ) + seq![']']
}

/// The image item for a stored image blob.
pub open spec fn image_item_view(
    id: Seq<char>,
    created_at: u64,
    width: u32,
    height: u32,
    media_file: Seq<char>,
    preview_data_url: Seq<char>,
    fingerprint: Seq<char>,
) -> ItemView {
    ItemView {
        id,
        kind: kind_image(),
        created_at,
        text: image_label(width, height),
        char_count: 0,
        width: Some(width),
        height: Some(height),
        media_file: Some(media_file),
        paths: None,
        preview_data_url: Some(preview_data_url),
        fingerprint,
    }
}

/// The item for an image capture whose blob is stored at `media_file`.
pub fn image_item(
    id: String,
    created_at: u64,
    width: u32,
    height: u32,
    media_file: String,
    preview_data_url: String,
    fingerprint: String,
) -> (item: ClipboardItem)
    ensures
        item@ == image_item_view(
            id@,
            created_at,
            width,
            height,
            media_file@,
            preview_data_url@,
            fingerprint@,
        ),
{
    let mut label = String::from_str("[Image ");
    proof {
        reveal_strlit("[Image ");
    }
    push_decimal(&mut label, width as u64);
    label.append("\u{d7}");
    proof {
        reveal_strlit("\u{d7}");
    }
    push_decimal(&mut label, height as u64);
    label.append("]");
    proof {
        reveal_strlit("]");
        assert(label@ =~= image_label(width, height));
    }
    ClipboardItem {
        id,
        kind: image_kind(),
        created_at,
        text: label,
        char_count: 0,
        width: Some(width),
        height: Some(height),
        media_file: Some(media_file),
        paths: None,
        preview_data_url: Some(preview_data_url),
        fingerprint,
    }
}

} // verus!
