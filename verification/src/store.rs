use vstd::prelude::*;

use std::path::PathBuf;

use crate::fingerprint::{
    bytes_fingerprint, fingerprint_bytes, fingerprint_paths, fingerprint_text, paths_fingerprint,
    text_fingerprint,
};
use crate::host::{new_item_id, now_ms, uuid_v4_text};
use crate::item::{
    default_kind, duplicate_items, files_item, files_item_view, item_matches, item_views, kind_text,
    matches_needle, text_item, text_item_view, ClipboardItem, ItemView,
};
use crate::failure::{PluginFailure, INTERNAL_ERROR};
use crate::media::{check_image_buffer, image_buffer_problem};
use crate::text::{lowercase, string_views, to_lowercase, trim, trimmed};

verus! {

broadcast use vstd::string::group_string_axioms;

/// std's `PathBuf`, carried through as an opaque value: nothing inside it is read here.
#[verifier::external_type_specification]
#[verifier::external_body]
pub struct ExPathBuf(std::path::PathBuf);

/// The most items that the history keeps.
pub const MAX_ITEMS: usize = 500;

/// The clipboard history: newest item first.
pub struct HistoryStore {
    items: Vec<ClipboardItem>,
    path: PathBuf,
    last_seen: String,
    suppress_once: Option<String>,
}

/// What a `HistoryStore` holds.
pub struct StoreView {
    /// The items, newest first.
    pub items: Seq<ItemView>,
    /// Where the history is saved.
    pub path: PathBuf,
    /// The fingerprint of the clipboard content seen last.
    pub last_seen: Seq<char>,
    /// A fingerprint whose next capture is not recorded (set when an item is copied back).
    pub suppress_once: Option<Seq<char>>,
}

impl View for HistoryStore {
    type V = StoreView;

    closed spec fn view(&self) -> StoreView {
        StoreView {
            items: item_views(self.items@),
            path: self.path,
            last_seen: self.last_seen@,
            suppress_once: match self.suppress_once {
                Some(s) => Some(s@),
                None => None,
            },
        }
    }
}

/// A saved item as the history takes it in: a missing fingerprint is that of
/// its text, a missing kind is `text`.
pub open spec fn normalized_item(v: ItemView) -> ItemView {
    ItemView {
        fingerprint: if v.fingerprint.len() == 0 {
            text_fingerprint(v.text)
        } else {
            v.fingerprint
        },
        kind: if v.kind.len() == 0 {
            kind_text()
        } else {
            v.kind
        },
        ..v
    }
}

/// The items of a loaded history: the saved ones, normalized, or none.
pub open spec fn loaded_items(saved: Option<Seq<ItemView>>) -> Seq<ItemView> {
    match saved {
        Some(s) => s.map_values(|v: ItemView| normalized_item(v)),
        None => seq![],
    }
}

/// The store as loaded from `path` with the saved items, if any could be read.
pub open spec fn loaded(path: PathBuf, saved: Option<Seq<ItemView>>) -> StoreView {
    let items = loaded_items(saved);
    StoreView {
        items,
        path,
        last_seen: if items.len() > 0 {
            items[0].fingerprint
        } else {
            seq![]
        },
        suppress_once: None,
    }
}

/// The search that a query stands for: none for a missing or blank query, else
/// the trimmed query in lower case.
pub open spec fn search_needle(query: Option<Seq<char>>) -> Option<Seq<char>> {
    match query {
        Some(q) => if trimmed(q).len() == 0 {
            None
        } else {
            Some(lowercase(trimmed(q)))
        },
        None => None,
    }
}

/// The items that match `needle`, in their order.
pub open spec fn matching(items: Seq<ItemView>, needle: Seq<char>) -> Seq<ItemView>
    decreases items.len(),
{
    if items.len() == 0 {
        seq![]
    } else {
        let rest = matching(items.drop_last(), needle);
        if matches_needle(items.last(), needle) {
            rest.push(items.last())
        } else {
            rest
        }
    }
}

/// What a listing with `query` shows of `items`.
pub open spec fn listed(items: Seq<ItemView>, query: Option<Seq<char>>) -> Seq<ItemView> {
    match search_needle(query) {
        None => items,
        Some(needle) => matching(items, needle),
    }
}

/// The view of an optional string slice.
pub open spec fn query_view(query: Option<&str>) -> Option<Seq<char>> {
    match query {
        Some(q) => Some(q@),
        None => None,
    }
}

/// The items without those whose fingerprint is `fp`, in their order.
pub open spec fn without_fingerprint(items: Seq<ItemView>, fp: Seq<char>) -> Seq<ItemView>
    decreases items.len(),
{
    if items.len() == 0 {
        seq![]
    } else {
        let rest = without_fingerprint(items.drop_last(), fp);
        if items.last().fingerprint == fp {
            rest
        } else {
            rest.push(items.last())
        }
    }
}

/// `item` first, then the items that do not share its fingerprint.
pub open spec fn placed_first(items: Seq<ItemView>, item: ItemView) -> Seq<ItemView> {
    seq![item] + without_fingerprint(items, item.fingerprint)
}

/// The first `MAX_ITEMS` items.
pub open spec fn capped(items: Seq<ItemView>) -> Seq<ItemView> {
    if items.len() <= MAX_ITEMS {
        items
    } else {
        items.take(MAX_ITEMS as int)
    }
}

/// The items beyond the first `MAX_ITEMS`, last one first (the order in which they are dropped).
pub open spec fn overflow(items: Seq<ItemView>) -> Seq<ItemView> {
    if items.len() <= MAX_ITEMS {
        seq![]
    } else {
        items.skip(MAX_ITEMS as int).reverse()
    }
}

/// The store after `item` is recorded.
pub open spec fn stored(s: StoreView, item: ItemView) -> StoreView {
    StoreView { items: capped(placed_first(s.items, item)), last_seen: item.fingerprint, ..s }
}

/// Whether a capture with fingerprint `fp` is to be recorded.
pub open spec fn admits(s: StoreView, fp: Seq<char>) -> bool {
    &&& fp.len() > 0
    &&& fp != s.last_seen
    &&& s.suppress_once != Some(fp)
}

/// The store after a capture with fingerprint `fp` is not recorded: where it was
/// the suppressed one, the suppression is used up and `fp` becomes the last seen.
pub open spec fn after_refusal(s: StoreView, fp: Seq<char>) -> StoreView {
    if fp.len() == 0 || fp == s.last_seen {
        s
    } else if s.suppress_once == Some(fp) {
        StoreView { suppress_once: None, last_seen: fp, ..s }
    } else {
        s
    }
}

/// Whether `p` is the first position of an item with id `id`.
pub open spec fn first_with_id(items: Seq<ItemView>, id: Seq<char>, p: int) -> bool {
    &&& 0 <= p < items.len()
    &&& items[p].id == id
    &&& forall|k: int| 0 <= k < p ==> (#[trigger] items[k]).id != id
}

/// Whether some item has id `id`.
pub open spec fn has_id(items: Seq<ItemView>, id: Seq<char>) -> bool {
    exists|k: int| 0 <= k < items.len() && (#[trigger] items[k]).id == id
}

/// The store after the first item with id `id` is moved to the front with the time `now`.
pub open spec fn bumped(s: StoreView, id: Seq<char>, now: u64) -> StoreView {
    if has_id(s.items, id) {
        let p = choose|p: int| first_with_id(s.items, id, p);
        let it = s.items[p];
        StoreView { items: seq![ItemView { created_at: now, ..it }] + s.items.remove(p), ..s }
    } else {
        s
    }
}

/// The store once the item with fingerprint `fp` and id `id` has been copied to
/// the clipboard at time `now`.
pub open spec fn copied(s: StoreView, fp: Seq<char>, id: Seq<char>, now: u64) -> StoreView {
    bumped(StoreView { suppress_once: Some(fp), last_seen: fp, ..s }, id, now)
}

/// What the clipboard held when it was read.
#[derive(Debug)]
pub enum Capture {
    Text(String),
    Image { width: u32, height: u32, rgba: Vec<u8> },
    /// File paths, each as text.
    Files(Vec<String>),
}

/// A capture as mathematical values.
pub enum CaptureView {
    Text(Seq<char>),
    Image { width: u32, height: u32, rgba: Seq<u8> },
    Files(Seq<Seq<char>>),
}

impl View for Capture {
    type V = CaptureView;

    open spec fn view(&self) -> CaptureView {
        match self {
            Capture::Text(t) => CaptureView::Text(t@),
            Capture::Image { width, height, rgba } => CaptureView::Image {
                width: *width,
                height: *height,
                rgba: rgba@,
            },
            Capture::Files(ps) => CaptureView::Files(string_views(ps@)),
        }
    }
}

/// The fingerprint of a capture.
pub open spec fn capture_fingerprint(c: CaptureView) -> Seq<char> {
    match c {
        CaptureView::Text(t) => text_fingerprint(t),
        CaptureView::Image { rgba, .. } => bytes_fingerprint(rgba),
        CaptureView::Files(ps) => paths_fingerprint(ps),
    }
}

/// The fingerprint of a capture.
pub fn fingerprint_of(capture: &Capture) -> (f: String)
    ensures
        f@ == capture_fingerprint(capture@),
{
    match capture {
        Capture::Text(t) => fingerprint_text(t.as_str()),
        Capture::Image { rgba, .. } => fingerprint_bytes(rgba.as_slice()),
        Capture::Files(ps) => fingerprint_paths(ps.as_slice()),
    }
}

/// What became of a capture.
#[derive(Debug)]
pub enum CaptureOutcome {
    /// Nothing was recorded.
    Ignored,
    /// `item` was recorded; `evicted` fell off the end of the history.
    Stored { item: ClipboardItem, evicted: Vec<ClipboardItem> },
    /// An image is to be recorded: its blob must be written first, and the item
    /// built from it then passed to `store_item`.
    ImagePending { id: String, fingerprint: String, width: u32, height: u32, rgba: Vec<u8> },
    /// An image whose buffer does not hold its size; nothing was recorded.
    ImageRefused(PluginFailure),
}

/// A capture outcome as mathematical values.
pub enum OutcomeView {
    Ignored,
    Stored { item: ItemView, evicted: Seq<ItemView> },
    ImagePending {
        id: Seq<char>,
        fingerprint: Seq<char>,
        width: u32,
        height: u32,
        rgba: Seq<u8>,
    },
    ImageRefused { code: i64, message: Seq<char> },
}

impl View for CaptureOutcome {
    type V = OutcomeView;

    open spec fn view(&self) -> OutcomeView {
        match self {
            CaptureOutcome::Ignored => OutcomeView::Ignored,
            CaptureOutcome::Stored { item, evicted } => OutcomeView::Stored {
                item: item@,
                evicted: item_views(evicted@),
            },
            CaptureOutcome::ImagePending { id, fingerprint, width, height, rgba } =>
                OutcomeView::ImagePending {
                id: id@,
                fingerprint: fingerprint@,
                width: *width,
                height: *height,
                rgba: rgba@,
            },
            CaptureOutcome::ImageRefused(f) => OutcomeView::ImageRefused {
                code: f.code,
                message: f.message@,
            },
        }
    }
}

/// The store and the outcome once an admitted capture with fingerprint `fp` is
/// given the id `id` and the time `now`.
pub open spec fn committed(
    s: StoreView,
    c: CaptureView,
    fp: Seq<char>,
    id: Seq<char>,
    now: u64,
) -> (StoreView, OutcomeView) {
    match c {
        CaptureView::Text(t) => {
            let item = text_item_view(id, now, t, fp);
            (
                stored(s, item),
                OutcomeView::Stored { item, evicted: overflow(placed_first(s.items, item)) },
            )
        },
        CaptureView::Files(ps) => if ps.len() == 0 {
            (s, OutcomeView::Ignored)
        } else {
            let item = files_item_view(id, now, ps, fp);
            (
                stored(s, item),
                OutcomeView::Stored { item, evicted: overflow(placed_first(s.items, item)) },
            )
        },
        CaptureView::Image { width, height, rgba } => match image_buffer_problem(
            width,
            height,
            rgba.len(),
        ) {
            Some(message) => (s, OutcomeView::ImageRefused { code: INTERNAL_ERROR, message }),
            None => (s, OutcomeView::ImagePending { id, fingerprint: fp, width, height, rgba }),
        },
    }
}

impl HistoryStore {
    /// The history kept at `path`, with the items saved there if they could be
    /// read: a saved item without a fingerprint gets that of its text, one
    /// without a kind gets `text`, and the newest item counts as last seen.
    pub fn load(path: PathBuf, saved: Option<Vec<ClipboardItem>>) -> (store: Self)
        ensures
            store@ == loaded(
                path,
                match saved {
                    Some(v) => Some(item_views(v@)),
                    None => None,
                },
            ),
            forall|i: int|
                0 <= i < store@.items.len() ==> (#[trigger] store@.items[i]).kind.len() > 0
                    && store@.items[i].fingerprint.len() > 0,
    {
        let ghost saved_view = match &saved {
            Some(v) => Some(item_views(v@)),
            None => None,
        };
        let mut items = match saved {
            Some(v) => v,
            None => Vec::new(),
        };
        let ghost orig = item_views(items@);
        let ghost target = loaded_items(saved_view);
        proof {
            assert(target.len() == orig.len());
        }
        let mut i: usize = 0;
        while i < items.len()
            invariant
                i <= items@.len() == orig.len() == target.len(),
                target == loaded_items(saved_view),
                saved_view is Some ==> orig == saved_view->0,
                saved_view is None ==> orig.len() == 0,
                forall|k: int| 0 <= k < i ==> item_views(items@)[k] == #[trigger] target[k],
                forall|k: int| i <= k < items@.len() ==> item_views(items@)[k] == #[trigger] orig[k],
            decreases items@.len() - i,
        {
            let mut item = items.remove(i);
            let ghost iv = item@;
            if item.fingerprint.as_str().is_empty() {
                item.fingerprint = fingerprint_text(item.text.as_str());
            }
            if item.kind.as_str().is_empty() {
                item.kind = default_kind();
            }
            proof {
                assert(item@ == normalized_item(iv));
                assert(target[i as int] == normalized_item(orig[i as int]));
            }
            items.insert(i, item);
            i = i + 1;
        }
        proof {
            assert(item_views(items@) =~= target);
        }
        let last_seen = if items.len() > 0 {
            items[0].fingerprint.clone()
        } else {
            String::new()
        };
        proof {
            assert forall|k: int| 0 <= k < target.len() implies (#[trigger] target[k]).kind.len() > 0
                && target[k].fingerprint.len() > 0 by {
                let v = saved_view->0[k];
                assert(target[k] == normalized_item(v));
                assert(text_fingerprint(v.text).len() > 0);
            }
        }
        HistoryStore { items, path, last_seen, suppress_once: None }
    }

    /// The items, newest first.
    pub fn items(&self) -> (r: &[ClipboardItem])
        ensures
            item_views(r@) == self@.items,
    {
        self.items.as_slice()
    }

    /// How many items the history holds.
    pub fn len(&self) -> (n: usize)
        ensures
            n == self@.items.len(),
    {
        self.items.len()
    }

    /// Where the history is saved.
    pub fn path(&self) -> (p: &PathBuf)
        ensures
            *p == self@.path,
    {
        &self.path
    }

    /// The items that a search for `query` finds, newest first: all of them
    /// for a missing or blank query, else those whose text, kind or one of whose
    /// paths holds the trimmed query, compared in lower case.
    pub fn list(&self, query: Option<&str>) -> (r: Vec<ClipboardItem>)
        ensures
            item_views(r@) == listed(self@.items, query_view(query)),
    {
        let q = match query {
            Some(q) => q,
            None => {
                return duplicate_items(self.items.as_slice());
            },
        };
        let t = trim(q);
        if t.as_str().is_empty() {
            return duplicate_items(self.items.as_slice());
        }
        let needle = to_lowercase(t.as_str());
        let ghost all = item_views(self.items@);
        let ghost n = needle@;
        let mut out: Vec<ClipboardItem> = Vec::new();
        let mut i: usize = 0;
        proof {
            assert(all.take(0) =~= Seq::<ItemView>::empty());
        }
        while i < self.items.len()
            invariant
                i <= self.items@.len(),
                all == item_views(self.items@),
                n == needle@,
                item_views(out@) == matching(all.take(i as int), n),
            decreases self.items@.len() - i,
        {
            let ghost before = item_views(out@);
            proof {
                assert(all.take(i + 1).drop_last() =~= all.take(i as int));
                assert(all.take(i + 1).last() == all[i as int]);
            }
            if item_matches(&self.items[i], needle.as_str()) {
                out.push(self.items[i].duplicate());
                proof {
                    assert(item_views(out@) =~= before.push(all[i as int]));
                }
            }
            i = i + 1;
        }
        proof {
            assert(all.take(i as int) =~= all);
        }
        out
    }

    /// Decides whether a capture with fingerprint `fingerprint` is recorded. It is
    /// not when the fingerprint is empty or that of the content seen last; nor
    /// when it is the suppressed one, which uses the suppression up.
    pub fn accept_fingerprint(&mut self, fingerprint: &String) -> (ok: bool)
        ensures
            ok == admits(old(self)@, fingerprint@),
            !ok ==> final(self)@ == after_refusal(old(self)@, fingerprint@),
            ok ==> final(self)@ == old(self)@,
    {
        if fingerprint.as_str().is_empty() || *fingerprint == self.last_seen {
            return false;
        }
        let suppressed = match &self.suppress_once {
            Some(s) => *s == *fingerprint,
            None => false,
        };
        if suppressed {
            self.suppress_once = None;
            self.last_seen = fingerprint.clone();
            return false;
        }
        true
    }

    /// Records `item` as the newest: items with the same fingerprint go, and the
    /// history is cut to `MAX_ITEMS`; what falls off the end is returned.
    pub fn store_item(&mut self, item: ClipboardItem) -> (evicted: Vec<ClipboardItem>)
        ensures
            final(self)@ == stored(old(self)@, item@),
            item_views(evicted@) == overflow(placed_first(old(self)@.items, item@)),
    {
        let ghost all = item_views(self.items@);
        let ghost fp = item@.fingerprint;
        let mut kept: Vec<ClipboardItem> = Vec::new();
        let mut i: usize = 0;
        proof {
            assert(all.take(0) =~= Seq::<ItemView>::empty());
        }
        while i < self.items.len()
            invariant
                i <= self.items@.len(),
                all == item_views(self.items@),
                fp == item@.fingerprint,
                item_views(kept@) == without_fingerprint(all.take(i as int), fp),
            decreases self.items@.len() - i,
        {
            let ghost before = item_views(kept@);
            proof {
                assert(all.take(i + 1).drop_last() =~= all.take(i as int));
                assert(all.take(i + 1).last() == all[i as int]);
            }
            if self.items[i].fingerprint != item.fingerprint {
                kept.push(self.items[i].duplicate());
                proof {
                    assert(item_views(kept@) =~= before.push(all[i as int]));
                }
            }
            i = i + 1;
        }
        proof {
            assert(all.take(i as int) =~= all);
        }
        let last_seen = item.fingerprint.clone();
        let ghost iv = item@;
        kept.insert(0, item);
        let ghost full = placed_first(all, iv);
        proof {
            assert(item_views(kept@) =~= full);
        }
        let mut evicted: Vec<ClipboardItem> = Vec::new();
        while kept.len() > MAX_ITEMS
            invariant
                kept@.len() <= full.len(),
                full.len() <= MAX_ITEMS ==> kept@.len() == full.len(),
                full.len() > MAX_ITEMS ==> kept@.len() >= MAX_ITEMS,
                item_views(kept@) == full.take(kept@.len() as int),
                item_views(evicted@) == full.subrange(kept@.len() as int, full.len() as int).reverse(),
            decreases kept@.len(),
        {
            let ghost len = kept@.len();
            let ghost before = item_views(evicted@);
            let ghost kept_before = kept@;
            let gone = kept.pop().unwrap();
            proof {
                assert(item_views(kept@) =~= full.take(len - 1));
                assert(gone == kept_before[len - 1]);
                assert(item_views(kept_before)[len - 1] == full.take(len as int)[len - 1]);
                assert(gone@ == full[len - 1]);
                assert(full.subrange(len - 1, full.len() as int) =~= seq![full[len - 1]]
                    + full.subrange(len as int, full.len() as int));
            }
            evicted.push(gone);
            proof {
                assert(item_views(evicted@) =~= before.push(full[len - 1]));
                assert(full.subrange(len - 1, full.len() as int).reverse() =~= before.push(
                    full[len - 1],
                ));
            }
        }
        proof {
            if full.len() <= MAX_ITEMS {
                assert(full.take(full.len() as int) =~= full);
                assert(full.subrange(full.len() as int, full.len() as int).reverse()
                    =~= Seq::<ItemView>::empty());
            } else {
                assert(full.subrange(MAX_ITEMS as int, full.len() as int) =~= full.skip(
                    MAX_ITEMS as int,
                ));
            }
        }
        self.items = kept;
        self.last_seen = last_seen;
        evicted
    }

    /// Records an admitted capture with fingerprint `fingerprint` under the id
    /// `id` at time `now`: text and a non-empty file list are stored at once; an
    /// empty file list is ignored; an image whose buffer does not hold its size is
    /// refused; any other image is handed back to have its blob written.
    pub fn commit_capture(
        &mut self,
        capture: Capture,
        fingerprint: String,
        id: String,
        now: u64,
    ) -> (out: CaptureOutcome)
        ensures
            (final(self)@, out@) == committed(old(self)@, capture@, fingerprint@, id@, now),
    {
        match capture {
            Capture::Text(text) => {
                let item = text_item(id, now, text.as_str(), fingerprint);
                let copy = item.duplicate();
                let evicted = self.store_item(item);
                CaptureOutcome::Stored { item: copy, evicted }
            },
            Capture::Files(paths) => {
                if paths.len() == 0 {
                    return CaptureOutcome::Ignored;
                }
                let item = files_item(id, now, paths, fingerprint);
                let copy = item.duplicate();
                let evicted = self.store_item(item);
                CaptureOutcome::Stored { item: copy, evicted }
            },
            Capture::Image { width, height, rgba } => {
                match check_image_buffer(width, height, rgba.len()) {
                    Ok(_) => CaptureOutcome::ImagePending { id, fingerprint, width, height, rgba },
                    Err(f) => CaptureOutcome::ImageRefused(f),
                }
            },
        }
    }

    /// Takes in what was read from the clipboard. A capture is not recorded when
    /// its fingerprint is that of the content seen last, or is the suppressed one;
    /// otherwise it gets a fresh random id and the current time, and is recorded
    /// as `commit_capture` says.
    pub fn push_capture(&mut self, capture: Capture) -> (out: CaptureOutcome)
        ensures
            !admits(old(self)@, capture_fingerprint(capture@)) ==> {
                &&& out is Ignored
                &&& final(self)@ == after_refusal(old(self)@, capture_fingerprint(capture@))
            },
            admits(old(self)@, capture_fingerprint(capture@)) ==> exists|id: Seq<char>, now: u64|
                {
                    &&& uuid_v4_text(id)
                    &&& #[trigger] committed(
                        old(self)@,
                        capture@,
                        capture_fingerprint(capture@),
                        id,
                        now,
                    ) == (final(self)@, out@)
                },
    {
        let fingerprint = fingerprint_of(&capture);
        if !self.accept_fingerprint(&fingerprint) {
            return CaptureOutcome::Ignored;
        }
        let id = new_item_id();
        let ghost idv = id@;
        let now = now_ms();
        let out = self.commit_capture(capture, fingerprint, id, now);
        proof {
            assert(uuid_v4_text(idv));
        }
        out
    }

    /// Finds the first item with id `id`.
    fn position_of(&self, id: &str) -> (r: Option<usize>)
        ensures
            match r {
                Some(p) => first_with_id(self@.items, id@, p as int),
                None => !has_id(self@.items, id@),
            },
    {
        let key = String::from_str(id);
        let ghost all = self@.items;
        let mut i: usize = 0;
        while i < self.items.len()
            invariant
                i <= self.items@.len(),
                all == self@.items,
                all == item_views(self.items@),
                key@ == id@,
                forall|k: int| 0 <= k < i ==> (#[trigger] all[k]).id != id@,
            decreases self.items@.len() - i,
        {
            if self.items[i].id == key {
                return Some(i);
            }
            i = i + 1;
        }
        None
    }

    /// The first item with id `id`, if any.
    pub fn get(&self, id: &str) -> (r: Option<&ClipboardItem>)
        ensures
            match r {
                Some(item) => exists|p: int|
                    first_with_id(self@.items, id@, p) && item@ == #[trigger] self@.items[p],
                None => !has_id(self@.items, id@),
            },
    {
        match self.position_of(id) {
            Some(p) => Some(&self.items[p]),
            None => None,
        }
    }

    /// Removes the first item with id `id` and returns it; its blob and the saved
    /// history are for the caller to update.
    pub fn delete(&mut self, id: &str) -> (removed: Option<ClipboardItem>)
        ensures
            match removed {
                Some(item) => exists|p: int|
                    {
                        &&& first_with_id(old(self)@.items, id@, p)
                        &&& item@ == #[trigger] old(self)@.items[p]
                        &&& final(self)@ == (StoreView {
                            items: old(self)@.items.remove(p),
                            ..old(self)@
                        })
                    },
                None => !has_id(old(self)@.items, id@) && final(self)@ == old(self)@,
            },
    {
        match self.position_of(id) {
            Some(p) => {
                let item = self.items.remove(p);
                proof {
                    assert(item_views(self.items@) =~= old(self)@.items.remove(p as int));
                }
                Some(item)
            },
            None => None,
        }
    }

    /// Empties the history and returns what it held.
    pub fn clear(&mut self) -> (removed: Vec<ClipboardItem>)
        ensures
            item_views(removed@) == old(self)@.items,
            final(self)@ == (StoreView { items: seq![], ..old(self)@ }),
    {
        let mut removed: Vec<ClipboardItem> = Vec::new();
        std::mem::swap(&mut removed, &mut self.items);
        proof {
            assert(item_views(self.items@) =~= Seq::<ItemView>::empty());
        }
        removed
    }

    /// Moves the first item with id `id` to the front with the time `now`;
    /// returns whether there was one.
    pub fn bump_to_top_at(&mut self, id: &str, now: u64) -> (found: bool)
        ensures
            found == has_id(old(self)@.items, id@),
            final(self)@ == bumped(old(self)@, id@, now),
    {
        match self.position_of(id) {
            Some(p) => {
                let mut item = self.items.remove(p);
                item.created_at = now;
                self.items.insert(0, item);
                proof {
                    let s = old(self)@;
                    let q = choose|q: int| first_with_id(s.items, id@, q);
                    assert(q == p) by {
                        if q < p {
                            assert(s.items[q].id != id@);
                        } else if q > p {
                            assert(s.items[p as int].id != id@);
                        }
                    }
                    assert(item_views(self.items@) =~= seq![
                        ItemView { created_at: now, ..s.items[p as int] },
                    ] + s.items.remove(p as int));
                }
                true
            },
            None => false,
        }
    }

    /// Moves the first item with id `id` to the front with the current time;
    /// returns whether there was one.
    pub fn bump_to_top(&mut self, id: &str) -> (found: bool)
        ensures
            found == has_id(old(self)@.items, id@),
            exists|now: u64| final(self)@ == #[trigger] bumped(old(self)@, id@, now),
    {
        let now = now_ms();
        self.bump_to_top_at(id, now)
    }

    /// Notes that `item` was just written to the clipboard: its next capture is
    /// not recorded, it counts as last seen, and it moves to the front with the
    /// current time. Returns whether it was still in the history.
    pub fn note_copied(&mut self, item: &ClipboardItem) -> (found: bool)
        ensures
            found == has_id(old(self)@.items, item@.id),
            exists|now: u64| final(self)@ == #[trigger] copied(old(self)@, item@.fingerprint, item@.id, now),
    {
        self.suppress_once = Some(item.fingerprint.clone());
        self.last_seen = item.fingerprint.clone();
        proof {
            assert(self@ == (StoreView {
                suppress_once: Some(item@.fingerprint),
                last_seen: item@.fingerprint,
                ..old(self)@
            }));
        }
        let now = now_ms();
        let found = self.bump_to_top_at(item.id.as_str(), now);
        assert(self@ == copied(old(self)@, item@.fingerprint, item@.id, now));
        found
    }
}

} // verus!
