use vstd::prelude::*;

use crate::failure::INTERNAL_ERROR;
use crate::media::{
    image_buffer_problem, lightbox_candidate, lightbox_url, LIGHTBOX_URL_LIMIT, LIGHTBOX_URL_MAX,
};
use crate::fingerprint::default_hash;
use crate::item::{kind_text, matches_needle, text_item_view, ItemView, MAX_TEXT_CHARS};
use crate::store::{
    admits, after_refusal, bumped, capture_fingerprint, capped, committed, copied, has_id, listed,
    loaded_items, matching, placed_first, search_needle, stored, first_with_id, without_fingerprint,
    CaptureView, OutcomeView, StoreView, MAX_ITEMS,
};
use crate::text::{contains, decimal, lowercase};

verus! {

proof fn lemma_without_fingerprint(items: Seq<ItemView>, fp: Seq<char>)
    ensures
        without_fingerprint(items, fp).len() <= items.len(),
        forall|k: int|
            0 <= k < without_fingerprint(items, fp).len() ==> (#[trigger] without_fingerprint(
                items,
                fp,
            )[k]).fingerprint != fp,
    decreases items.len(),
{
    if items.len() > 0 {
        lemma_without_fingerprint(items.drop_last(), fp);
    }
}

proof fn lemma_matching_within(items: Seq<ItemView>, needle: Seq<char>)
    ensures
        forall|k: int|
            0 <= k < matching(items, needle).len() ==> items.contains(
                #[trigger] matching(items, needle)[k],
            ) && matches_needle(matching(items, needle)[k], needle),
    decreases items.len(),
{
    if items.len() > 0 {
        let rest = items.drop_last();
        lemma_matching_within(rest, needle);
        assert forall|k: int| 0 <= k < matching(items, needle).len() implies items.contains(
            #[trigger] matching(items, needle)[k],
        ) && matches_needle(matching(items, needle)[k], needle) by {
            let m = matching(items, needle);
            if k < matching(rest, needle).len() {
                let x = matching(rest, needle)[k];
                assert(m[k] == x);
                let j = choose|j: int| 0 <= j < rest.len() && rest[j] == x;
                assert(items[j] == x);
            } else {
                assert(m[k] == items.last());
                assert(items[items.len() - 1] == items.last());
            }
        }
    }
}

/// A recorded item comes first, no other item shares its fingerprint, it
/// becomes the last seen content, and the history holds at most `MAX_ITEMS` items.
pub proof fn law_recorded_item_leads(s: StoreView, item: ItemView)
    ensures
        stored(s, item).items.len() >= 1,
        stored(s, item).items[0] == item,
        forall|k: int|
            1 <= k < stored(s, item).items.len() ==> (#[trigger] stored(s, item).items[k]).fingerprint
                != item.fingerprint,
        stored(s, item).items.len() <= MAX_ITEMS,
        stored(s, item).last_seen == item.fingerprint,
        first_with_id(stored(s, item).items, item.id, 0),
        has_id(stored(s, item).items, item.id),
{
    lemma_without_fingerprint(s.items, item.fingerprint);
    let full = placed_first(s.items, item);
    let t = stored(s, item);
    assert(t.items == capped(full));
    assert forall|k: int| 1 <= k < t.items.len() implies (#[trigger] t.items[k]).fingerprint
        != item.fingerprint by {
        assert(t.items[k] == full[k]);
        assert(full[k] == without_fingerprint(s.items, item.fingerprint)[k - 1]);
    }
    assert(t.items[0].id == item.id);
}

/// Taking in a capture never lets a history within `MAX_ITEMS` items grow beyond it.
pub proof fn law_capture_keeps_cap(s: StoreView, c: CaptureView, id: Seq<char>, now: u64)
    requires
        s.items.len() <= MAX_ITEMS,
    ensures
        after_refusal(s, capture_fingerprint(c)).items == s.items,
        committed(s, c, capture_fingerprint(c), id, now).0.items.len() <= MAX_ITEMS,
{
    let fp = capture_fingerprint(c);
    match c {
        CaptureView::Text(t) => {
            let r = committed(s, c, fp, id, now);
            if let OutcomeView::Stored { item, .. } = r.1 {
                law_recorded_item_leads(s, item);
            }
        },
        CaptureView::Files(ps) => {
            let r = committed(s, c, fp, id, now);
            if let OutcomeView::Stored { item, .. } = r.1 {
                law_recorded_item_leads(s, item);
            }
        },
        CaptureView::Image { .. } => {},
    }
}

/// The same clipboard content read twice is recorded once: after a capture is
/// recorded, the same capture again is not, and leaves the history as it is.
pub proof fn law_same_capture_recorded_once(
    s: StoreView,
    c: CaptureView,
    id: Seq<char>,
    now: u64,
)
    requires
        committed(s, c, capture_fingerprint(c), id, now).1 is Stored,
    ensures
        !admits(committed(s, c, capture_fingerprint(c), id, now).0, capture_fingerprint(c)),
        after_refusal(committed(s, c, capture_fingerprint(c), id, now).0, capture_fingerprint(c))
            == committed(s, c, capture_fingerprint(c), id, now).0,
{
}

/// Copying an item back to the clipboard does not record it again: not when
/// the clipboard is read right after, and not once either when other content
/// was recorded in between; that second refusal uses the suppression up.
pub proof fn law_copy_back_not_recorded(
    s: StoreView,
    fp: Seq<char>,
    id: Seq<char>,
    now: u64,
    other: ItemView,
)
    requires
        fp.len() > 0,
        other.fingerprint != fp,
    ensures
        !admits(copied(s, fp, id, now), fp),
        !admits(stored(copied(s, fp, id, now), other), fp),
        after_refusal(stored(copied(s, fp, id, now), other), fp).suppress_once is None,
        after_refusal(stored(copied(s, fp, id, now), other), fp).items == stored(
            copied(s, fp, id, now),
            other,
        ).items,
{
}

/// A listing shows only items that the history holds; without a query it shows them all.
pub proof fn law_listing_within_history(items: Seq<ItemView>, query: Option<Seq<char>>)
    ensures
        forall|k: int|
            0 <= k < listed(items, query).len() ==> items.contains(#[trigger] listed(items, query)[k]),
        listed(items, None) == items,
{
    match crate::store::search_needle(query) {
        Some(needle) => {
            lemma_matching_within(items, needle);
        },
        None => {},
    }
}

/// Moving an item to the front keeps the number of items; the moved item comes
/// first with the new time.
pub proof fn law_bump_moves_to_front(s: StoreView, id: Seq<char>, now: u64)
    ensures
        bumped(s, id, now).items.len() == s.items.len(),
        has_id(s.items, id) ==> bumped(s, id, now).items[0].id == id && bumped(
            s,
            id,
            now,
        ).items[0].created_at == now,
        !has_id(s.items, id) ==> bumped(s, id, now) == s,
{
    if has_id(s.items, id) {
        let k = choose|k: int| 0 <= k < s.items.len() && (#[trigger] s.items[k]).id == id;
        assert(exists|p: int| first_with_id(s.items, id, p)) by {
            lemma_first_with_id_exists(s.items, id, k);
        }
    }
}

proof fn lemma_first_with_id_exists(items: Seq<ItemView>, id: Seq<char>, k: int)
    requires
        0 <= k < items.len(),
        items[k].id == id,
    ensures
        exists|p: int| first_with_id(items, id, p),
    decreases k,
{
    if exists|j: int| 0 <= j < k && (#[trigger] items[j]).id == id {
        let j = choose|j: int| 0 <= j < k && (#[trigger] items[j]).id == id;
        lemma_first_with_id_exists(items, id, j);
    } else {
        assert(first_with_id(items, id, k));
    }
}

/// A text item keeps at most `MAX_TEXT_CHARS` characters, the first ones of the
/// captured text, and counts the characters that it keeps.
pub proof fn law_text_item_within_limit(id: Seq<char>, now: u64, text: Seq<char>, fp: Seq<char>)
    ensures
        text_item_view(id, now, text, fp).text.len() <= MAX_TEXT_CHARS,
        text_item_view(id, now, text, fp).char_count == text_item_view(id, now, text, fp).text.len(),
        text_item_view(id, now, text, fp).text == text.take(
            text_item_view(id, now, text, fp).text.len() as int,
        ),
        text.len() <= MAX_TEXT_CHARS ==> text_item_view(id, now, text, fp).text == text,
{
    if text.len() <= MAX_TEXT_CHARS {
        assert(text.take(text.len() as int) =~= text);
    }
}

/// Looking up an item by id and removing it by id address the same item: there
/// is at most one first position of an id.
pub proof fn law_first_position_is_unique(items: Seq<ItemView>, id: Seq<char>, p: int, q: int)
    requires
        first_with_id(items, id, p),
        first_with_id(items, id, q),
    ensures
        p == q,
{
    if p < q {
        assert(items[p].id != id);
    } else if q < p {
        assert(items[q].id != id);
    }
}

/// The enlarged view of an image is kept within `LIGHTBOX_URL_LIMIT` where a
/// quality from 85 down to 40 brings it there; otherwise it is the URL at quality 40.
pub proof fn law_lightbox_quality_steps(rgb: Seq<u8>, width: u32, height: u32)
    ensures
        lightbox_url(rgb, width, height, 85).len() <= LIGHTBOX_URL_LIMIT || lightbox_url(
            rgb,
            width,
            height,
            85,
        ) == lightbox_candidate(rgb, width, height, 40),
{
    reveal_with_fuel(lightbox_url, 4);
}

/// The enlarged view of an image fits the host's 2 MiB limit wherever its
/// quality-40 JPEG does.
pub proof fn law_lightbox_within_limit(rgb: Seq<u8>, width: u32, height: u32)
    requires
        lightbox_candidate(rgb, width, height, 40).len() <= LIGHTBOX_URL_MAX,
    ensures
        lightbox_url(rgb, width, height, 85).len() <= LIGHTBOX_URL_MAX,
{
    law_lightbox_quality_steps(rgb, width, height);
}

/// An image capture whose buffer does not hold its size is not recorded: the
/// history, the last seen content and the suppression stay as they were.
pub proof fn law_unusable_image_not_recorded(
    s: StoreView,
    width: u32,
    height: u32,
    rgba: Seq<u8>,
    id: Seq<char>,
    now: u64,
)
    requires
        image_buffer_problem(width, height, rgba.len()) is Some,
    ensures
        committed(
            s,
            CaptureView::Image { width, height, rgba },
            capture_fingerprint(CaptureView::Image { width, height, rgba }),
            id,
            now,
        ) == (s, OutcomeView::ImageRefused {
            code: INTERNAL_ERROR,
            message: image_buffer_problem(width, height, rgba.len())->0,
        }),
{
}

/// Whether no two items share a fingerprint.
pub open spec fn distinct_fingerprints(items: Seq<ItemView>) -> bool {
    forall|i: int, j: int|
        0 <= i < j < items.len() ==> (#[trigger] items[i]).fingerprint != (#[trigger] items[j]).fingerprint
}

proof fn lemma_without_fingerprint_distinct(items: Seq<ItemView>, fp: Seq<char>)
    requires
        distinct_fingerprints(items),
    ensures
        distinct_fingerprints(without_fingerprint(items, fp)),
        forall|k: int|
            0 <= k < without_fingerprint(items, fp).len() ==> items.contains(
                #[trigger] without_fingerprint(items, fp)[k],
            ),
    decreases items.len(),
{
    if items.len() > 0 {
        let rest = items.drop_last();
        assert(distinct_fingerprints(rest)) by {
            assert forall|i: int, j: int| 0 <= i < j < rest.len() implies (#[trigger] rest[i]).fingerprint
                != (#[trigger] rest[j]).fingerprint by {
                assert(rest[i] == items[i] && rest[j] == items[j]);
            }
        }
        lemma_without_fingerprint_distinct(rest, fp);
        let w = without_fingerprint(rest, fp);
        let last = items.last();
        assert forall|k: int| 0 <= k < w.len() implies (#[trigger] w[k]).fingerprint != last.fingerprint by {
            let j = choose|j: int| 0 <= j < rest.len() && rest[j] == w[k];
            assert(items[j] == w[k]);
            assert(items[items.len() - 1] == last);
        }
        let r = without_fingerprint(items, fp);
        assert forall|k: int| 0 <= k < r.len() implies items.contains(#[trigger] r[k]) by {
            if k < w.len() {
                let j = choose|j: int| 0 <= j < rest.len() && rest[j] == w[k];
                assert(items[j] == w[k]);
            } else {
                assert(items[items.len() - 1] == last);
            }
        }
    }
}

/// Recording an item keeps the fingerprints in the history distinct: no two
/// items ever hold the same clipboard content, starting from a history where
/// none did.
pub proof fn law_fingerprints_stay_distinct(s: StoreView, item: ItemView)
    requires
        distinct_fingerprints(s.items),
    ensures
        distinct_fingerprints(stored(s, item).items),
{
    lemma_without_fingerprint_distinct(s.items, item.fingerprint);
    lemma_without_fingerprint(s.items, item.fingerprint);
    let w = without_fingerprint(s.items, item.fingerprint);
    let full = placed_first(s.items, item);
    assert(distinct_fingerprints(full)) by {
        assert forall|i: int, j: int| 0 <= i < j < full.len() implies (#[trigger] full[i]).fingerprint
            != (#[trigger] full[j]).fingerprint by {
            assert(full[j] == w[j - 1]);
            if i > 0 {
                assert(full[i] == w[i - 1]);
            }
        }
    }
    let t = stored(s, item).items;
    assert forall|i: int, j: int| 0 <= i < j < t.len() implies (#[trigger] t[i]).fingerprint
        != (#[trigger] t[j]).fingerprint by {
        assert(t[i] == full[i] && t[j] == full[j]);
    }
}

/// Moving an item to the front takes it out of its place and puts it first with
/// the new time: the other items keep their order, and nothing else changes.
pub proof fn law_bump_keeps_others_in_order(s: StoreView, id: Seq<char>, now: u64, p: int)
    requires
        first_with_id(s.items, id, p),
    ensures
        bumped(s, id, now).items.len() == s.items.len(),
        bumped(s, id, now).items[0] == (ItemView { created_at: now, ..s.items[p] }),
        bumped(s, id, now).items.drop_first() == s.items.remove(p),
        bumped(s, id, now).path == s.path,
        bumped(s, id, now).last_seen == s.last_seen,
        bumped(s, id, now).suppress_once == s.suppress_once,
{
    assert(has_id(s.items, id)) by {
        assert(s.items[p].id == id);
    }
    let q = choose|q: int| first_with_id(s.items, id, q);
    law_first_position_is_unique(s.items, id, p, q);
    let b = bumped(s, id, now).items;
    assert(b.drop_first() =~= s.items.remove(p));
}

/// An item turns up in a search for a needle exactly when its lower-cased
/// text, its lower-cased kind or one of its lower-cased paths contains the
/// needle anywhere.
pub proof fn law_search_looks_at_whole_item(item: ItemView, needle: Seq<char>)
    ensures
        contains(lowercase(item.text), needle) ==> matches_needle(item, needle),
        contains(lowercase(item.kind), needle) ==> matches_needle(item, needle),
        forall|ps: Seq<Seq<char>>, i: int|
            item.paths == Some(ps) && 0 <= i < ps.len() && #[trigger] contains(lowercase(ps[i]), needle)
                ==> matches_needle(item, needle),
        matches_needle(item, needle) ==> contains(lowercase(item.text), needle) || contains(
            lowercase(item.kind),
            needle,
        ) || (item.paths matches Some(ps) && exists|i: int|
            0 <= i < ps.len() && #[trigger] contains(lowercase(ps[i]), needle)),
{
    assert forall|ps: Seq<Seq<char>>, i: int|
        item.paths == Some(ps) && 0 <= i < ps.len() && #[trigger] contains(lowercase(ps[i]), needle)
            implies matches_needle(item, needle) by {
        assert(item.paths->0 == ps);
        assert(item.paths->0[i] == ps[i]);
    }
}

proof fn lemma_matching_keeps(items: Seq<ItemView>, needle: Seq<char>, k: int)
    requires
        0 <= k < items.len(),
        matches_needle(items[k], needle),
    ensures
        matching(items, needle).contains(items[k]),
    decreases items.len(),
{
    let rest = items.drop_last();
    if k < items.len() - 1 {
        assert(rest[k] == items[k]);
        lemma_matching_keeps(rest, needle, k);
        let m = matching(rest, needle);
        let j = choose|j: int| 0 <= j < m.len() && m[j] == items[k];
        if matches_needle(items.last(), needle) {
            assert(matching(items, needle)[j] == items[k]);
        } else {
            assert(matching(items, needle)[j] == items[k]);
        }
    } else {
        let m = matching(items, needle);
        assert(items.last() == items[k]);
        assert(m[m.len() - 1] == items[k]);
    }
}

/// A search with a non-blank query lists every item of the history whose
/// lower-cased text, kind or path contains the trimmed, lower-cased query.
pub proof fn law_listing_keeps_every_match(items: Seq<ItemView>, query: Seq<char>, k: int)
    requires
        0 <= k < items.len(),
        search_needle(Some(query)) matches Some(needle) && matches_needle(items[k], needle),
    ensures
        listed(items, Some(query)).contains(items[k]),
{
    let needle = search_needle(Some(query))->0;
    lemma_matching_keeps(items, needle, k);
}

/// An image capture is fingerprinted by the hash of all of its pixel bytes,
/// whatever its size: `image:` and that hash in decimal.
pub proof fn law_image_fingerprint_hashes_all_bytes(width: u32, height: u32, rgba: Seq<u8>)
    ensures
        capture_fingerprint(CaptureView::Image { width, height, rgba }) == seq![
            'i',
            'm',
            'a',
            'g',
            'e',
            ':',
        ] + decimal(default_hash(rgba) as nat),
{
}

/// A text capture is fingerprinted by the hash of all of its UTF-8 bytes:
/// `text:` and that hash in decimal.
pub proof fn law_text_fingerprint_hashes_all_bytes(text: Seq<char>)
    ensures
        capture_fingerprint(CaptureView::Text(text)) == seq!['t', 'e', 'x', 't', ':'] + decimal(
            default_hash(vstd::utf8::encode_utf8(text)) as nat,
        ),
{
}

/// Loading keeps every saved field of every item as it was saved, but for an
/// empty fingerprint, which becomes that of the item's text, and an empty kind,
/// which becomes `text`; the items keep their number and order.
pub proof fn law_load_keeps_saved_fields(saved: Seq<ItemView>, k: int)
    requires
        0 <= k < saved.len(),
    ensures
        loaded_items(Some(saved)).len() == saved.len(),
        ({
            let v = saved[k];
            let l = loaded_items(Some(saved))[k];
            &&& l.id == v.id
            &&& l.created_at == v.created_at
            &&& l.text == v.text
            &&& l.char_count == v.char_count
            &&& l.width == v.width
            &&& l.height == v.height
            &&& l.media_file == v.media_file
            &&& l.paths == v.paths
            &&& l.preview_data_url == v.preview_data_url
            &&& v.fingerprint.len() > 0 ==> l.fingerprint == v.fingerprint
            &&& v.fingerprint.len() == 0 ==> l.fingerprint == crate::fingerprint::text_fingerprint(
                v.text,
            )
            &&& v.kind.len() > 0 ==> l.kind == v.kind
            &&& v.kind.len() == 0 ==> l.kind == kind_text()
        }),
{
}

} // verus!
