use vstd::prelude::*;
use std::collections::hash_map::DefaultHasher;
use std::hash::Hasher;
use vstd::std_specs::hash::DefaultHasherAdditionalSpecFns;
use vstd::relations::{sorted_by, total_ordering};
use vstd::seq_lib::{group_to_multiset_ensures, lemma_multiset_commutative, lemma_sorted_unique};
use vstd::utf8::encode_utf8;

use crate::text::{decimal, join_with, push_decimal, string_views};

verus! {

broadcast use vstd::string::group_string_axioms;

/// The writes that `Hash for [u8]` makes into a hasher for a byte slice.
pub uninterp spec fn slice_hash_writes(bytes: Seq<u8>) -> Seq<Seq<u8>>;

/// std's `Hash::hash` for a byte slice, into a `DefaultHasher`: the hasher's
/// writes grow by the writes that the slice's `Hash` makes, which are a function
/// of the bytes alone (what they are is not written out).
#[verifier::external_body]
fn hash_slice_into(bytes: &[u8], hasher: &mut DefaultHasher)
    ensures
        final(hasher)@ == old(hasher)@ + slice_hash_writes(bytes@),
{
    std::hash::Hash::hash(bytes, hasher)
}

/// What a fresh `DefaultHasher` finishes with once a byte slice is hashed into it.
pub open spec fn default_hash(bytes: Seq<u8>) -> u64 {
    DefaultHasher::spec_finish(slice_hash_writes(bytes))
}

/// The 64-bit hash by which captures are told apart: the byte slice hashed into
/// a fresh `DefaultHasher`.
pub fn hash_bytes(bytes: &[u8]) -> (h: u64)
    ensures
        h == default_hash(bytes@),
{
    let mut hasher = DefaultHasher::new();
    hash_slice_into(bytes, &mut hasher);
    assert(hasher@ =~= slice_hash_writes(bytes@));
    hasher.finish()
}

/// The fingerprint of a text capture: `text:` and the decimal hash of its UTF-8 bytes.
pub open spec fn text_fingerprint(text: Seq<char>) -> Seq<char> {
    seq!['t', 'e', 'x', 't', ':'] + decimal(default_hash(encode_utf8(text)) as nat)
}

/// The fingerprint of an image capture: `image:` and the decimal hash of its pixel bytes.
pub open spec fn bytes_fingerprint(bytes: Seq<u8>) -> Seq<char> {
    seq!['i', 'm', 'a', 'g', 'e', ':'] + decimal(default_hash(bytes) as nat)
}

/// Byte-wise lexicographic order, the order of `String`s.
pub open spec fn lex_le(a: Seq<u8>, b: Seq<u8>) -> bool
    decreases a.len(),
{
    if a.len() == 0 {
        true
    } else if b.len() == 0 {
        false
    } else if a[0] != b[0] {
        a[0] < b[0]
    } else {
        lex_le(a.drop_first(), b.drop_first())
    }
}

/// `lex_le` as a relation.
pub open spec fn byte_order() -> spec_fn(Seq<u8>, Seq<u8>) -> bool {
    |a: Seq<u8>, b: Seq<u8>| lex_le(a, b)
}

/// Byte strings joined with a newline between each two.
pub open spec fn joined(parts: Seq<Seq<u8>>) -> Seq<u8> {
    join_with(parts, 10u8)
}

/// The UTF-8 bytes of each path.
pub open spec fn path_bytes(paths: Seq<Seq<char>>) -> Seq<Seq<u8>> {
    paths.map_values(|p: Seq<char>| encode_utf8(p))
}

/// The fingerprint of a file-list capture: `files:` and the decimal hash of the
/// paths, sorted and joined by newlines.
pub open spec fn paths_fingerprint(paths: Seq<Seq<char>>) -> Seq<char> {
    seq!['f', 'i', 'l', 'e', 's', ':'] + decimal(
        default_hash(joined(path_bytes(paths).sort_by(byte_order()))) as nat,
    )
}

proof fn lemma_lex_reflexive(a: Seq<u8>)
    ensures
        lex_le(a, a),
    decreases a.len(),
{
    if a.len() > 0 {
        lemma_lex_reflexive(a.drop_first());
    }
}

proof fn lemma_lex_antisymmetric(a: Seq<u8>, b: Seq<u8>)
    requires
        lex_le(a, b),
        lex_le(b, a),
    ensures
        a == b,
    decreases a.len(),
{
    if a.len() > 0 && b.len() > 0 {
        lemma_lex_antisymmetric(a.drop_first(), b.drop_first());
        assert(a =~= seq![a[0]] + a.drop_first());
        assert(b =~= seq![b[0]] + b.drop_first());
    } else {
        assert(a =~= b);
    }
}

proof fn lemma_lex_transitive(a: Seq<u8>, b: Seq<u8>, c: Seq<u8>)
    requires
        lex_le(a, b),
        lex_le(b, c),
    ensures
        lex_le(a, c),
    decreases a.len(),
{
    if a.len() > 0 && b.len() > 0 && c.len() > 0 {
        if a[0] == b[0] && b[0] == c[0] {
            lemma_lex_transitive(a.drop_first(), b.drop_first(), c.drop_first());
        }
    }
}

proof fn lemma_lex_connected(a: Seq<u8>, b: Seq<u8>)
    ensures
        lex_le(a, b) || lex_le(b, a),
    decreases a.len(),
{
    if a.len() > 0 && b.len() > 0 && a[0] == b[0] {
        lemma_lex_connected(a.drop_first(), b.drop_first());
    }
}

/// Byte-wise lexicographic order is a total order.
pub proof fn lemma_byte_order_total()
    ensures
        total_ordering(byte_order()),
{
    let r = byte_order();
    assert forall|x: Seq<u8>| #[trigger] r(x, x) by {
        lemma_lex_reflexive(x);
    }
    assert forall|x: Seq<u8>, y: Seq<u8>| #[trigger] r(x, y) && #[trigger] r(y, x) implies x == y by {
        lemma_lex_antisymmetric(x, y);
    }
    assert forall|x: Seq<u8>, y: Seq<u8>, z: Seq<u8>| #[trigger] r(x, y) && #[trigger] r(y, z) implies r(
        x,
        z,
    ) by {
        lemma_lex_transitive(x, y, z);
    }
    assert forall|x: Seq<u8>, y: Seq<u8>| #[trigger] r(x, y) || #[trigger] r(y, x) by {
        lemma_lex_connected(x, y);
    }
}

proof fn lemma_lex_skip(a: Seq<u8>, b: Seq<u8>, i: int)
    requires
        0 <= i <= a.len(),
        i <= b.len(),
        forall|k: int| 0 <= k < i ==> a[k] == b[k],
    ensures
        lex_le(a, b) == lex_le(a.skip(i), b.skip(i)),
    decreases i,
{
    if i == 0 {
        assert(a.skip(0) =~= a);
        assert(b.skip(0) =~= b);
    } else {
        assert(a.drop_first().skip(i - 1) =~= a.skip(i));
        assert(b.drop_first().skip(i - 1) =~= b.skip(i));
        lemma_lex_skip(a.drop_first(), b.drop_first(), i - 1);
    }
}

/// Whether `a` comes no later than `b` in byte-wise lexicographic order.
fn bytes_le(a: &[u8], b: &[u8]) -> (r: bool)
    ensures
        r == lex_le(a@, b@),
{
    let n = a.len();
    let m = b.len();
    let mut i: usize = 0;
    while i < n && i < m
        invariant
            n == a@.len(),
            m == b@.len(),
            i <= n,
            i <= m,
            forall|k: int| 0 <= k < i ==> a@[k] == b@[k],
        decreases n - i,
    {
        if a[i] != b[i] {
            proof {
                lemma_lex_skip(a@, b@, i as int);
            }
            return a[i] < b[i];
        }
        i = i + 1;
    }
    proof {
        lemma_lex_skip(a@, b@, i as int);
    }
    i == n
}

/// The contents of each byte vector.
pub open spec fn byte_views(v: Seq<Vec<u8>>) -> Seq<Seq<u8>> {
    v.map_values(|b: Vec<u8>| b@)
}

proof fn lemma_map_multiset<A, B>(a: Seq<A>, b: Seq<A>, f: spec_fn(A) -> B)
    requires
        a.to_multiset() == b.to_multiset(),
    ensures
        a.map_values(f).to_multiset() == b.map_values(f).to_multiset(),
    decreases a.len(),
{
    broadcast use group_to_multiset_ensures;
    broadcast use vstd::multiset::group_multiset_axioms;

    if a.len() == 0 {
        assert(b.to_multiset().len() == 0);
        assert(b.len() == 0);
        assert(a.map_values(f) =~= b.map_values(f));
    } else {
        let x = a.last();
        assert(a.to_multiset().count(x) > 0) by {
            assert(a.contains(x));
        }
        assert(b.contains(x));
        let j = choose|j: int| 0 <= j < b.len() && b[j] == x;
        assert(a.drop_last().push(x) =~= a);
        assert(a.drop_last().to_multiset() =~= b.remove(j).to_multiset());
        lemma_map_multiset(a.drop_last(), b.remove(j), f);
        assert(a.map_values(f) =~= a.drop_last().map_values(f).push(f(x)));
        assert(b.map_values(f).remove(j) =~= b.remove(j).map_values(f));
        assert(b.map_values(f)[j] == f(x));
        assert(b.map_values(f).remove(j).to_multiset() =~= b.map_values(f).to_multiset().remove(f(x)));
        assert(b.map_values(f).to_multiset().count(f(x)) > 0) by {
            assert(b.map_values(f).contains(f(x)));
        }
    }
}

/// Sorts byte strings into byte-wise lexicographic order.
fn sort_byte_strings(v: Vec<Vec<u8>>) -> (r: Vec<Vec<u8>>)
    ensures
        byte_views(r@) == byte_views(v@).sort_by(byte_order()),
{
    broadcast use group_to_multiset_ensures;

    let ghost orig = byte_views(v@);
    let mut rest = v;
    let mut out: Vec<Vec<u8>> = Vec::new();
    proof {
        lemma_byte_order_total();
        assert(byte_views(out@) =~= Seq::<Seq<u8>>::empty());
    }
    while rest.len() > 0
        invariant
            total_ordering(byte_order()),
            sorted_by(byte_views(out@), byte_order()),
            byte_views(out@).to_multiset().add(byte_views(rest@).to_multiset()) == orig.to_multiset(),
        decreases rest.len(),
    {
        let ghost old_rest = byte_views(rest@);
        let ghost old_out = byte_views(out@);
        let x = rest.pop().unwrap();
        proof {
            assert(old_rest =~= byte_views(rest@).push(x@));
        }
        let ghost xv = x@;
        let mut p: usize = 0;
        loop
            invariant
                p <= out@.len(),
                byte_views(out@) == old_out,
                xv == x@,
                forall|k: int| 0 <= k < p ==> lex_le(#[trigger] old_out[k], xv),
            ensures
                p <= out@.len(),
                byte_views(out@) == old_out,
                forall|k: int| 0 <= k < p ==> lex_le(#[trigger] old_out[k], xv),
                p < out@.len() ==> !lex_le(old_out[p as int], xv),
            decreases out@.len() - p,
        {
            if p >= out.len() {
                break;
            }
            if !bytes_le(out[p].as_slice(), x.as_slice()) {
                break;
            }
            p = p + 1;
        }
        proof {
            let r = byte_order();
            assert forall|k: int| p <= k < old_out.len() implies lex_le(xv, #[trigger] old_out[k]) by {
                lemma_lex_connected(old_out[p as int], xv);
                if k > p {
                    assert(r(old_out[p as int], old_out[k]));
                    lemma_lex_transitive(xv, old_out[p as int], old_out[k]);
                }
            }
            let new_out = old_out.insert(p as int, xv);
            assert forall|i: int, j: int| 0 <= i < j < new_out.len() implies #[trigger] r(
                new_out[i],
                new_out[j],
            ) by {
                if j < p {
                } else if j == p {
                    assert(new_out[i] == old_out[i]);
                } else if i < p {
                    assert(new_out[j] == old_out[j - 1]);
                    assert(lex_le(xv, old_out[j - 1]));
                    lemma_lex_transitive(old_out[i], xv, old_out[j - 1]);
                } else if i == p {
                    assert(new_out[j] == old_out[j - 1]);
                    assert(lex_le(xv, old_out[j - 1]));
                } else {
                    assert(new_out[i] == old_out[i - 1]);
                    assert(new_out[j] == old_out[j - 1]);
                }
            }
        }
        out.insert(p, x);
        proof {
            assert(byte_views(out@) =~= old_out.insert(p as int, xv));
            vstd::seq_lib::to_multiset_insert(old_out, p as int, xv);
            assert(byte_views(out@).to_multiset() == old_out.to_multiset().insert(xv));
            byte_views(rest@).to_multiset_ensures();
            assert(old_rest == byte_views(rest@).push(xv));
            assert(old_rest.to_multiset() == byte_views(rest@).to_multiset().insert(xv));
            broadcast use vstd::multiset::group_multiset_axioms;
            assert(byte_views(out@).to_multiset().add(byte_views(rest@).to_multiset()) =~= old_out.to_multiset().add(old_rest.to_multiset()));
        }
    }
    proof {
        assert(byte_views(rest@) =~= Seq::<Seq<u8>>::empty());
        assert(byte_views(out@).to_multiset() =~= orig.to_multiset());
        orig.lemma_sort_by_ensures(byte_order());
        lemma_sorted_unique(byte_views(out@), orig.sort_by(byte_order()), byte_order());
    }
    out
}

/// The byte strings joined with newlines.
fn join_lines(parts: &Vec<Vec<u8>>) -> (r: Vec<u8>)
    ensures
        r@ == joined(byte_views(parts@)),
{
    let ghost all = byte_views(parts@);
    let mut out: Vec<u8> = Vec::new();
    let mut i: usize = 0;
    proof {
        assert(all.take(0) =~= Seq::<Seq<u8>>::empty());
    }
    while i < parts.len()
        invariant
            i <= parts@.len(),
            all == byte_views(parts@),
            out@ == joined(all.take(i as int)),
        decreases parts@.len() - i,
    {
        let ghost before = out@;
        if i > 0 {
            out.push(10u8);
        }
        let part = &parts[i];
        let mut k: usize = 0;
        while k < part.len()
            invariant
                k <= part@.len(),
                out@ == (if i > 0 {
                    before + seq![10u8]
                } else {
                    before
                }) + part@.take(k as int),
            decreases part@.len() - k,
        {
            out.push(part[k]);
            proof {
                assert(part@.take(k + 1) =~= part@.take(k as int).push(part@[k as int]));
            }
            k = k + 1;
        }
        proof {
            assert(part@.take(k as int) =~= part@);
            assert(all[i as int] == part@);
            let t = all.take(i + 1);
            assert(t.drop_last() =~= all.take(i as int));
            if i == 0 {
                assert(before =~= Seq::<u8>::empty());
                assert(out@ =~= t[0]);
            }
        }
        i = i + 1;
    }
    proof {
        assert(all.take(i as int) =~= all);
    }
    out
}

/// The fingerprint of a text capture.
pub fn fingerprint_text(text: &str) -> (f: String)
    ensures
        f@ == text_fingerprint(text@),
{
    let h = hash_bytes(text.as_bytes());
    let mut f = String::from_str("text:");
    proof {
        reveal_strlit("text:");
        assert(f@ =~= seq!['t', 'e', 'x', 't', ':']);
    }
    push_decimal(&mut f, h);
    f
}

/// The fingerprint of an image capture.
pub fn fingerprint_bytes(bytes: &[u8]) -> (f: String)
    ensures
        f@ == bytes_fingerprint(bytes@),
{
    let h = hash_bytes(bytes);
    let mut f = String::from_str("image:");
    proof {
        reveal_strlit("image:");
        assert(f@ =~= seq!['i', 'm', 'a', 'g', 'e', ':']);
    }
    push_decimal(&mut f, h);
    f
}

/// The fingerprint of a file-list capture: it does not depend on the order of the paths.
pub fn fingerprint_paths(paths: &[String]) -> (f: String)
    ensures
        f@ == paths_fingerprint(string_views(paths@)),
{
    let mut normalized: Vec<Vec<u8>> = Vec::new();
    let mut i: usize = 0;
    while i < paths.len()
        invariant
            i <= paths@.len(),
            byte_views(normalized@) == path_bytes(string_views(paths@)).take(i as int),
        decreases paths@.len() - i,
    {
        let b = paths[i].as_str().as_bytes_vec();
        let ghost before = byte_views(normalized@);
        proof {
            assert(b@ == encode_utf8(paths@[i as int]@));
            assert(path_bytes(string_views(paths@))[i as int] == encode_utf8(paths@[i as int]@));
        }
        normalized.push(b);
        proof {
            let all = path_bytes(string_views(paths@));
            assert(byte_views(normalized@) =~= before.push(b@));
            assert(all.take(i + 1) =~= all.take(i as int).push(all[i as int]));
        }
        i = i + 1;
    }
    proof {
        assert(path_bytes(string_views(paths@)).take(i as int) =~= path_bytes(string_views(paths@)));
    }
    let sorted = sort_byte_strings(normalized);
    let line = join_lines(&sorted);
    let h = hash_bytes(line.as_slice());
    let mut f = String::from_str("files:");
    proof {
        reveal_strlit("files:");
        assert(f@ =~= seq!['f', 'i', 'l', 'e', 's', ':']);
    }
    push_decimal(&mut f, h);
    f
}

/// The fingerprint of a file list does not depend on the order in which the
/// paths come: two lists with the same paths, each as often, have the same one.
pub proof fn law_paths_fingerprint_ignores_order(a: Seq<Seq<char>>, b: Seq<Seq<char>>)
    requires
        a.to_multiset() == b.to_multiset(),
    ensures
        paths_fingerprint(a) == paths_fingerprint(b),
{
    lemma_map_multiset(a, b, |p: Seq<char>| encode_utf8(p));
    let pa = path_bytes(a);
    let pb = path_bytes(b);
    lemma_byte_order_total();
    pa.lemma_sort_by_ensures(byte_order());
    pb.lemma_sort_by_ensures(byte_order());
    lemma_sorted_unique(pa.sort_by(byte_order()), pb.sort_by(byte_order()), byte_order());
}

} // verus!
