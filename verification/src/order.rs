//! Stable ordering by integer sort keys.
//!
//! Every ordering in the library (search results, browse lists) is expressed
//! as a sequence of integers per item, compared lexicographically. A stable
//! sort is the same as a strict sort on the key followed by the item's
//! original position, which is what [`sort_positions`] computes.

use vstd::prelude::*;
use crate::text::{chars_of, eq_lit, split_char, split_on, vecs_view};

verus! {

/// Strict lexicographic order on integer sequences; a proper prefix is smaller.
pub open spec fn lex_lt(a: Seq<int>, b: Seq<int>) -> bool
    decreases a.len(),
{
    if a.len() == 0 {
        b.len() > 0
    } else if b.len() == 0 {
        false
    } else if a[0] != b[0] {
        a[0] < b[0]
    } else {
        lex_lt(a.drop_first(), b.drop_first())
    }
}

/// No sequence is below itself.
pub proof fn lemma_lex_irreflexive(a: Seq<int>)
    ensures
        !lex_lt(a, a),
    decreases a.len(),
{
    if a.len() > 0 {
        lemma_lex_irreflexive(a.drop_first());
    }
}

/// The order is transitive.
pub proof fn lemma_lex_transitive(a: Seq<int>, b: Seq<int>, c: Seq<int>)
    requires
        lex_lt(a, b),
        lex_lt(b, c),
    ensures
        lex_lt(a, c),
    decreases a.len(),
{
    if a.len() > 0 && b.len() > 0 && c.len() > 0 && a[0] == b[0] && b[0] == c[0] {
        lemma_lex_transitive(a.drop_first(), b.drop_first(), c.drop_first());
    }
}

/// Two different sequences are ordered one way or the other.
pub proof fn lemma_lex_total(a: Seq<int>, b: Seq<int>)
    requires
        a != b,
    ensures
        lex_lt(a, b) || lex_lt(b, a),
    decreases a.len(),
{
    if a.len() == 0 {
        assert(b.len() > 0) by {
            if b.len() == 0 {
                assert(a =~= b);
            }
        }
    } else if b.len() > 0 && a[0] == b[0] {
        if a.drop_first() == b.drop_first() {
            assert(a =~= seq![a[0]] + a.drop_first());
            assert(b =~= seq![b[0]] + b.drop_first());
        }
        lemma_lex_total(a.drop_first(), b.drop_first());
    }
}

/// Comparing sequences that agree on their first `i` elements comes down to
/// comparing what follows.
pub proof fn lemma_lex_common_prefix(a: Seq<int>, b: Seq<int>, i: int)
    requires
        0 <= i <= a.len(),
        i <= b.len(),
        a.take(i) == b.take(i),
    ensures
        lex_lt(a, b) == lex_lt(a.skip(i), b.skip(i)),
    decreases i,
{
    if i > 0 {
        assert(a[0] == a.take(i)[0]);
        assert(b[0] == b.take(i)[0]);
        assert(a.drop_first().take(i - 1) =~= a.take(i).drop_first());
        assert(b.drop_first().take(i - 1) =~= b.take(i).drop_first());
        lemma_lex_common_prefix(a.drop_first(), b.drop_first(), i - 1);
        assert(a.drop_first().skip(i - 1) =~= a.skip(i));
        assert(b.drop_first().skip(i - 1) =~= b.skip(i));
    } else {
        assert(a.skip(0) =~= a);
        assert(b.skip(0) =~= b);
    }
}

/// The integers of an exec key.
pub open spec fn key_view(k: Seq<i128>) -> Seq<int> {
    k.map_values(|x: i128| x as int)
}

/// The integers of several exec keys.
pub open spec fn keys_view(ks: Seq<Vec<i128>>) -> Seq<Seq<int>> {
    ks.map_values(|k: Vec<i128>| key_view(k@))
}

/// Item `k`'s key followed by its position: no two items tie on it.
pub open spec fn tagged(keys: Seq<Seq<int>>, k: int) -> Seq<int> {
    keys[k].push(k)
}

/// `p` lists each position of `keys` once, in strictly increasing order of
/// tagged key: the order a stable sort by `keys` produces.
pub open spec fn is_sorting_permutation(keys: Seq<Seq<int>>, p: Seq<int>) -> bool {
    &&& p.len() == keys.len()
    &&& forall|k: int| 0 <= k < p.len() ==> 0 <= #[trigger] p[k] < keys.len()
    &&& forall|k: int, l: int| 0 <= k < l < p.len() ==> #[trigger] p[k] != #[trigger] p[l]
    &&& forall|k: int, l: int|
        0 <= k < l < p.len() ==> lex_lt(tagged(keys, #[trigger] p[k]), tagged(keys, #[trigger] p[l]))
}

/// `out` is `items` stably sorted by `keys`.
pub open spec fn arranged<T>(out: Seq<T>, items: Seq<T>, keys: Seq<Seq<int>>) -> bool {
    exists|p: Seq<int>|
        {
            &&& is_sorting_permutation(keys, p)
            &&& #[trigger] p.len() == out.len()
            &&& forall|k: int| 0 <= k < out.len() ==> out[k] == items[p[k]]
        }
}

/// In a strict lexicographic comparison of non-empty sequences, the first
/// elements are in order.
pub proof fn lemma_lex_head(a: Seq<int>, b: Seq<int>)
    requires
        lex_lt(a, b),
        a.len() > 0,
        b.len() > 0,
    ensures
        a[0] <= b[0],
{
}

/// When the first elements tie, the second elements are in order.
pub proof fn lemma_lex_second(a: Seq<int>, b: Seq<int>)
    requires
        lex_lt(a, b),
        a.len() > 1,
        b.len() > 1,
        a[0] == b[0],
    ensures
        a[1] <= b[1],
{
    assert(a.drop_first()[0] == a[1]);
    assert(b.drop_first()[0] == b[1]);
    assert(lex_lt(a.drop_first(), b.drop_first()));
    lemma_lex_head(a.drop_first(), b.drop_first());
}

/// Sorted output elements come from the input at the permutation's positions,
/// and earlier outputs have strictly smaller tagged keys.
pub proof fn lemma_arranged_pair<T>(out: Seq<T>, items: Seq<T>, keys: Seq<Seq<int>>, k: int, l: int)
    requires
        arranged(out, items, keys),
        keys.len() == items.len(),
        0 <= k < l < out.len(),
    ensures
        exists|a: int, b: int|
            0 <= a < items.len() && 0 <= b < items.len() && a != b && out[k] == items[a] && out[l] == items[b]
                && lex_lt(tagged(keys, a), tagged(keys, b)),
{
    let p = choose|p: Seq<int>|
        {
            &&& is_sorting_permutation(keys, p)
            &&& #[trigger] p.len() == out.len()
            &&& forall|k: int| 0 <= k < out.len() ==> out[k] == items[p[k]]
        };
    assert(0 <= p[k] < keys.len());
    assert(0 <= p[l] < keys.len());
    assert(p[k] != p[l]);
    assert(lex_lt(tagged(keys, p[k]), tagged(keys, p[l])));
    assert(out[k] == items[p[k]] && out[l] == items[p[l]]);
}

/// Sorting keeps the number of items and takes every output from the input.
pub proof fn lemma_arranged_from_input<T>(out: Seq<T>, items: Seq<T>, keys: Seq<Seq<int>>)
    requires
        arranged(out, items, keys),
        keys.len() == items.len(),
    ensures
        out.len() == items.len(),
        forall|k: int| 0 <= k < out.len() ==> items.contains(#[trigger] out[k]),
{
    let p = choose|p: Seq<int>|
        {
            &&& is_sorting_permutation(keys, p)
            &&& #[trigger] p.len() == out.len()
            &&& forall|k: int| 0 <= k < out.len() ==> out[k] == items[p[k]]
        };
    assert(is_sorting_permutation(keys, p));
    assert(p.len() == out.len());
    assert forall|k: int| 0 <= k < out.len() implies items.contains(#[trigger] out[k]) by {
        assert(0 <= p[k] < keys.len());
        assert(out[k] == items[p[k]]);
    }
}

/// The positions of a `usize` vector as integers.
pub open spec fn positions_view(p: Seq<usize>) -> Seq<int> {
    p.map_values(|x: usize| x as int)
}

/// Lexicographic comparison of two exec keys.
pub fn key_less(a: &Vec<i128>, b: &Vec<i128>) -> (r: bool)
    ensures
        r == lex_lt(key_view(a@), key_view(b@)),
{
    let ghost ka = key_view(a@);
    let ghost kb = key_view(b@);
    let mut i: usize = 0;
    while i < a.len() && i < b.len()
        invariant
            i <= a.len(),
            i <= b.len(),
            ka == key_view(a@),
            kb == key_view(b@),
            ka.take(i as int) == kb.take(i as int),
        decreases a.len() - i,
    {
        if a[i] != b[i] {
            proof {
                lemma_lex_common_prefix(ka, kb, i as int);
                assert(ka.skip(i as int)[0] == ka[i as int]);
                assert(kb.skip(i as int)[0] == kb[i as int]);
            }
            return a[i] < b[i];
        }
        proof {
            assert(ka.take(i + 1) =~= ka.take(i as int).push(ka[i as int]));
            assert(kb.take(i + 1) =~= kb.take(i as int).push(kb[i as int]));
        }
        i += 1;
    }
    proof {
        lemma_lex_common_prefix(ka, kb, i as int);
    }
    i < b.len()
}

/// A copy of an exec key with a position appended.
fn tag_key(k: &Vec<i128>, pos: usize) -> (out: Vec<i128>)
    ensures
        key_view(out@) == key_view(k@).push(pos as int),
{
    let mut out: Vec<i128> = Vec::new();
    let mut i: usize = 0;
    while i < k.len()
        invariant
            i <= k.len(),
            out.len() == i,
            key_view(out@) == key_view(k@).take(i as int),
        decreases k.len() - i,
    {
        let ghost before = out@;
        out.push(k[i]);
        proof {
            assert(out@ =~= before.push(k@[i as int]));
            assert forall|m: int| 0 <= m <= i implies #[trigger] key_view(out@)[m] == key_view(k@).take(i + 1)[m] by {
                if m < i {
                    assert(key_view(before)[m] == key_view(k@).take(i as int)[m]);
                    assert(out@[m] == before[m]);
                } else {
                    assert(out@[m] == k@[m]);
                }
            }
            assert(key_view(out@) =~= key_view(k@).take(i + 1));
        }
        i += 1;
    }
    let tag = pos as i128;
    out.push(tag);
    proof {
        assert(tag as int == pos as int);
        assert(key_view(k@).take(k.len() as int) =~= key_view(k@));
        assert(key_view(out@) =~= key_view(k@).push(pos as int));
    }
    out
}

/// Tagged keys of distinct positions differ.
proof fn lemma_tagged_distinct(keys: Seq<Seq<int>>, x: int, y: int)
    requires
        x != y,
    ensures
        tagged(keys, x) != tagged(keys, y),
{
    if tagged(keys, x) == tagged(keys, y) {
        assert(tagged(keys, x).last() == x);
        assert(tagged(keys, y).last() == y);
    }
}

/// The order of positions that sorts items stably by their keys.
pub fn sort_positions(keys: &Vec<Vec<i128>>) -> (p: Vec<usize>)
    requires
        keys.len() < i128::MAX,
    ensures
        is_sorting_permutation(keys_view(keys@), positions_view(p@)),
{
    let ghost ks = keys_view(keys@);
    let n = keys.len();
    let mut tks: Vec<Vec<i128>> = Vec::new();
    let mut t: usize = 0;
    while t < n
        invariant
            n == keys.len(),
            n < i128::MAX,
            t <= n,
            ks == keys_view(keys@),
            tks.len() == t,
            forall|m: int| 0 <= m < t ==> #[trigger] key_view(tks@[m]@) == tagged(ks, m),
        decreases n - t,
    {
        let tk = tag_key(&keys[t], t);
        tks.push(tk);
        t += 1;
    }
    let mut p: Vec<usize> = Vec::new();
    let mut i: usize = 0;
    while i < n
        invariant
            n == keys.len(),
            i <= n,
            ks == keys_view(keys@),
            tks.len() == n,
            forall|m: int| 0 <= m < n ==> #[trigger] key_view(tks@[m]@) == tagged(ks, m),
            p.len() == i,
            forall|k: int| 0 <= k < p.len() ==> #[trigger] p@[k] < i,
            forall|k: int, l: int|
                0 <= k < l < p.len() ==> lex_lt(
                    tagged(ks, #[trigger] p@[k] as int),
                    tagged(ks, #[trigger] p@[l] as int),
                ),
        decreases n - i,
    {
        let mut j: usize = 0;
        while j < p.len() && key_less(&tks[p[j]], &tks[i])
            invariant
                n == keys.len(),
                i < n,
                j <= p.len(),
                tks.len() == n,
                forall|m: int| 0 <= m < n ==> #[trigger] key_view(tks@[m]@) == tagged(ks, m),
                p.len() == i,
                forall|k: int| 0 <= k < p.len() ==> #[trigger] p@[k] < i,
                forall|m: int| 0 <= m < j ==> lex_lt(tagged(ks, #[trigger] p@[m] as int), tagged(ks, i as int)),
            decreases p.len() - j,
        {
            j += 1;
        }
        proof {
            if j < p.len() {
                let pj = p@[j as int] as int;
                lemma_tagged_distinct(ks, pj, i as int);
                lemma_lex_total(tagged(ks, pj), tagged(ks, i as int));
                assert forall|m: int| j < m < p.len() implies lex_lt(
                    tagged(ks, i as int),
                    tagged(ks, #[trigger] p@[m] as int),
                ) by {
                    lemma_lex_transitive(tagged(ks, i as int), tagged(ks, pj), tagged(ks, p@[m] as int));
                }
            }
        }
        let ghost old_p = p@;
        p.insert(j, i);
        proof {
            assert(p@ =~= old_p.take(j as int).push(i).add(old_p.skip(j as int)));
            assert forall|k: int, l: int| 0 <= k < l < p.len() implies lex_lt(
                tagged(ks, #[trigger] p@[k] as int),
                tagged(ks, #[trigger] p@[l] as int),
            ) by {
                if k < j && l < j {
                    assert(p@[k] == old_p[k] && p@[l] == old_p[l]);
                } else if k < j && l == j {
                    assert(p@[k] == old_p[k]);
                } else if k < j {
                    assert(p@[k] == old_p[k] && p@[l] == old_p[l - 1]);
                } else if k == j {
                    assert(p@[l] == old_p[l - 1]);
                } else {
                    assert(p@[k] == old_p[k - 1] && p@[l] == old_p[l - 1]);
                }
            }
        }
        i += 1;
    }
    proof {
        let pv = positions_view(p@);
        assert forall|k: int, l: int| 0 <= k < l < pv.len() implies #[trigger] pv[k] != #[trigger] pv[l] by {
            if pv[k] == pv[l] {
                lemma_lex_irreflexive(tagged(ks, pv[k]));
            }
        }
        assert forall|k: int, l: int| 0 <= k < l < pv.len() implies lex_lt(
            tagged(ks, #[trigger] pv[k]),
            tagged(ks, #[trigger] pv[l]),
        ) by {
            assert(pv[k] == p@[k] as int && pv[l] == p@[l] as int);
        }
    }
    p
}

// ---------------------------------------------------------------------------
// Key encodings
// ---------------------------------------------------------------------------

/// A text as a key segment: each character's code point plus one, then a
/// terminating zero, so that text order is string order and the segment ends
/// unambiguously.
pub open spec fn text_key(s: Seq<char>) -> Seq<int> {
    s.map_values(|c: char| (c as u32) as int + 1).push(0)
}

/// One path component as a key segment, ordered as `std::path::Component`
/// orders them: root, `.`, `..`, then names. Empty pieces and inner `.` are
/// not components.
pub open spec fn component_key(seg: Seq<char>, first: bool, rooted: bool) -> Seq<int> {
    if seg.len() == 0 {
        seq![]
    } else if seg == seq!['.'] {
        if first && !rooted {
            seq![2]
        } else {
            seq![]
        }
    } else if seg == seq!['.', '.'] {
        seq![3]
    } else {
        seq![4] + text_key(seg)
    }
}

/// The key segments of the pieces of a path split at `/`.
pub open spec fn segments_key(segs: Seq<Seq<char>>, rooted: bool) -> Seq<int>
    decreases segs.len(),
{
    if segs.len() == 0 {
        seq![]
    } else {
        segments_key(segs.drop_last(), rooted) + component_key(segs.last(), segs.len() == 1, rooted)
    }
}

/// A path as a key: component by component, the order of `Path::cmp`.
pub open spec fn path_key(p: Seq<char>) -> Seq<int> {
    let rooted = p.len() > 0 && p[0] == '/';
    (if rooted {
        seq![1]
    } else {
        seq![]
    }) + segments_key(split_on(p, '/'), rooted)
}

/// Append an integer to an exec key.
pub fn push_int(out: &mut Vec<i128>, x: i128)
    ensures
        key_view(final(out)@) == key_view(old(out)@).push(x as int),
{
    out.push(x);
    proof {
        assert(key_view(out@) =~= key_view(old(out)@).push(x as int));
    }
}

/// Append the key segment of a text.
pub fn push_text_key(out: &mut Vec<i128>, s: &str)
    ensures
        key_view(final(out)@) == key_view(old(out)@) + text_key(s@),
{
    let v = chars_of(s);
    push_chars_key(out, &v);
}

/// Append the key segment of a character sequence.
pub fn push_chars_key(out: &mut Vec<i128>, v: &Vec<char>)
    ensures
        key_view(final(out)@) == key_view(old(out)@) + text_key(v@),
{
    let ghost start = key_view(out@);
    let ghost codes = v@.map_values(|c: char| (c as u32) as int + 1);
    let mut i: usize = 0;
    while i < v.len()
        invariant
            i <= v.len(),
            codes == v@.map_values(|c: char| (c as u32) as int + 1),
            key_view(out@) == start + codes.take(i as int),
        decreases v.len() - i,
    {
        let c = v[i];
        let u = c as u32;
        let code = u as i128 + 1;
        push_int(out, code);
        proof {
            assert(code as int == codes[i as int]);
            assert(codes.take(i + 1) =~= codes.take(i as int).push(codes[i as int]));
            assert(key_view(out@) =~= start + codes.take(i + 1));
        }
        i += 1;
    }
    push_int(out, 0);
    proof {
        assert(codes.take(v.len() as int) =~= codes);
        assert(key_view(out@) =~= start + text_key(v@));
    }
}

/// Append the key of a path.
pub fn push_path_key(out: &mut Vec<i128>, p: &str)
    ensures
        key_view(final(out)@) == key_view(old(out)@) + path_key(p@),
{
    let ghost start = key_view(out@);
    let v = chars_of(p);
    let rooted = v.len() > 0 && v[0] == '/';
    if rooted {
        push_int(out, 1);
    }
    let ghost head = key_view(out@);
    proof {
        assert(head =~= start + (if rooted { seq![1int] } else { seq![] }));
    }
    let segs = split_char(&v, '/');
    let ghost sv = vecs_view(segs@);
    let mut i: usize = 0;
    while i < segs.len()
        invariant
            i <= segs.len(),
            sv == vecs_view(segs@),
            sv == split_on(p@, '/'),
            key_view(out@) == head + segments_key(sv.take(i as int), rooted),
        decreases segs.len() - i,
    {
        let seg = &segs[i];
        let ghost before = key_view(out@);
        proof {
            assert(sv[i as int] == seg@);
            reveal_strlit(".");
            reveal_strlit("..");
            assert("."@ =~= seq!['.']);
            assert(".."@ =~= seq!['.', '.']);
        }
        if seg.len() == 0 {
        } else if eq_lit(seg, ".") {
            if i == 0 && !rooted {
                push_int(out, 2);
            }
        } else if eq_lit(seg, "..") {
            push_int(out, 3);
        } else {
            push_int(out, 4);
            push_chars_key(out, seg);
        }
        proof {
            assert(sv.take(i + 1).drop_last() =~= sv.take(i as int));
            assert(key_view(out@) =~= before + component_key(sv[i as int], i == 0, rooted));
        }
        i += 1;
    }
    proof {
        assert(sv.take(segs.len() as int) =~= sv);
    }
}

} // verus!
