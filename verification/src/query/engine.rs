//! The query pipeline: the one place that turns a structured [`Query`] into
//! ranked, filtered results.
//!
//! 1. candidates: every entry of the index, in index order;
//! 2. view: All / Favorites / Recents / a playlist;
//! 3. filters: every structured filter must pass;
//! 4. match: every whitespace-separated term of the text must hit some field
//!    (an empty text matches everything with score 0); the score is the sum
//!    of the terms' scores, the badge field is the best term's field, and the
//!    highlights are the union of the positions of the terms on that field;
//! 5. rank: by the chosen [`Sort`];
//! 6. limit.
//!
//! Steps 1-4 are [`select`], step 5 is [`rank`], step 6 is [`apply_limit`].

use vstd::prelude::*;
use vstd::view::View as ViewTrait;
use crate::index::{term_hit, Index};
use crate::model::{display_name_of, results_view, EntryView, MatchField, MetaView, ResultView, ScriptEntry, SearchResult};
use crate::order::{
    arranged, key_view, keys_view, lemma_arranged_from_input, lemma_arranged_pair, lemma_lex_head, lex_lt,
    path_key, push_int, push_path_key, push_text_key, tagged, text_key,
};
use crate::state::{first_eq, lemma_first_eq_bounds, playlist_index, recents_view, position_of, State, StateView};
use crate::text::{
    ascii_lower_seq, ascii_lowercase, append_lit, chars_of, chars_of_string, contains, contains_chars,
    lowercase_chars, seq_eq, split_whitespace, string_of, strs_view, to_lowercase, trim, trim_chars,
    unicode_lower, vecs_view, words,
};
use super::{risk_label_of, Filter, FilterView, Query, QueryView, RiskLevel, Sort, View, ViewSpec, filters_view};
use super::ranking::{run_age, run_age_of};

verus! {

// ---------------------------------------------------------------------------
// View
// ---------------------------------------------------------------------------

/// Whether the playlist named `name` exists and lists `path`.
pub open spec fn in_playlist(st: StateView, name: Seq<char>, path: Seq<char>) -> bool {
    match playlist_index(st.playlists, name) {
        Some(i) => st.playlists[i].paths.contains(path),
        None => false,
    }
}

/// Whether an entry belongs to a browse view.
pub open spec fn in_view(e: EntryView, v: ViewSpec, st: StateView) -> bool {
    match v {
        ViewSpec::All => true,
        ViewSpec::Favorites => st.favorites.contains(e.path),
        ViewSpec::Recents => exists|k: int| 0 <= k < st.recents.len() && #[trigger] st.recents[k].path == e.path,
        ViewSpec::Playlist(name) => in_playlist(st, name, e.path),
    }
}

fn playlist_has(state: &State, name: &str, path: &str) -> (r: bool)
    ensures
        r == in_playlist(state@, name@, path@),
{
    match state.playlist_named(name) {
        Some(pl) => {
            let found = position_of(&pl.paths, path);
            proof {
                lemma_first_eq_bounds(strs_view(pl.paths@), path@);
            }
            found.is_some()
        },
        None => false,
    }
}

fn recents_have(state: &State, path: &str) -> (r: bool)
    ensures
        r == exists|k: int| 0 <= k < state@.recents.len() && #[trigger] state@.recents[k].path == path@,
{
    let mut i: usize = 0;
    while i < state.recents.len()
        invariant
            i <= state.recents.len(),
            forall|k: int| 0 <= k < i ==> #[trigger] state@.recents[k].path != path@,
        decreases state.recents.len() - i,
    {
        if crate::text::str_eq(state.recents[i].path.as_str(), path) {
            proof {
                assert(state@.recents[i as int].path == path@);
            }
            return true;
        }
        i += 1;
    }
    false
}

fn entry_in_view(entry: &ScriptEntry, view: &View, state: &State) -> (r: bool)
    ensures
        r == in_view(entry@, view@, state@),
{
    match view {
        View::All => true,
        View::Favorites => state.is_favorite(entry.path.as_str()),
        View::Recents => recents_have(state, entry.path.as_str()),
        View::Playlist(name) => playlist_has(state, name.as_str(), entry.path.as_str()),
    }
}

// ---------------------------------------------------------------------------
// Structured filters
// ---------------------------------------------------------------------------

/// Some tag contains `needle`, case ignored (both lowercased).
pub open spec fn has_tag_containing(e: EntryView, needle: Seq<char>) -> bool {
    exists|k: int|
        0 <= k < e.meta.tags.len() && contains(unicode_lower(#[trigger] e.meta.tags[k]), unicode_lower(needle))
}

/// Risk is a `risk:<level>` tag, or the `risk` field naming the level
/// (trimmed, ASCII case ignored).
pub open spec fn has_risk(e: EntryView, level: RiskLevel) -> bool {
    ||| exists|k: int|
        0 <= k < e.meta.tags.len() && unicode_lower(#[trigger] e.meta.tags[k]) == "risk:"@ + risk_label_of(level)
    ||| match e.meta.risk {
        Some(r) => ascii_lower_seq(trim(r)) == ascii_lower_seq(risk_label_of(level)),
        None => false,
    }
}

/// Whether an entry passes one structured filter.
pub open spec fn passes(e: EntryView, f: FilterView, st: StateView) -> bool {
    match f {
        FilterView::Tag(t) => has_tag_containing(e, t),
        FilterView::NotTag(t) => !has_tag_containing(e, t),
        FilterView::Category(c) => match e.meta.category {
            Some(cat) => contains(unicode_lower(cat), unicode_lower(c)),
            None => false,
        },
        FilterView::Lang(l) => e.lang == l,
        FilterView::Favorite => st.favorites.contains(e.path),
        FilterView::Risk(level) => has_risk(e, level),
        FilterView::Playlist(name) => in_playlist(st, name, e.path),
    }
}

/// Category filters match by case-insensitive substring: an entry passes
/// `Category(c)` exactly when it has a category whose lowercase contains the
/// lowercase of `c`. So an entry always passes a filter on its own category,
/// and the answer stays the same when the category or the filter value is
/// replaced by text with the same lowercase.
pub proof fn lemma_category_filter(e: EntryView, c: Seq<char>, st: StateView)
    ensures
        passes(e, FilterView::Category(c), st) <==> (e.meta.category matches Some(cat) && contains(
            unicode_lower(cat),
            unicode_lower(c),
        )),
        e.meta.category matches Some(cat) ==> passes(e, FilterView::Category(cat), st),
        forall|cat2: Seq<char>, c2: Seq<char>|
            e.meta.category matches Some(cat) && unicode_lower(cat2) == unicode_lower(cat) && unicode_lower(c2)
                == unicode_lower(c) ==> passes(
                EntryView { meta: MetaView { category: Some(cat2), ..e.meta }, ..e },
                FilterView::Category(c2),
                st,
            ) == passes(e, FilterView::Category(c), st),
{
    if let Some(cat) = e.meta.category {
        let l = unicode_lower(cat);
        assert(l.subrange(0, l.len() as int) =~= l);
        assert(crate::text::occurs_at(l, l, 0));
    }
}

/// Tag filters match by case-insensitive substring on any tag, and a negated
/// tag filter passes exactly the entries the plain one rejects. An entry
/// always passes a filter on one of its own tags, and never its negation.
pub proof fn lemma_tag_filter(e: EntryView, t: Seq<char>, st: StateView)
    ensures
        passes(e, FilterView::Tag(t), st) <==> exists|k: int|
            0 <= k < e.meta.tags.len() && contains(unicode_lower(#[trigger] e.meta.tags[k]), unicode_lower(t)),
        passes(e, FilterView::NotTag(t), st) <==> !passes(e, FilterView::Tag(t), st),
        forall|k: int| 0 <= k < e.meta.tags.len() ==> passes(e, FilterView::Tag(#[trigger] e.meta.tags[k]), st)
            && !passes(e, FilterView::NotTag(e.meta.tags[k]), st),
{
    assert forall|k: int| 0 <= k < e.meta.tags.len() implies passes(e, FilterView::Tag(#[trigger] e.meta.tags[k]), st)
        && !passes(e, FilterView::NotTag(e.meta.tags[k]), st) by {
        let l = unicode_lower(e.meta.tags[k]);
        assert(l.subrange(0, l.len() as int) =~= l);
        assert(crate::text::occurs_at(l, l, 0));
    }
}

/// Whether an entry passes every filter.
pub open spec fn passes_all(e: EntryView, fs: Seq<FilterView>, st: StateView) -> bool {
    forall|k: int| 0 <= k < fs.len() ==> passes(e, #[trigger] fs[k], st)
}

fn tag_containing(entry: &ScriptEntry, needle: &str) -> (r: bool)
    ensures
        r == has_tag_containing(entry@, needle@),
{
    let nv = chars_of_string(&to_lowercase(needle));
    let mut i: usize = 0;
    while i < entry.meta.tags.len()
        invariant
            i <= entry.meta.tags.len(),
            nv@ == unicode_lower(needle@),
            forall|k: int|
                0 <= k < i ==> !contains(unicode_lower(#[trigger] entry@.meta.tags[k]), unicode_lower(needle@)),
        decreases entry.meta.tags.len() - i,
    {
        let low = to_lowercase(entry.meta.tags[i].as_str());
        let lv = chars_of_string(&low);
        if contains_chars(&lv, &nv) {
            proof {
                assert(entry@.meta.tags[i as int] == entry.meta.tags@[i as int]@);
            }
            return true;
        }
        proof {
            assert(entry@.meta.tags[i as int] == entry.meta.tags@[i as int]@);
        }
        i += 1;
    }
    false
}

fn risk_matches(entry: &ScriptEntry, level: RiskLevel) -> (r: bool)
    ensures
        r == has_risk(entry@, level),
{
    let mut wanted = chars_of("risk:");
    append_lit(&mut wanted, level.label());
    let mut i: usize = 0;
    while i < entry.meta.tags.len()
        invariant
            i <= entry.meta.tags.len(),
            wanted@ == "risk:"@ + risk_label_of(level),
            forall|k: int|
                0 <= k < i ==> unicode_lower(#[trigger] entry@.meta.tags[k]) != "risk:"@ + risk_label_of(level),
        decreases entry.meta.tags.len() - i,
    {
        let low = to_lowercase(entry.meta.tags[i].as_str());
        let lv = chars_of_string(&low);
        proof {
            assert(entry@.meta.tags[i as int] == entry.meta.tags@[i as int]@);
        }
        if seq_eq(&lv, &wanted) {
            return true;
        }
        i += 1;
    }
    match &entry.meta.risk {
        Some(risk) => {
            let t = trim_chars(&chars_of_string(risk));
            let a = ascii_lowercase(&t);
            let b = ascii_lowercase(&chars_of(level.label()));
            seq_eq(&a, &b)
        },
        None => false,
    }
}

fn passes_filter(entry: &ScriptEntry, filter: &Filter, state: &State) -> (r: bool)
    ensures
        r == passes(entry@, filter@, state@),
{
    match filter {
        Filter::Tag(t) => tag_containing(entry, t.as_str()),
        Filter::NotTag(t) => !tag_containing(entry, t.as_str()),
        Filter::Category(c) => match &entry.meta.category {
            Some(cat) => {
                let a = chars_of_string(&to_lowercase(cat.as_str()));
                let b = chars_of_string(&to_lowercase(c.as_str()));
                contains_chars(&a, &b)
            },
            None => false,
        },
        Filter::Lang(l) => entry.lang == *l,
        Filter::Favorite => state.is_favorite(entry.path.as_str()),
        Filter::Risk(level) => risk_matches(entry, *level),
        Filter::Playlist(name) => playlist_has(state, name.as_str(), entry.path.as_str()),
    }
}

fn passes_filters(entry: &ScriptEntry, filters: &Vec<Filter>, state: &State) -> (r: bool)
    ensures
        r == passes_all(entry@, filters_view(filters@), state@),
{
    let ghost fs = filters_view(filters@);
    let mut i: usize = 0;
    while i < filters.len()
        invariant
            i <= filters.len(),
            fs == filters_view(filters@),
            forall|k: int| 0 <= k < i ==> passes(entry@, #[trigger] fs[k], state@),
        decreases filters.len() - i,
    {
        if !passes_filter(entry, &filters[i], state) {
            proof {
                assert(fs[i as int] == filters@[i as int]@);
            }
            return false;
        }
        proof {
            assert(fs[i as int] == filters@[i as int]@);
        }
        i += 1;
    }
    true
}

// ---------------------------------------------------------------------------
// Matching the text, term by term
// ---------------------------------------------------------------------------

/// Every term hits some field of the entry (vacuous for no terms).
pub open spec fn all_terms_hit(e: EntryView, ts: Seq<Seq<char>>) -> bool {
    forall|k: int| 0 <= k < ts.len() ==> #[trigger] term_hit(e, ts[k]) is Some
}

/// The score of a hit (0 for none).
pub open spec fn hit_score(h: Option<(i64, MatchField, Seq<usize>)>) -> int {
    match h {
        Some((s, _, _)) => s as int,
        None => 0,
    }
}

/// The field of a hit.
pub open spec fn hit_field(h: Option<(i64, MatchField, Seq<usize>)>) -> MatchField {
    match h {
        Some((_, f, _)) => f,
        None => MatchField::Name,
    }
}

/// The matched positions of a hit.
pub open spec fn hit_positions(h: Option<(i64, MatchField, Seq<usize>)>) -> Seq<usize> {
    match h {
        Some((_, _, p)) => p,
        None => seq![],
    }
}

/// The sum of the terms' scores.
pub open spec fn total_score(e: EntryView, ts: Seq<Seq<char>>) -> int
    decreases ts.len(),
{
    if ts.len() == 0 {
        0
    } else {
        total_score(e, ts.drop_last()) + hit_score(term_hit(e, ts.last()))
    }
}

/// The score and field of the best term: the first with the highest score.
pub open spec fn best_term(e: EntryView, ts: Seq<Seq<char>>) -> Option<(int, MatchField)>
    decreases ts.len(),
{
    if ts.len() == 0 {
        None
    } else {
        let h = term_hit(e, ts.last());
        match best_term(e, ts.drop_last()) {
            None => Some((hit_score(h), hit_field(h))),
            Some((bs, bf)) => if hit_score(h) > bs {
                Some((hit_score(h), hit_field(h)))
            } else {
                Some((bs, bf))
            },
        }
    }
}

/// The field shown for a match: the best term's field.
pub open spec fn display_field(e: EntryView, ts: Seq<Seq<char>>) -> MatchField {
    match best_term(e, ts) {
        Some((_, f)) => f,
        None => MatchField::Name,
    }
}

/// The positions matched by the first `m` terms whose hit is on field `f`.
pub open spec fn highlight_set(e: EntryView, ts: Seq<Seq<char>>, f: MatchField, m: int) -> Set<usize> {
    Set::new(
        |x: usize|
            exists|k: int|
                0 <= k < m && hit_field(#[trigger] term_hit(e, ts[k])) == f && hit_positions(
                    term_hit(e, ts[k]),
                ).contains(x),
    )
}

/// Each element is smaller than the next.
pub open spec fn strictly_increasing(s: Seq<usize>) -> bool {
    forall|i: int, j: int| 0 <= i < j < s.len() ==> s[i] < s[j]
}

/// `r` is the result of matching entry `e` against the terms `ts`.
pub open spec fn matched_as(r: ResultView, e: EntryView, ts: Seq<Seq<char>>) -> bool {
    &&& r.entry == e
    &&& if ts.len() == 0 {
        &&& r.score == 0
        &&& r.matched_field == MatchField::Name
        &&& r.matched_indices.len() == 0
    } else {
        &&& r.score as int == total_score(e, ts)
        &&& r.matched_field == display_field(e, ts)
        &&& strictly_increasing(r.matched_indices)
        &&& r.matched_indices.to_set() == highlight_set(e, ts, display_field(e, ts), ts.len() as int)
    }
}

/// Add `x` to a strictly increasing vector, keeping it so.
fn insert_sorted(v: &mut Vec<usize>, x: usize)
    requires
        strictly_increasing(old(v)@),
    ensures
        strictly_increasing(final(v)@),
        final(v)@.to_set() == old(v)@.to_set().insert(x),
{
    let mut j: usize = 0;
    while j < v.len() && v[j] < x
        invariant
            j <= v.len(),
            forall|m: int| 0 <= m < j ==> v@[m] < x,
        decreases v.len() - j,
    {
        j += 1;
    }
    if j < v.len() && v[j] == x {
        proof {
            assert(v@.to_set().contains(x)) by {
                assert(v@.contains(x)) by {
                    assert(v@[j as int] == x);
                }
            }
            assert(v@.to_set() =~= v@.to_set().insert(x));
        }
        return;
    }
    let ghost before = v@;
    v.insert(j, x);
    proof {
        assert(v@ =~= before.take(j as int).push(x) + before.skip(j as int));
        assert forall|a: int, b: int| 0 <= a < b < v@.len() implies v@[a] < v@[b] by {
            if b < j {
                assert(v@[a] == before[a] && v@[b] == before[b]);
            } else if b == j {
                assert(v@[a] == before[a]);
            } else if a < j {
                assert(v@[a] == before[a] && v@[b] == before[b - 1]);
                assert(before[j as int] > x);
            } else if a == j {
                assert(v@[b] == before[b - 1]);
                assert(before[j as int] > x);
                if b - 1 > j {
                    assert(before[j as int] < before[b - 1]);
                }
            } else {
                assert(v@[a] == before[a - 1] && v@[b] == before[b - 1]);
            }
        }
        assert forall|y: usize| v@.to_set().contains(y) <==> before.to_set().insert(x).contains(y) by {
            if v@.contains(y) {
                let i = choose|i: int| 0 <= i < v@.len() && #[trigger] v@[i] == y;
                if i < j {
                    assert(before[i] == y);
                } else if i > j {
                    assert(before[i - 1] == y);
                }
            }
            if before.contains(y) {
                let i = choose|i: int| 0 <= i < before.len() && #[trigger] before[i] == y;
                if i < j {
                    assert(v@[i] == y);
                } else {
                    assert(v@[i + 1] == y);
                }
            }
            if y == x {
                assert(v@[j as int] == x);
            }
        }
        assert(v@.to_set() =~= before.to_set().insert(x));
    }
}

/// Match one entry against the terms (see [`matched_as`]); `None` when some
/// term hits no field.
fn match_entry(index: &Index, entry: &ScriptEntry, terms: &Vec<String>) -> (r: Option<SearchResult>)
    requires
        terms.len() <= 0x1_0000_0000,
    ensures
        match r {
            Some(x) => all_terms_hit(entry@, strs_view(terms@)) && matched_as(x@, entry@, strs_view(terms@)),
            None => !all_terms_hit(entry@, strs_view(terms@)),
        },
{
    let ghost ts = strs_view(terms@);
    if terms.len() == 0 {
        let r = SearchResult {
            entry: entry.duplicate(),
            score: 0,
            matched_field: MatchField::Name,
            matched_indices: Vec::new(),
        };
        return Some(r);
    }
    let mut total: i64 = 0;
    let mut best: Option<(i64, MatchField)> = None;
    let mut per: Vec<(MatchField, Vec<usize>)> = Vec::new();
    let mut i: usize = 0;
    while i < terms.len()
        invariant
            ts == strs_view(terms@),
            terms.len() <= 0x1_0000_0000,
            i <= terms.len(),
            forall|m: int| 0 <= m < i ==> #[trigger] term_hit(entry@, ts[m]) is Some,
            per.len() == i,
            forall|m: int|
                0 <= m < i ==> (#[trigger] per@[m]).0 == hit_field(term_hit(entry@, ts[m])) && per@[m].1@
                    == hit_positions(term_hit(entry@, ts[m])),
            total as int == total_score(entry@, ts.take(i as int)),
            -(i * 0x8000_0000) <= total_score(entry@, ts.take(i as int)) <= i * 0x7fff_ffff,
            match best {
                Some((bs, bf)) => best_term(entry@, ts.take(i as int)) == Some((bs as int, bf)),
                None => best_term(entry@, ts.take(i as int)) is None && i == 0,
            },
        decreases terms.len() - i,
    {
        proof {
            assert(ts.take(i + 1).drop_last() =~= ts.take(i as int));
            assert(ts.take(i + 1).last() == ts[i as int]);
            assert(terms@[i as int]@ == ts[i as int]);
        }
        match index.score_term(entry, terms[i].as_str()) {
            None => {
                proof {
                    assert(term_hit(entry@, ts[i as int]) is None);
                }
                return None;
            },
            Some((s, f, idx)) => {
                total = total + s;
                let take = match best {
                    None => true,
                    Some((bs, _)) => s > bs,
                };
                if take {
                    best = Some((s, f));
                }
                let ghost before = per@;
                per.push((f, idx));
                proof {
                    assert(per@ =~= before.push((f, idx)));
                }
            },
        }
        i += 1;
    }
    proof {
        assert(ts.take(terms.len() as int) =~= ts);
    }
    let display = match best {
        Some((_, f)) => f,
        None => MatchField::Name,
    };
    let mut idx: Vec<usize> = Vec::new();
    let mut m: usize = 0;
    proof {
        assert(idx@.to_set() =~= highlight_set(entry@, ts, display, 0));
    }
    while m < per.len()
        invariant
            ts == strs_view(terms@),
            per.len() == terms.len(),
            m <= per.len(),
            forall|k: int|
                0 <= k < per.len() ==> (#[trigger] per@[k]).0 == hit_field(term_hit(entry@, ts[k])) && per@[k].1@
                    == hit_positions(term_hit(entry@, ts[k])),
            strictly_increasing(idx@),
            idx@.to_set() == highlight_set(entry@, ts, display, m as int),
        decreases per.len() - m,
    {
        let ghost base = idx@.to_set();
        if per[m].0 == display {
            let pos = &per[m].1;
            let mut j: usize = 0;
            proof {
                assert(pos@.take(0).to_set() =~= Set::<usize>::empty());
                assert(idx@.to_set() =~= base.union(pos@.take(0).to_set()));
            }
            while j < pos.len()
                invariant
                    j <= pos.len(),
                    strictly_increasing(idx@),
                    idx@.to_set() == base.union(pos@.take(j as int).to_set()),
                decreases pos.len() - j,
            {
                let ghost pre = idx@;
                insert_sorted(&mut idx, pos[j]);
                proof {
                    assert(idx@.to_set() == pre.to_set().insert(pos@[j as int]));
                    assert(pre.to_set() == base.union(pos@.take(j as int).to_set()));
                    assert(pos@.take(j + 1) =~= pos@.take(j as int).push(pos@[j as int]));
                    assert forall|y: usize| pos@.take(j + 1).contains(y) <==> pos@.take(j as int).contains(y) || y == pos@[j as int] by {
                        if pos@.take(j + 1).contains(y) {
                            let q = choose|q: int| 0 <= q < j + 1 && #[trigger] pos@.take(j + 1)[q] == y;
                            if q < j {
                                assert(pos@.take(j as int)[q] == y);
                            }
                        }
                        if pos@.take(j as int).contains(y) {
                            let q = choose|q: int| 0 <= q < j && #[trigger] pos@.take(j as int)[q] == y;
                            assert(pos@.take(j + 1)[q] == y);
                        }
                        if y == pos@[j as int] {
                            assert(pos@.take(j + 1)[j as int] == y);
                        }
                    }
                    assert forall|y: usize| #[trigger] idx@.to_set().contains(y) <==> base.union(pos@.take(j + 1).to_set()).contains(y) by {
                        assert(idx@.to_set().contains(y) == (pre.to_set().contains(y) || y == pos@[j as int]));
                        assert(pos@.take(j + 1).to_set().contains(y) == pos@.take(j + 1).contains(y));
                        assert(pos@.take(j as int).to_set().contains(y) == pos@.take(j as int).contains(y));
                    }
                    assert(idx@.to_set() =~= base.union(pos@.take(j + 1).to_set()));
                }
                j += 1;
            }
            proof {
                assert(pos@.take(pos.len() as int) =~= pos@);
                assert forall|x: usize| idx@.to_set().contains(x) <==> highlight_set(entry@, ts, display, m + 1).contains(x) by {
                    if highlight_set(entry@, ts, display, m + 1).contains(x) {
                        let k = choose|k: int|
                            0 <= k < m + 1 && hit_field(#[trigger] term_hit(entry@, ts[k])) == display
                                && hit_positions(term_hit(entry@, ts[k])).contains(x);
                        if k < m {
                            assert(highlight_set(entry@, ts, display, m as int).contains(x));
                        } else {
                            assert(per@[k].1@ == hit_positions(term_hit(entry@, ts[k])));
                        }
                    }
                    if base.contains(x) {
                        let k = choose|k: int|
                            0 <= k < m && hit_field(#[trigger] term_hit(entry@, ts[k])) == display
                                && hit_positions(term_hit(entry@, ts[k])).contains(x);
                        assert(highlight_set(entry@, ts, display, m + 1).contains(x));
                    }
                    if pos@.contains(x) {
                        assert(per@[m as int].1@ == hit_positions(term_hit(entry@, ts[m as int])));
                        assert(highlight_set(entry@, ts, display, m + 1).contains(x));
                    }
                }
                assert(idx@.to_set() =~= highlight_set(entry@, ts, display, m + 1));
            }
        } else {
            proof {
                assert forall|x: usize| base.contains(x) <==> highlight_set(entry@, ts, display, m + 1).contains(x) by {
                    if highlight_set(entry@, ts, display, m + 1).contains(x) {
                        let k = choose|k: int|
                            0 <= k < m + 1 && hit_field(#[trigger] term_hit(entry@, ts[k])) == display
                                && hit_positions(term_hit(entry@, ts[k])).contains(x);
                        assert(k != m);
                        assert(highlight_set(entry@, ts, display, m as int).contains(x));
                    }
                    if base.contains(x) {
                        let k = choose|k: int|
                            0 <= k < m && hit_field(#[trigger] term_hit(entry@, ts[k])) == display
                                && hit_positions(term_hit(entry@, ts[k])).contains(x);
                        assert(highlight_set(entry@, ts, display, m + 1).contains(x));
                    }
                }
                assert(base =~= highlight_set(entry@, ts, display, m + 1));
            }
        }
        m += 1;
    }
    let r = SearchResult { entry: entry.duplicate(), score: total, matched_field: display, matched_indices: idx };
    Some(r)
}

// ---------------------------------------------------------------------------
// Selection: view, filters, match
// ---------------------------------------------------------------------------

/// Whether an entry survives the view, the filters and the text.
pub open spec fn survives(e: EntryView, q: QueryView, st: StateView) -> bool {
    &&& in_view(e, q.view, st)
    &&& passes_all(e, q.filters, st)
    &&& all_terms_hit(e, words(q.text))
}

/// The entries that survive, in index order.
pub open spec fn selected(es: Seq<EntryView>, q: QueryView, st: StateView) -> Seq<EntryView>
    decreases es.len(),
{
    if es.len() == 0 {
        seq![]
    } else if survives(es.last(), q, st) {
        selected(es.drop_last(), q, st).push(es.last())
    } else {
        selected(es.drop_last(), q, st)
    }
}

/// Steps 1-4 of the pipeline: the matching results, in index order, each
/// scored and highlighted as [`matched_as`] says. A result only ever comes
/// from an entry that is in the view, passes every filter and matches every
/// term.
pub fn select(index: &Index, state: &State, query: &Query) -> (r: Vec<SearchResult>)
    requires
        words(query@.text).len() <= 0x1_0000_0000,
    ensures
        r.len() == selected(index@, query@, state@).len(),
        forall|k: int|
            0 <= k < r.len() ==> matched_as(
                #[trigger] r@[k]@,
                selected(index@, query@, state@)[k],
                words(query@.text),
            ),
{
    let text = chars_of(query.text.as_str());
    let wv = split_whitespace(&text);
    let mut terms: Vec<String> = Vec::new();
    let mut t: usize = 0;
    while t < wv.len()
        invariant
            t <= wv.len(),
            vecs_view(wv@) == words(query@.text),
            terms.len() == t,
            forall|k: int| 0 <= k < t ==> #[trigger] terms@[k]@ == vecs_view(wv@)[k],
        decreases wv.len() - t,
    {
        terms.push(string_of(&wv[t]));
        t += 1;
    }
    proof {
        assert(strs_view(terms@) =~= words(query@.text));
    }
    let ghost ts = words(query@.text);
    let entries = index.entries();
    proof {
        assert forall|k: int| 0 <= k < entries@.len() implies #[trigger] entries@[k]@ == index@[k] by {
            assert(crate::model::entries_view(entries@)[k] == entries@[k]@);
        }
    }
    let mut out: Vec<SearchResult> = Vec::new();
    let mut i: usize = 0;
    while i < entries.len()
        invariant
            i <= entries.len(),
            entries_view_eq(entries@, index@),
            strs_view(terms@) == ts,
            ts == words(query@.text),
            terms.len() <= 0x1_0000_0000,
            out.len() == selected(index@.take(i as int), query@, state@).len(),
            forall|k: int|
                0 <= k < out.len() ==> matched_as(
                    #[trigger] out@[k]@,
                    selected(index@.take(i as int), query@, state@)[k],
                    ts,
                ),
        decreases entries.len() - i,
    {
        let e = &entries[i];
        proof {
            assert(index@.take(i + 1).drop_last() =~= index@.take(i as int));
            assert(index@.take(i + 1).last() == e@);
        }
        if entry_in_view(e, &query.view, state) && passes_filters(e, &query.filters, state) {
            match match_entry(index, e, &terms) {
                Some(res) => {
                    out.push(res);
                },
                None => {},
            }
        }
        i += 1;
    }
    proof {
        assert(index@.take(entries.len() as int) =~= index@);
    }
    out
}

/// A slice of entries views as the index does.
pub open spec fn entries_view_eq(s: Seq<ScriptEntry>, es: Seq<EntryView>) -> bool {
    &&& s.len() == es.len()
    &&& forall|k: int| 0 <= k < s.len() ==> #[trigger] s[k]@ == es[k]
}

// ---------------------------------------------------------------------------
// Ranking
// ---------------------------------------------------------------------------

/// What ranking needs about one result besides the result itself: its file's
/// modification time (Unix seconds, 0 when unknown), and order-preserving
/// integer images of its hybrid score and of its raw frecency (a larger image
/// means a larger score).
#[derive(Debug, Clone, Copy, PartialEq, Eq, Structural)]
pub struct RankInput {
    pub mtime: u64,
    pub score_order: i64,
    pub frecency_order: i64,
}

/// The sort key of a result under an ordering.
///
/// - Auto: hybrid score (higher first), raw frecency (higher first), display
///   name, modification time (newer first), path.
/// - Name: display name, path.
/// - RecentlyRun: seconds since last run (never run last), display name.
/// - Modified: modification time (newer first), display name.
pub open spec fn rank_key(r: ResultView, sort: Sort, st: StateView, now: u64, inp: RankInput) -> Seq<int> {
    let name = text_key(display_name_of(r.entry));
    match sort {
        Sort::Auto => seq![-(inp.score_order as int), -(inp.frecency_order as int)] + name + seq![
            -(inp.mtime as int),
        ] + path_key(r.entry.path),
        Sort::Name => name + path_key(r.entry.path),
        Sort::RecentlyRun => seq![run_age_of(st.recents, r.entry.path, now) as int] + name,
        Sort::Modified => seq![-(inp.mtime as int)] + name,
    }
}

/// The sort keys of all results.
pub open spec fn rank_keys(rs: Seq<ResultView>, sort: Sort, st: StateView, now: u64, inps: Seq<RankInput>) -> Seq<Seq<int>> {
    Seq::new(rs.len(), |k: int| rank_key(rs[k], sort, st, now, inps[k]))
}

fn rank_key_of(r: &SearchResult, sort: Sort, state: &State, now: u64, inp: RankInput) -> (k: Vec<i128>)
    ensures
        key_view(k@) == rank_key(r@, sort, state@, now, inp),
{
    let mut k: Vec<i128> = Vec::new();
    let name = r.entry.display_name();
    match sort {
        Sort::Auto => {
            push_int(&mut k, -(inp.score_order as i128));
            push_int(&mut k, -(inp.frecency_order as i128));
            push_text_key(&mut k, name);
            push_int(&mut k, -(inp.mtime as i128));
            push_path_key(&mut k, r.entry.path.as_str());
        },
        Sort::Name => {
            push_text_key(&mut k, name);
            push_path_key(&mut k, r.entry.path.as_str());
        },
        Sort::RecentlyRun => {
            push_int(&mut k, run_age(&state.recents, r.entry.path.as_str(), now) as i128);
            push_text_key(&mut k, name);
        },
        Sort::Modified => {
            push_int(&mut k, -(inp.mtime as i128));
            push_text_key(&mut k, name);
        },
    }
    proof {
        assert(key_view(k@) =~= rank_key(r@, sort, state@, now, inp));
    }
    k
}

/// Step 5: order results stably by their [`rank_key`]s; `inputs[k]` belongs
/// to `results[k]`.
pub fn rank(results: &Vec<SearchResult>, sort: Sort, state: &State, now: u64, inputs: &Vec<RankInput>) -> (out: Vec<SearchResult>)
    requires
        inputs.len() == results.len(),
    ensures
        arranged(
            results_view(out@),
            results_view(results@),
            rank_keys(results_view(results@), sort, state@, now, inputs@),
        ),
{
    let mut keys: Vec<Vec<i128>> = Vec::new();
    let mut i: usize = 0;
    while i < results.len()
        invariant
            i <= results.len(),
            inputs.len() == results.len(),
            keys.len() == i,
            forall|m: int|
                0 <= m < i ==> #[trigger] key_view(keys@[m]@) == rank_key(
                    results@[m]@,
                    sort,
                    state@,
                    now,
                    inputs@[m],
                ),
        decreases results.len() - i,
    {
        keys.push(rank_key_of(&results[i], sort, state, now, inputs[i]));
        i += 1;
    }
    proof {
        assert(keys_view(keys@) =~= rank_keys(results_view(results@), sort, state@, now, inputs@));
    }
    crate::index::sort_by_keys(results, &keys)
}

/// Step 6: keep at most `limit` results (all of them when `None`).
pub fn apply_limit(results: Vec<SearchResult>, limit: Option<usize>) -> (out: Vec<SearchResult>)
    ensures
        match limit {
            Some(n) => if n < results.len() {
                out@ == results@.take(n as int)
            } else {
                out@ == results@
            },
            None => out@ == results@,
        },
{
    let mut out = results;
    match limit {
        Some(n) => {
            out.truncate(n);
        },
        None => {},
    }
    out
}

/// `s` cut to at most `limit` elements (all of them when `None`).
pub open spec fn limited<A>(s: Seq<A>, limit: Option<usize>) -> Seq<A> {
    match limit {
        Some(n) => if n < s.len() {
            s.take(n as int)
        } else {
            s
        },
        None => s,
    }
}

/// What [`run`] gives for a query: the selected matches of [`select`], each
/// paired with what `rank_input` returned for it (given the state, the clock
/// and the result), stably sorted by [`rank_key`], then cut to the limit.
pub open spec fn ran_as<F: Fn(&State, u64, &SearchResult) -> RankInput>(
    out: Seq<SearchResult>,
    index: &Index,
    query: QueryView,
    state: &State,
    now: u64,
    rank_input: F,
) -> bool {
    exists|sel: Seq<SearchResult>, inps: Seq<RankInput>, ranked: Seq<ResultView>|
        {
            &&& sel.len() == selected(index@, query, state@).len()
            &&& forall|k: int|
                0 <= k < sel.len() ==> matched_as(
                    #[trigger] sel[k]@,
                    selected(index@, query, state@)[k],
                    words(query.text),
                )
            &&& inps.len() == sel.len()
            &&& forall|k: int| 0 <= k < sel.len() ==> rank_input.ensures((state, now, &sel[k]), #[trigger] inps[k])
            &&& arranged(ranked, results_view(sel), rank_keys(results_view(sel), query.sort, state@, now, inps))
            &&& results_view(out) == limited(ranked, query.limit)
        }
}

/// The whole pipeline: select, rank, limit. `rank_input` supplies what
/// ranking needs beyond the result itself (file modification time and the
/// order images of the hybrid score and raw frecency), given the state and
/// `now`, the current time in Unix seconds.
///
/// The results are as [`ran_as`] says. In particular no result comes from an
/// entry outside the view, failing a filter, or missing a term, whatever
/// ranking says of it.
pub fn run<F: Fn(&State, u64, &SearchResult) -> RankInput>(
    index: &Index,
    state: &State,
    query: &Query,
    now: u64,
    rank_input: F,
) -> (out: Vec<SearchResult>)
    requires
        words(query@.text).len() <= 0x1_0000_0000,
        forall|st: &State, t: u64, r: &SearchResult| rank_input.requires((st, t, r)),
    ensures
        ran_as(out@, index, query@, state, now, rank_input),
{
    let sel = select(index, state, query);
    let mut inputs: Vec<RankInput> = Vec::new();
    let mut i: usize = 0;
    while i < sel.len()
        invariant
            i <= sel.len(),
            forall|st: &State, t: u64, r: &SearchResult| rank_input.requires((st, t, r)),
            inputs.len() == i,
            forall|k: int| 0 <= k < i ==> rank_input.ensures((state, now, &sel@[k]), #[trigger] inputs@[k]),
        decreases sel.len() - i,
    {
        let inp = rank_input(state, now, &sel[i]);
        inputs.push(inp);
        i += 1;
    }
    let ranked = rank(&sel, query.sort, state, now, &inputs);
    let out = apply_limit(ranked, query.limit);
    proof {
        let rv = results_view(ranked@);
        assert(results_view(out@) =~= limited(rv, query@.limit));
        assert(ran_as(out@, index, query@, state, now, rank_input)) by {
            let sq = sel@;
            let iq = inputs@;
            assert(forall|k: int| 0 <= k < sq.len() ==> rank_input.ensures((state, now, &sq[k]), #[trigger] iq[k]));
        }
    }
    out
}

// ---------------------------------------------------------------------------
// Laws
// ---------------------------------------------------------------------------

/// Every selected entry is an entry of the index that is in the view, passes
/// every filter and matches every term of the text.
pub proof fn lemma_selected_survive(es: Seq<EntryView>, q: QueryView, st: StateView)
    ensures
        forall|k: int|
            0 <= k < selected(es, q, st).len() ==> survives(#[trigger] selected(es, q, st)[k], q, st)
                && es.contains(selected(es, q, st)[k]),
    decreases es.len(),
{
    if es.len() > 0 {
        lemma_selected_survive(es.drop_last(), q, st);
        let prev = selected(es.drop_last(), q, st);
        assert forall|k: int| 0 <= k < selected(es, q, st).len() implies survives(
            #[trigger] selected(es, q, st)[k],
            q,
            st,
        ) && es.contains(selected(es, q, st)[k]) by {
            if k < prev.len() {
                assert(selected(es, q, st)[k] == prev[k]);
                let j = choose|j: int| 0 <= j < es.drop_last().len() && es.drop_last()[j] == prev[k];
                assert(es[j] == prev[k]);
            } else {
                assert(selected(es, q, st)[k] == es.last());
                assert(es[es.len() - 1] == es.last());
            }
        }
    }
}

/// An entry of the index that survives the view, the filters and the text is
/// selected.
pub proof fn lemma_survivor_selected(es: Seq<EntryView>, q: QueryView, st: StateView, j: int)
    requires
        0 <= j < es.len(),
        survives(es[j], q, st),
    ensures
        selected(es, q, st).contains(es[j]),
    decreases es.len(),
{
    if j == es.len() - 1 {
        assert(selected(es, q, st).last() == es[j]);
    } else {
        lemma_survivor_selected(es.drop_last(), q, st, j);
        let prev = selected(es.drop_last(), q, st);
        let i = choose|i: int| 0 <= i < prev.len() && prev[i] == es.drop_last()[j];
        assert(selected(es, q, st)[i] == prev[i]);
    }
}

/// With no words in the text, selection keeps exactly the entries in the view
/// that pass every filter (each as an unscored, unhighlighted result).
pub proof fn lemma_blank_text_keeps_candidates(e: EntryView, q: QueryView, st: StateView)
    requires
        words(q.text).len() == 0,
    ensures
        survives(e, q, st) == (in_view(e, q.view, st) && passes_all(e, q.filters, st)),
{
}

/// Ranking neither adds results nor takes any from outside the selection,
/// and the limit only cuts: whatever the ranking inputs, every result of the
/// pipeline comes from an entry in the view that passes every filter and
/// matches every term.
pub proof fn lemma_pipeline_only_matches(
    es: Seq<EntryView>,
    q: QueryView,
    st: StateView,
    sel: Seq<ResultView>,
    keys: Seq<Seq<int>>,
    ranked: Seq<ResultView>,
)
    requires
        sel.len() == selected(es, q, st).len(),
        forall|k: int| 0 <= k < sel.len() ==> matched_as(#[trigger] sel[k], selected(es, q, st)[k], words(q.text)),
        keys.len() == sel.len(),
        arranged(ranked, sel, keys),
    ensures
        limited(ranked, q.limit).len() <= sel.len(),
        forall|k: int|
            0 <= k < limited(ranked, q.limit).len() ==> survives(#[trigger] limited(ranked, q.limit)[k].entry, q, st)
                && es.contains(limited(ranked, q.limit)[k].entry),
{
    lemma_arranged_from_input(ranked, sel, keys);
    lemma_selected_survive(es, q, st);
    let out = limited(ranked, q.limit);
    assert forall|k: int| 0 <= k < out.len() implies survives(#[trigger] out[k].entry, q, st) && es.contains(out[k].entry) by {
        assert(out[k] == ranked[k]);
        assert(sel.contains(ranked[k]));
        let j = choose|j: int| 0 <= j < sel.len() && sel[j] == ranked[k];
        assert(matched_as(sel[j], selected(es, q, st)[j], words(q.text)));
        assert(sel[j].entry == selected(es, q, st)[j]);
    }
}

/// The limit keeps the first `n` results, or all of them when there are
/// fewer or no limit is set.
pub proof fn lemma_limit_length<A>(s: Seq<A>, limit: Option<usize>)
    ensures
        limited(s, limit).len() == match limit {
            Some(n) => if n < s.len() {
                n as int
            } else {
                s.len() as int
            },
            None => s.len() as int,
        },
        forall|k: int| 0 <= k < limited(s, limit).len() ==> #[trigger] limited(s, limit)[k] == s[k],
{
}

/// Under automatic ordering a result with a higher hybrid score always comes
/// before one with a lower score.
pub proof fn lemma_auto_orders_by_score(
    out: Seq<ResultView>,
    items: Seq<ResultView>,
    st: StateView,
    now: u64,
    inps: Seq<RankInput>,
    k: int,
    l: int,
)
    requires
        inps.len() == items.len(),
        arranged(out, items, rank_keys(items, Sort::Auto, st, now, inps)),
        0 <= k < l < out.len(),
    ensures
        exists|a: int, b: int|
            0 <= a < items.len() && 0 <= b < items.len() && out[k] == items[a] && out[l] == items[b]
                && inps[a].score_order >= inps[b].score_order,
{
    let keys = rank_keys(items, Sort::Auto, st, now, inps);
    lemma_arranged_pair(out, items, keys, k, l);
    let (a, b) = choose|a: int, b: int|
        0 <= a < items.len() && 0 <= b < items.len() && a != b && out[k] == items[a] && out[l] == items[b]
            && lex_lt(tagged(keys, a), tagged(keys, b));
    let ta = tagged(keys, a);
    let tb = tagged(keys, b);
    assert(ta[0] == -(inps[a].score_order as int));
    assert(tb[0] == -(inps[b].score_order as int));
    lemma_lex_head(ta, tb);
}

} // verus!
