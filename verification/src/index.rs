//! The in-memory index of all discovered scripts and its fuzzy search.
//!
//! Each field of an entry is scored against a term with the skim fuzzy
//! matcher; the best field wins (ties go to the higher-priority field). Search
//! results are ranked in tiers: field rank first (Name > Tags > Desc >
//! Filename), then raw score (higher first), then display name, then path.
//! An empty query returns every entry, ordered by display name then path.

use vstd::prelude::*;
use fuzzy_matcher::FuzzyMatcher;
use fuzzy_matcher::skim::SkimMatcherV2;
use crate::model::{
    display_name_of, entries_view, results_view, EntryView, MatchField, ResultView, ScriptEntry,
    SearchResult,
};
use crate::order::{
    arranged, is_sorting_permutation, key_view, keys_view, lemma_arranged_pair, lemma_lex_head,
    lemma_lex_second, lex_lt, path_key, positions_view, push_int, push_path_key, push_text_key,
    sort_positions, tagged, text_key,
};
use crate::text::{string_of, trim, trim_str};

verus! {

// ---------------------------------------------------------------------------
// The fuzzy matcher
// ---------------------------------------------------------------------------

#[verifier::external_type_specification]
#[verifier::external_body]
pub struct ExSkimMatcherV2(SkimMatcherV2);

/// `SkimMatcherV2::default()`: a matcher with smart case (an uppercase letter
/// in the pattern makes matching case-sensitive) and no element limit. Nothing
/// is claimed of the value; every matcher in this crate is made here.
#[verifier::external_body]
fn new_matcher() -> SkimMatcherV2 {
    SkimMatcherV2::default()
}

/// What `fuzzy_indices` of a default `SkimMatcherV2` returns for a choice and a
/// pattern: the score and the matched character positions, or `None` when the
/// pattern is not a (case-folded, per smart case) subsequence of the choice.
pub uninterp spec fn skim_match(choice: Seq<char>, pattern: Seq<char>) -> Option<(i64, Seq<usize>)>;

/// The view of a scored hit.
pub open spec fn match_view(r: Option<(i64, Vec<usize>)>) -> Option<(i64, Seq<usize>)> {
    match r {
        Some((s, v)) => Some((s, v@)),
        None => None,
    }
}

/// `FuzzyMatcher::fuzzy_indices` of the default `SkimMatcherV2`. Claimed: the
/// result is [`skim_match`] of the two texts; an empty pattern gives score 0
/// and no positions (`fuzzy` returns `Some((0, Vec::new()))` first thing);
/// a score is an `i32` widened (`m_score as ScoreType`, `m_score: i32`).
#[verifier::external_body]
fn fuzzy_indices(matcher: &SkimMatcherV2, choice: &str, pattern: &str) -> (r: Option<(i64, Vec<usize>)>)
    ensures
        match_view(r) == skim_match(choice@, pattern@),
        pattern@.len() == 0 ==> match_view(r) == Some((0i64, Seq::<usize>::empty())),
        r matches Some((s, _)) ==> i32::MIN <= s <= i32::MAX,
{
    matcher.fuzzy_indices(choice, pattern)
}

// ---------------------------------------------------------------------------
// Scoring one term against one entry
// ---------------------------------------------------------------------------

/// Lower rank = higher priority.
pub open spec fn field_rank(f: MatchField) -> int {
    match f {
        MatchField::Name => 0,
        MatchField::Tags => 1,
        MatchField::Desc => 2,
        MatchField::Filename => 3,
    }
}

/// The rank of a field, as used in sort keys.
pub fn rank_of(f: MatchField) -> (r: u8)
    ensures
        r as int == field_rank(f),
{
    match f {
        MatchField::Name => 0,
        MatchField::Tags => 1,
        MatchField::Desc => 2,
        MatchField::Filename => 3,
    }
}

/// The texts a term is scored against, in order: the explicit name (if any),
/// each tag, the description (if any), and the filename.
pub open spec fn scored_fields(e: EntryView) -> Seq<(Seq<char>, MatchField)> {
    let name = match e.meta.name {
        Some(n) => seq![(n, MatchField::Name)],
        None => seq![],
    };
    let desc = match e.meta.desc {
        Some(d) => seq![(d, MatchField::Desc)],
        None => seq![],
    };
    name + e.meta.tags.map_values(|t: Seq<char>| (t, MatchField::Tags)) + desc + seq![
        (e.filename, MatchField::Filename),
    ]
}

/// A scored hit: score, winning field, matched character positions.
pub type Hit = Option<(i64, MatchField, Seq<usize>)>;

/// The best hit after also considering `text` as `field`: a hit replaces the
/// best so far when it scores strictly higher, or equal on a higher-priority
/// field.
pub open spec fn step_hit(best: Option<(i64, MatchField, Seq<usize>)>, field: (Seq<char>, MatchField), term: Seq<char>) -> Option<(i64, MatchField, Seq<usize>)> {
    match skim_match(field.0, term) {
        None => best,
        Some((s, idx)) => match best {
            None => Some((s, field.1, idx)),
            Some((bs, bf, _)) => if s > bs || (s == bs && field_rank(field.1) < field_rank(bf)) {
                Some((s, field.1, idx))
            } else {
                best
            },
        },
    }
}

/// The best hit over a sequence of fields considered in order.
pub open spec fn best_hit(fields: Seq<(Seq<char>, MatchField)>, term: Seq<char>) -> Option<(i64, MatchField, Seq<usize>)>
    decreases fields.len(),
{
    if fields.len() == 0 {
        None
    } else {
        step_hit(best_hit(fields.drop_last(), term), fields.last(), term)
    }
}

/// The best hit of a term on an entry, `None` when no field matches.
pub open spec fn term_hit(e: EntryView, term: Seq<char>) -> Option<(i64, MatchField, Seq<usize>)> {
    best_hit(scored_fields(e), term)
}

/// The view of an exec hit.
pub open spec fn hit_view(h: Option<(i64, MatchField, Vec<usize>)>) -> Option<(i64, MatchField, Seq<usize>)> {
    match h {
        Some((s, f, v)) => Some((s, f, v@)),
        None => None,
    }
}

// ---------------------------------------------------------------------------
// Search result sets
// ---------------------------------------------------------------------------

/// The entries that match `q`, in index order, each with its best hit.
pub open spec fn search_hits(es: Seq<EntryView>, q: Seq<char>) -> Seq<ResultView>
    decreases es.len(),
{
    if es.len() == 0 {
        seq![]
    } else {
        let prev = search_hits(es.drop_last(), q);
        match term_hit(es.last(), q) {
            Some((s, f, idx)) => prev.push(
                ResultView { entry: es.last(), score: s, matched_field: f, matched_indices: idx },
            ),
            None => prev,
        }
    }
}

/// Every entry as an unscored result (nothing highlighted).
pub open spec fn all_hits(es: Seq<EntryView>) -> Seq<ResultView> {
    es.map_values(
        |e: EntryView|
            ResultView {
                entry: e,
                score: 0,
                matched_field: MatchField::Name,
                matched_indices: seq![],
            },
    )
}

/// Sort key: display name, then path.
pub open spec fn name_path_key(r: ResultView) -> Seq<int> {
    text_key(display_name_of(r.entry)) + path_key(r.entry.path)
}

/// Sort key: field rank, then score (higher first), then display name, then path.
pub open spec fn tier_key(r: ResultView) -> Seq<int> {
    seq![field_rank(r.matched_field), -(r.score as int)] + name_path_key(r)
}

/// The key of a result ordered by display name then path.
pub fn name_path_key_of(r: &SearchResult) -> (k: Vec<i128>)
    ensures
        key_view(k@) == name_path_key(r@),
{
    let mut k: Vec<i128> = Vec::new();
    push_text_key(&mut k, r.entry.display_name());
    push_path_key(&mut k, r.entry.path.as_str());
    proof {
        assert(key_view(k@) =~= name_path_key(r@));
    }
    k
}

/// The tiered key of a result.
pub fn tier_key_of(r: &SearchResult) -> (k: Vec<i128>)
    ensures
        key_view(k@) == tier_key(r@),
{
    let mut k: Vec<i128> = Vec::new();
    push_int(&mut k, rank_of(r.matched_field) as i128);
    push_int(&mut k, -(r.score as i128));
    push_text_key(&mut k, r.entry.display_name());
    push_path_key(&mut k, r.entry.path.as_str());
    proof {
        assert(key_view(k@) =~= tier_key(r@));
    }
    k
}

/// The results at the given positions, in that order.
pub fn arrange(items: &Vec<SearchResult>, p: &Vec<usize>) -> (out: Vec<SearchResult>)
    requires
        forall|k: int| 0 <= k < p.len() ==> #[trigger] p@[k] < items.len(),
    ensures
        out.len() == p.len(),
        forall|k: int| 0 <= k < p.len() ==> #[trigger] out@[k]@ == items@[p@[k] as int]@,
{
    let mut out: Vec<SearchResult> = Vec::new();
    let mut i: usize = 0;
    while i < p.len()
        invariant
            i <= p.len(),
            forall|k: int| 0 <= k < p.len() ==> #[trigger] p@[k] < items.len(),
            out.len() == i,
            forall|k: int| 0 <= k < i ==> #[trigger] out@[k]@ == items@[p@[k] as int]@,
        decreases p.len() - i,
    {
        out.push(items[p[i]].duplicate());
        i += 1;
    }
    out
}

/// Sort results stably by the given keys (one per result).
pub fn sort_by_keys(items: &Vec<SearchResult>, keys: &Vec<Vec<i128>>) -> (out: Vec<SearchResult>)
    requires
        keys.len() == items.len(),
    ensures
        arranged(results_view(out@), results_view(items@), keys_view(keys@)),
{
    proof {
        assert(keys.len() <= usize::MAX);
        assert(usize::MAX < i128::MAX);
    }
    let p = sort_positions(keys);
    proof {
        let pv = positions_view(p@);
        assert forall|k: int| 0 <= k < p.len() implies #[trigger] p@[k] < items.len() by {
            assert(pv[k] == p@[k] as int);
        }
    }
    let out = arrange(items, &p);
    proof {
        let pv = positions_view(p@);
        let ov = results_view(out@);
        let iv = results_view(items@);
        assert(is_sorting_permutation(keys_view(keys@), pv));
        assert forall|k: int| 0 <= k < ov.len() implies ov[k] == iv[pv[k]] by {
            assert(out@[k]@ == items@[p@[k] as int]@);
        }
        assert(pv.len() == ov.len());
    }
    out
}

/// Search ranking is tiered: of two results, the earlier one's field has at
/// least the priority of the later one's, and on the same field the earlier one
/// scores at least as high.
pub proof fn lemma_search_is_tiered(out: Seq<ResultView>, items: Seq<ResultView>, k: int, l: int)
    requires
        arranged(out, items, items.map_values(|h: ResultView| tier_key(h))),
        0 <= k < l < out.len(),
    ensures
        field_rank(out[k].matched_field) <= field_rank(out[l].matched_field),
        field_rank(out[k].matched_field) == field_rank(out[l].matched_field) ==> out[k].score >= out[l].score,
{
    let keys = items.map_values(|h: ResultView| tier_key(h));
    lemma_arranged_pair(out, items, keys, k, l);
    let (a, b) = choose|a: int, b: int|
        0 <= a < items.len() && 0 <= b < items.len() && a != b && out[k] == items[a] && out[l] == items[b]
            && lex_lt(tagged(keys, a), tagged(keys, b));
    let ta = tagged(keys, a);
    let tb = tagged(keys, b);
    assert(ta[0] == field_rank(items[a].matched_field));
    assert(tb[0] == field_rank(items[b].matched_field));
    assert(ta[1] == -(items[a].score as int));
    assert(tb[1] == -(items[b].score as int));
    lemma_lex_head(ta, tb);
    if ta[0] == tb[0] {
        lemma_lex_second(ta, tb);
    }
}

// ---------------------------------------------------------------------------
// The index
// ---------------------------------------------------------------------------

/// The in-memory index of all discovered scripts.
pub struct Index {
    entries: Vec<ScriptEntry>,
    /// Built once and reused across queries.
    matcher: SkimMatcherV2,
}

impl View for Index {
    type V = Seq<EntryView>;

    closed spec fn view(&self) -> Seq<EntryView> {
        entries_view(self.entries@)
    }
}

impl Index {
    /// Build an index over parsed entries.
    pub fn build(entries: Vec<ScriptEntry>) -> (idx: Self)
        ensures
            idx@ == entries_view(entries@),
    {
        Index { entries, matcher: new_matcher() }
    }

    /// All entries, in index order.
    pub fn entries(&self) -> (r: &[ScriptEntry])
        ensures
            entries_view(r@) == self@,
    {
        self.entries.as_slice()
    }

    /// Hand back the owned entries.
    pub fn into_entries(self) -> (r: Vec<ScriptEntry>)
        ensures
            entries_view(r@) == self@,
    {
        self.entries
    }

    /// The best hit after also considering `text` as `field`.
    fn consider(
        &self,
        best: Option<(i64, MatchField, Vec<usize>)>,
        text: &str,
        field: MatchField,
        term: &str,
    ) -> (r: Option<(i64, MatchField, Vec<usize>)>)
        ensures
            hit_view(r) == step_hit(hit_view(best), (text@, field), term@),
            r matches Some((s, _, _)) ==> i32::MIN <= s <= i32::MAX || r == best,
    {
        match fuzzy_indices(&self.matcher, text, term) {
            None => best,
            Some((s, idx)) => {
                let take = match &best {
                    None => true,
                    Some((bs, bf, _)) => s > *bs || (s == *bs && rank_of(field) < rank_of(*bf)),
                };
                if take {
                    Some((s, field, idx))
                } else {
                    best
                }
            },
        }
    }

    /// Score one term against every field of an entry, keeping the best hit
    /// (see [`term_hit`]); `None` when no field matches.
    pub fn score_term(&self, entry: &ScriptEntry, term: &str) -> (r: Option<(i64, MatchField, Vec<usize>)>)
        ensures
            hit_view(r) == term_hit(entry@, term@),
            r matches Some((s, _, _)) ==> i32::MIN <= s <= i32::MAX,
    {
        let ghost fields = scored_fields(entry@);
        let ghost name_part: Seq<(Seq<char>, MatchField)> = match entry@.meta.name {
            Some(n) => seq![(n, MatchField::Name)],
            None => seq![],
        };
        let ghost tag_part = entry@.meta.tags.map_values(|t: Seq<char>| (t, MatchField::Tags));
        let mut best: Option<(i64, MatchField, Vec<usize>)> = None;
        let ghost mut k: int = 0;
        proof {
            assert(fields.take(0) =~= Seq::<(Seq<char>, MatchField)>::empty());
        }
        match &entry.meta.name {
            Some(n) => {
                best = self.consider(best, n.as_str(), MatchField::Name, term);
                proof {
                    assert(fields[0] == (n@, MatchField::Name));
                    assert(fields.take(1).drop_last() =~= fields.take(0));
                    assert(fields.take(1).last() == fields[0]);
                    k = 1;
                }
            },
            None => {},
        }
        proof {
            assert(k == name_part.len());
            if k == 0 {
                assert(hit_view(best) == best_hit(fields.take(0), term@));
            } else {
                assert(best_hit(fields.take(0), term@) is None);
                assert(hit_view(best) == best_hit(fields.take(1), term@));
            }
            assert(hit_view(best) == best_hit(fields.take(k + 0), term@));
        }
        let mut i: usize = 0;
        while i < entry.meta.tags.len()
            invariant
                fields == scored_fields(entry@),
                tag_part == entry@.meta.tags.map_values(|t: Seq<char>| (t, MatchField::Tags)),
                k == name_part.len(),
                name_part == (match entry@.meta.name {
                    Some(n) => seq![(n, MatchField::Name)],
                    None => Seq::<(Seq<char>, MatchField)>::empty(),
                }),
                i <= entry.meta.tags.len(),
                hit_view(best) == best_hit(fields.take(k + i), term@),
                best matches Some((s, _, _)) ==> i32::MIN <= s <= i32::MAX,
            decreases entry.meta.tags.len() - i,
        {
            best = self.consider(best, entry.meta.tags[i].as_str(), MatchField::Tags, term);
            proof {
                assert(fields[k + i] == tag_part[i as int]);
                assert(fields.take(k + i + 1).drop_last() =~= fields.take(k + i));
                assert(fields.take(k + i + 1).last() == fields[k + i]);
            }
            i += 1;
        }
        let ghost mut j: int = k + i;
        proof {
            assert(hit_view(best) == best_hit(fields.take(j), term@));
            assert(j == name_part.len() + tag_part.len());
        }
        match &entry.meta.desc {
            Some(d) => {
                best = self.consider(best, d.as_str(), MatchField::Desc, term);
                proof {
                    assert(fields[j] == (d@, MatchField::Desc));
                    assert(fields.take(j + 1).drop_last() =~= fields.take(j));
                    assert(fields.take(j + 1).last() == fields[j]);
                    j = j + 1;
                }
            },
            None => {},
        }
        proof {
            assert(hit_view(best) == best_hit(fields.take(j), term@));
        }
        best = self.consider(best, entry.filename.as_str(), MatchField::Filename, term);
        proof {
            assert(j + 1 == fields.len());
            assert(fields[j] == (entry@.filename, MatchField::Filename));
            assert(fields.take(j + 1).drop_last() =~= fields.take(j));
            assert(fields.take(j + 1).last() == fields[j]);
            assert(fields.take(j + 1) =~= fields);
        }
        best
    }

    /// Every entry as an unscored result, ordered by display name then path.
    fn all_results(&self) -> (r: Vec<SearchResult>)
        ensures
            arranged(results_view(r@), all_hits(self@), all_hits(self@).map_values(|h: ResultView| name_path_key(h))),
    {
        let mut items: Vec<SearchResult> = Vec::new();
        let mut keys: Vec<Vec<i128>> = Vec::new();
        let mut i: usize = 0;
        while i < self.entries.len()
            invariant
                i <= self.entries.len(),
                items.len() == i,
                keys.len() == i,
                forall|m: int| 0 <= m < i ==> #[trigger] items@[m]@ == all_hits(self@)[m],
                forall|m: int| 0 <= m < i ==> #[trigger] key_view(keys@[m]@) == name_path_key(all_hits(self@)[m]),
            decreases self.entries.len() - i,
        {
            let r = SearchResult {
                entry: self.entries[i].duplicate(),
                score: 0,
                matched_field: MatchField::Name,
                matched_indices: Vec::new(),
            };
            proof {
                assert(r@.matched_indices =~= Seq::<usize>::empty());
                assert(r@ == all_hits(self@)[i as int]);
            }
            keys.push(name_path_key_of(&r));
            items.push(r);
            i += 1;
        }
        proof {
            assert(results_view(items@) =~= all_hits(self@));
            assert(keys_view(keys@) =~= all_hits(self@).map_values(|h: ResultView| name_path_key(h)));
        }
        sort_by_keys(&items, &keys)
    }

    /// Fuzzy-search the entries. A blank query returns every entry ordered by
    /// display name then path; otherwise the entries that match the trimmed
    /// query, ordered by field rank, score (higher first), display name and
    /// path.
    pub fn search(&self, query: &str) -> (r: Vec<SearchResult>)
        ensures
            trim(query@).len() == 0 ==> arranged(
                results_view(r@),
                all_hits(self@),
                all_hits(self@).map_values(|h: ResultView| name_path_key(h)),
            ),
            trim(query@).len() > 0 ==> arranged(
                results_view(r@),
                search_hits(self@, trim(query@)),
                search_hits(self@, trim(query@)).map_values(|h: ResultView| tier_key(h)),
            ),
    {
        let q = trim_str(query);
        if q.len() == 0 {
            return self.all_results();
        }
        let qs = string_of(&q);
        let ghost hits = search_hits(self@, q@);
        let mut items: Vec<SearchResult> = Vec::new();
        let mut keys: Vec<Vec<i128>> = Vec::new();
        let mut i: usize = 0;
        while i < self.entries.len()
            invariant
                i <= self.entries.len(),
                qs@ == q@,
                results_view(items@) == search_hits(self@.take(i as int), q@),
                keys.len() == items.len(),
                forall|m: int| 0 <= m < items.len() ==> #[trigger] key_view(keys@[m]@) == tier_key(items@[m]@),
            decreases self.entries.len() - i,
        {
            let e = &self.entries[i];
            proof {
                assert(self@.take(i + 1).drop_last() =~= self@.take(i as int));
                assert(self@.take(i + 1).last() == e@);
            }
            match self.score_term(e, qs.as_str()) {
                Some((s, f, idx)) => {
                    let r = SearchResult {
                        entry: e.duplicate(),
                        score: s,
                        matched_field: f,
                        matched_indices: idx,
                    };
                    let ghost before = items@;
                    keys.push(tier_key_of(&r));
                    items.push(r);
                    proof {
                        assert(results_view(items@) =~= results_view(before).push(r@));
                    }
                },
                None => {},
            }
            i += 1;
        }
        proof {
            assert(self@.take(self.entries.len() as int) =~= self@);
            assert(keys_view(keys@) =~= results_view(items@).map_values(|h: ResultView| tier_key(h)));
        }
        sort_by_keys(&items, &keys)
    }
}

} // verus!
