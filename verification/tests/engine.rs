use scriptvault::index::Index;
use scriptvault::model::{Language, MetaSource, ScriptEntry, ScriptMetadata, SearchResult};
use scriptvault::query::engine::{apply_limit, rank, run, select, RankInput};
use scriptvault::query::ranking::{frecency_for, run_age, Frecency};
use scriptvault::query::{Filter, Query, RiskLevel, Sort, View};
use scriptvault::state::{RecentEntry, State};

const NOW: u64 = 1_700_000_000;

fn entry(name: &str, tags: &[&str], lang: Language) -> ScriptEntry {
    ScriptEntry {
        path: format!("/s/{name}.sh"),
        filename: format!("{name}.sh"),
        lang,
        meta: ScriptMetadata {
            name: Some(name.to_string()),
            tags: tags.iter().map(|s| s.to_string()).collect(),
            ..Default::default()
        },
        source: MetaSource::Header,
    }
}

/// An order-preserving integer image of an `f64` (the `total_cmp` order).
fn order_image(x: f64) -> i64 {
    let b = x.to_bits() as i64;
    b ^ ((((b >> 63) as u64) >> 1) as i64)
}

/// The hybrid ranking inputs: fuzzy score plus a capped frecency boost plus a
/// favourite bonus, and the raw frecency.
fn inputs(state: &State, now: u64, r: &SearchResult) -> RankInput {
    {
        let f = frecency_for(&state.recents, &r.entry.path, now);
        let raw = match f.age_secs {
            Some(age) if f.count > 0 => {
                (1.0 + f.count as f64).ln() * 0.5_f64.powf(age as f64 / (14.0 * 86_400.0))
            }
            _ => 0.0,
        };
        let mut boost = if raw > 0.0 { 60.0 * raw / (raw + 3.0) } else { 0.0 };
        if f.last_failed {
            boost *= 0.85;
        }
        let fav = if state.is_favorite(&r.entry.path) { 25.0 } else { 0.0 };
        RankInput {
            mtime: 0,
            score_order: order_image(r.score as f64 + boost + fav),
            frecency_order: order_image(raw),
        }
    }
}

fn run_q(index: &Index, state: &State, q: &Query) -> Vec<SearchResult> {
    run(index, state, q, NOW, inputs)
}

fn recent(path: &str, count: u64) -> RecentEntry {
    RecentEntry { path: path.into(), count, last_run: NOW, last_exit: Some(0), last_output: None }
}

#[test]
fn empty_query_returns_all() {
    let index = Index::build(vec![entry("alpha", &[], Language::Bash), entry("beta", &[], Language::Bash)]);
    let out = run_q(&index, &State::default(), &Query::default());
    assert_eq!(out.len(), 2);
}

#[test]
fn text_filters_to_matches() {
    let index = Index::build(vec![entry("deploy", &[], Language::Bash), entry("backup", &[], Language::Bash)]);
    let out = run_q(&index, &State::default(), &Query::text("deploy"));
    assert_eq!(out.len(), 1);
    assert_eq!(out[0].entry.display_name(), "deploy");
}

#[test]
fn tag_filter_narrows() {
    let index = Index::build(vec![entry("a", &["ci"], Language::Bash), entry("b", &["db"], Language::Bash)]);
    let q = Query { filters: vec![Filter::Tag("ci".into())], ..Default::default() };
    let out = run_q(&index, &State::default(), &q);
    assert_eq!(out.len(), 1);
    assert_eq!(out[0].entry.display_name(), "a");
}

#[test]
fn playlist_filter_composes_with_view() {
    let index = Index::build(vec![
        entry("a", &[], Language::Bash),
        entry("b", &[], Language::Bash),
        entry("c", &[], Language::Bash),
    ]);
    let mut state = State::default();
    state.create_playlist("ops");
    state.add_to_playlist("ops", "/s/a.sh");
    state.add_to_playlist("ops", "/s/b.sh");
    state.toggle_favorite("/s/a.sh");
    state.toggle_favorite("/s/c.sh");
    let q = Query { view: View::Favorites, filters: vec![Filter::Playlist("ops".into())], ..Default::default() };
    let out = run_q(&index, &state, &q);
    assert_eq!(out.len(), 1);
    assert_eq!(out[0].entry.display_name(), "a");
}

#[test]
fn playlist_filter_unknown_name_matches_nothing() {
    let index = Index::build(vec![entry("a", &[], Language::Bash)]);
    let q = Query { filters: vec![Filter::Playlist("missing".into())], ..Default::default() };
    assert!(run_q(&index, &State::default(), &q).is_empty());
}

#[test]
fn not_tag_excludes() {
    let index = Index::build(vec![entry("a", &["ci", "wip"], Language::Bash), entry("b", &["ci"], Language::Bash)]);
    let q = Query { filters: vec![Filter::NotTag("wip".into())], ..Default::default() };
    let out = run_q(&index, &State::default(), &q);
    assert_eq!(out.len(), 1);
    assert_eq!(out[0].entry.display_name(), "b");
}

#[test]
fn lang_filter_keeps_only_that_language() {
    let index = Index::build(vec![entry("a", &[], Language::Bash), entry("b", &[], Language::Python)]);
    let q = Query { filters: vec![Filter::Lang(Language::Python)], ..Default::default() };
    let out = run_q(&index, &State::default(), &q);
    assert_eq!(out.len(), 1);
    assert_eq!(out[0].entry.lang, Language::Python);
}

#[test]
fn risk_filter_matches_risk_tag() {
    let index = Index::build(vec![entry("danger", &["risk:high"], Language::Bash), entry("safe", &["ci"], Language::Bash)]);
    let q = Query { filters: vec![Filter::Risk(RiskLevel::High)], ..Default::default() };
    let out = run_q(&index, &State::default(), &q);
    assert_eq!(out.len(), 1);
    assert_eq!(out[0].entry.display_name(), "danger");
}

#[test]
fn risk_filter_reads_the_risk_field_ignoring_case() {
    let mut e = entry("field", &[], Language::Bash);
    e.meta.risk = Some("  High ".into());
    let index = Index::build(vec![e, entry("other", &[], Language::Bash)]);
    let q = Query { filters: vec![Filter::Risk(RiskLevel::High)], ..Default::default() };
    let out = run_q(&index, &State::default(), &q);
    assert_eq!(out.len(), 1);
    assert_eq!(out[0].entry.display_name(), "field");
}

#[test]
fn favorite_view_and_filter() {
    let index = Index::build(vec![entry("a", &[], Language::Bash), entry("b", &[], Language::Bash)]);
    let mut state = State::default();
    state.toggle_favorite("/s/b.sh");
    let q = Query { view: View::Favorites, ..Default::default() };
    let out = run_q(&index, &state, &q);
    assert_eq!(out.len(), 1);
    assert_eq!(out[0].entry.display_name(), "b");
    let q = Query { filters: vec![Filter::Favorite], ..Default::default() };
    assert_eq!(run_q(&index, &state, &q).len(), 1);
}

#[test]
fn multi_term_and_across_fields() {
    let mut entries = vec![
        entry("deploy", &["prod"], Language::Bash),
        entry("deploy", &["staging"], Language::Bash),
        entry("backup", &["prod"], Language::Bash),
    ];
    entries[1].path = "/s/deploy2.sh".into();
    entries[1].filename = "deploy2.sh".into();
    let index = Index::build(entries);
    let out = run_q(&index, &State::default(), &Query::text("deploy prod"));
    assert_eq!(out.len(), 1, "only the deploy+prod entry should match");
    assert_eq!(out[0].entry.meta.tags, vec!["prod"]);
}

#[test]
fn limit_truncates() {
    let index = Index::build(vec![
        entry("a", &[], Language::Bash),
        entry("b", &[], Language::Bash),
        entry("c", &[], Language::Bash),
    ]);
    let q = Query { limit: Some(2), ..Default::default() };
    assert_eq!(run_q(&index, &State::default(), &q).len(), 2);
}

#[test]
fn auto_sort_floats_frequently_used_among_matches() {
    let index = Index::build(vec![entry("deploy-a", &[], Language::Bash), entry("deploy-b", &[], Language::Bash)]);
    let mut state = State::default();
    state.recents.push(recent("/s/deploy-b.sh", 40));
    let out = run_q(&index, &state, &Query::text("deploy"));
    assert_eq!(out.len(), 2);
    assert_eq!(out[0].entry.display_name(), "deploy-b");
}

#[test]
fn frecency_never_resurrects_a_non_match() {
    let index = Index::build(vec![entry("deploy", &[], Language::Bash), entry("backup", &[], Language::Bash)]);
    let mut state = State::default();
    state.recents.push(recent("/s/backup.sh", 100_000));
    let out = run_q(&index, &state, &Query::text("deploy"));
    assert_eq!(out.len(), 1, "the heavily-used non-match must be excluded");
    assert_eq!(out[0].entry.display_name(), "deploy");
}

#[test]
fn empty_query_with_frecency_orders_most_used_first() {
    let index = Index::build(vec![entry("zzz", &[], Language::Bash), entry("aaa", &[], Language::Bash)]);
    let mut state = State::default();
    state.recents.push(recent("/s/zzz.sh", 20));
    let out = run_q(&index, &state, &Query::default());
    assert_eq!(out[0].entry.display_name(), "zzz");
}

#[test]
fn name_sort_is_alphabetical() {
    let index = Index::build(vec![entry("zebra", &[], Language::Bash), entry("apple", &[], Language::Bash)]);
    let q = Query { sort: Sort::Name, ..Default::default() };
    let out = run_q(&index, &State::default(), &q);
    assert_eq!(out[0].entry.display_name(), "apple");
    assert_eq!(out[1].entry.display_name(), "zebra");
}

#[test]
fn combined_filter_and_text() {
    let mut entries = vec![entry("deploy", &["ci"], Language::Bash), entry("deploy", &["db"], Language::Bash)];
    entries[1].path = "/s/deploy2.sh".into();
    entries[1].filename = "deploy2.sh".into();
    let index = Index::build(entries);
    let q = Query { text: "deploy".into(), filters: vec![Filter::Tag("ci".into())], ..Default::default() };
    let out = run_q(&index, &State::default(), &q);
    assert_eq!(out.len(), 1);
    assert_eq!(out[0].entry.meta.tags, vec!["ci"]);
}

#[test]
fn recently_run_sort_puts_never_run_last() {
    let index = Index::build(vec![entry("a", &[], Language::Bash), entry("b", &[], Language::Bash), entry("c", &[], Language::Bash)]);
    let mut state = State::default();
    state.recents.push(RecentEntry { path: "/s/c.sh".into(), count: 1, last_run: NOW - 10, last_exit: None, last_output: None });
    state.recents.push(RecentEntry { path: "/s/b.sh".into(), count: 1, last_run: NOW - 500, last_exit: None, last_output: None });
    let q = Query { sort: Sort::RecentlyRun, ..Default::default() };
    let out = run_q(&index, &state, &q);
    let names: Vec<&str> = out.iter().map(|r| r.entry.display_name()).collect();
    assert_eq!(names, vec!["c", "b", "a"]);
    assert_eq!(run_age(&state.recents, "/s/a.sh", NOW), u64::MAX);
    assert_eq!(run_age(&state.recents, "/s/b.sh", NOW), 500);
}

#[test]
fn modified_sort_puts_newest_first() {
    let index = Index::build(vec![entry("a", &[], Language::Bash), entry("b", &[], Language::Bash)]);
    let state = State::default();
    let q = Query { sort: Sort::Modified, ..Default::default() };
    let sel = select(&index, &state, &q);
    let inputs: Vec<RankInput> = sel
        .iter()
        .map(|r| RankInput { mtime: if r.entry.display_name() == "b" { 200 } else { 100 }, score_order: 0, frecency_order: 0 })
        .collect();
    let out = rank(&sel, Sort::Modified, &state, NOW, &inputs);
    assert_eq!(out[0].entry.display_name(), "b");
    assert_eq!(apply_limit(out, Some(1)).len(), 1);
}

#[test]
fn multi_term_scores_add_and_highlights_union() {
    let index = Index::build(vec![entry("deploy", &[], Language::Bash)]);
    let one = select(&index, &State::default(), &Query::text("dep"));
    let two = select(&index, &State::default(), &Query::text("dep loy"));
    assert_eq!(two.len(), 1);
    assert!(two[0].score > one[0].score);
    let idx = &two[0].matched_indices;
    assert!(idx.windows(2).all(|w| w[0] < w[1]), "highlights are sorted and distinct");
}

#[test]
fn frecency_inputs_come_from_the_last_recent_entry() {
    let recents = vec![
        RecentEntry { path: "/s/a.sh".into(), count: 4, last_run: 100, last_exit: Some(1), last_output: None },
    ];
    let f = frecency_for(&recents, "/s/a.sh", 160);
    assert_eq!(f, Frecency { count: 4, age_secs: Some(60), last_failed: true });
    assert_eq!(frecency_for(&recents, "/s/b.sh", 160), Frecency::none());
    assert_eq!(frecency_for(&recents, "/s/a.sh", 50).age_secs, Some(0));
}

#[test]
fn tag_filters_ignore_case_on_both_sides() {
    let index = Index::build(vec![entry("a", &["CI-prod"], Language::Bash), entry("b", &["db"], Language::Bash)]);
    let q = Query { filters: vec![Filter::Tag("ci".into())], ..Default::default() };
    let out = run_q(&index, &State::default(), &q);
    assert_eq!(out.len(), 1);
    assert_eq!(out[0].entry.display_name(), "a");
    let q = Query { filters: vec![Filter::Tag("PROD".into())], ..Default::default() };
    assert_eq!(run_q(&index, &State::default(), &q).len(), 1);
    let q = Query { filters: vec![Filter::NotTag("Ci".into())], ..Default::default() };
    let out = run_q(&index, &State::default(), &q);
    assert_eq!(out.len(), 1);
    assert_eq!(out[0].entry.display_name(), "b");
}
