use scriptvault::index::Index;
use scriptvault::model::{Language, MatchField, MetaSource, ScriptEntry, ScriptMetadata};

fn entry(name: Option<&str>, desc: Option<&str>, tags: &[&str], filename: &str) -> ScriptEntry {
    ScriptEntry {
        path: format!("/scripts/{filename}"),
        filename: filename.to_string(),
        lang: Language::Bash,
        meta: ScriptMetadata {
            name: name.map(str::to_string),
            desc: desc.map(str::to_string),
            tags: tags.iter().map(|s| s.to_string()).collect(),
            ..Default::default()
        },
        source: MetaSource::Unannotated,
    }
}

#[test]
fn matched_indices_are_char_positions_for_winning_field() {
    let idx = Index::build(vec![entry(Some("déploy"), None, &[], "x.sh")]);
    let results = idx.search("dpl");
    assert_eq!(results.len(), 1);
    assert_eq!(results[0].matched_field, MatchField::Name);
    assert_eq!(results[0].matched_indices, vec![0, 2, 3]);
}

#[test]
fn empty_query_has_no_matched_indices() {
    let idx = Index::build(vec![entry(Some("alpha"), None, &[], "a.sh")]);
    let results = idx.search("   ");
    assert!(results[0].matched_indices.is_empty());
}

#[test]
fn empty_query_returns_all_sorted_by_name() {
    let idx = Index::build(vec![
        entry(Some("zebra"), None, &[], "z.sh"),
        entry(Some("apple"), None, &[], "a.sh"),
    ]);
    let results = idx.search("   ");
    assert_eq!(results.len(), 2);
    assert_eq!(results[0].entry.display_name(), "apple");
    assert_eq!(results[1].entry.display_name(), "zebra");
}

#[test]
fn name_match_outranks_desc_match_tiered() {
    let idx = Index::build(vec![
        entry(Some("dep"), None, &[], "a.sh"),
        entry(Some("unrelated"), Some("deploy deploy deployment deploy"), &[], "b.sh"),
    ]);
    let results = idx.search("dep");
    assert_eq!(results.len(), 2);
    assert_eq!(results[0].matched_field, MatchField::Name);
    assert_eq!(results[0].entry.display_name(), "dep");
    assert_eq!(results[1].matched_field, MatchField::Desc);
}

#[test]
fn tag_match_outranks_desc_and_filename() {
    let idx = Index::build(vec![
        entry(Some("x"), Some("nothing here"), &["backup"], "x.sh"),
        entry(Some("y"), Some("backup related text"), &[], "y.sh"),
    ]);
    let results = idx.search("backup");
    assert_eq!(results.len(), 2);
    assert_eq!(results[0].matched_field, MatchField::Tags);
    assert_eq!(results[0].entry.display_name(), "x");
}

#[test]
fn unannotated_entry_matches_by_filename() {
    let idx = Index::build(vec![entry(None, None, &[], "backup-db.sh")]);
    let results = idx.search("bkdb");
    assert_eq!(results.len(), 1);
    assert_eq!(results[0].matched_field, MatchField::Filename);
}

#[test]
fn non_matching_query_returns_nothing() {
    let idx = Index::build(vec![entry(Some("deploy"), None, &[], "d.sh")]);
    assert!(idx.search("zzzzzz").is_empty());
}

#[test]
fn within_tier_higher_score_first() {
    let idx = Index::build(vec![
        entry(Some("deeployments"), None, &[], "a.sh"),
        entry(Some("dep"), None, &[], "b.sh"),
    ]);
    let results = idx.search("dep");
    assert!(results.iter().all(|r| r.matched_field == MatchField::Name));
    assert!(results[0].score >= results[1].score);
}

#[test]
fn smart_case_is_inherited() {
    let idx = Index::build(vec![entry(Some("Deploy"), None, &[], "d.sh")]);
    assert_eq!(idx.search("deploy").len(), 1);
    assert_eq!(idx.search("Dep").len(), 1);
}

#[test]
fn equal_names_are_ordered_by_path_components() {
    let mut a = entry(Some("same"), None, &[], "a.sh");
    a.path = "/s/a-b/x.sh".into();
    let mut b = entry(Some("same"), None, &[], "b.sh");
    b.path = "/s/a/x.sh".into();
    let idx = Index::build(vec![a, b]);
    let results = idx.search("");
    // Component order: "a" < "a-b", although '-' sorts before '/' as text.
    assert_eq!(results[0].entry.path, "/s/a/x.sh");
    assert_eq!(results[1].entry.path, "/s/a-b/x.sh");
}

#[test]
fn entries_round_trip_through_the_index() {
    let idx = Index::build(vec![entry(Some("a"), None, &[], "a.sh"), entry(Some("b"), None, &[], "b.sh")]);
    assert_eq!(idx.entries().len(), 2);
    let back = idx.into_entries();
    assert_eq!(back[1].filename, "b.sh");
}
