use scriptvault::model::Language;
use scriptvault::query::parse::{parse_query, pop_last_filter_token};
use scriptvault::query::{Filter, Query, RiskLevel, Sort, View};

#[test]
fn chip_label_renders_each_filter() {
    assert_eq!(Filter::Tag("ci".into()).chip_label().as_deref(), Some("t:ci"));
    assert_eq!(Filter::Category("ops".into()).chip_label().as_deref(), Some("c:ops"));
    assert_eq!(Filter::Lang(Language::Bash).chip_label().as_deref(), Some("lang:bash"));
    assert_eq!(Filter::Favorite.chip_label().as_deref(), Some("fav:"));
    assert_eq!(Filter::Risk(RiskLevel::High).chip_label().as_deref(), Some("risk:high"));
    assert_eq!(Filter::NotTag("wip".into()).chip_label().as_deref(), Some("-t:wip"));
}

#[test]
fn playlist_filter_has_no_chip() {
    assert_eq!(Filter::Playlist("nightly".into()).chip_label(), None);
}

#[test]
fn chip_labels_round_trip_through_the_parser() {
    for f in [
        Filter::Tag("ci".into()),
        Filter::Category("ops".into()),
        Filter::Lang(Language::Bash),
        Filter::Favorite,
        Filter::Risk(RiskLevel::High),
        Filter::NotTag("wip".into()),
    ] {
        let label = f.chip_label().unwrap();
        let parsed = parse_query(&label);
        assert_eq!(parsed.filters, vec![f.clone()], "round-trip failed for {label}");
        assert!(parsed.text.is_empty(), "label {label} leaked into fuzzy text");
    }
}

#[test]
fn plain_text_is_the_fuzzy_text() {
    let q = parse_query("deploy");
    assert_eq!(q.text, "deploy");
    assert!(q.filters.is_empty());
}

#[test]
fn pop_last_filter_removes_only_the_last_operator() {
    assert_eq!(pop_last_filter_token("t:ci lang:bash deploy"), "t:ci deploy");
    assert_eq!(pop_last_filter_token("t:ci"), "");
    assert_eq!(pop_last_filter_token("deploy t:ci"), "deploy");
    assert_eq!(pop_last_filter_token("deploy -t:wip"), "deploy");
    assert_eq!(pop_last_filter_token("deploy prod"), "deploy prod");
    assert_eq!(pop_last_filter_token(""), "");
    assert_eq!(pop_last_filter_token("t:ci deploy prod"), "deploy prod");
}

#[test]
fn multiple_plain_terms_are_preserved_in_order() {
    let q = parse_query("deploy prod app");
    assert_eq!(q.text, "deploy prod app");
    assert!(q.filters.is_empty());
}

#[test]
fn empty_and_whitespace_are_empty_query() {
    assert_eq!(parse_query(""), Query::default());
    assert_eq!(parse_query("    "), Query::default());
}

#[test]
fn tag_operator_short_and_long() {
    let q = parse_query("t:ci");
    assert_eq!(q.filters, vec![Filter::Tag("ci".into())]);
    assert_eq!(q.text, "");
    let q = parse_query("tag:ci");
    assert_eq!(q.filters, vec![Filter::Tag("ci".into())]);
}

#[test]
fn category_operator_short_and_long() {
    assert_eq!(parse_query("c:ops").filters, vec![Filter::Category("ops".into())]);
    assert_eq!(parse_query("category:ops").filters, vec![Filter::Category("ops".into())]);
}

#[test]
fn lang_operator_parses_known_language() {
    let q = parse_query("lang:bash");
    assert_eq!(q.filters, vec![Filter::Lang(Language::Bash)]);
    assert_eq!(q.text, "");
}

#[test]
fn unknown_lang_value_falls_back_to_plain_text() {
    let q = parse_query("lang:cobol deploy");
    assert!(q.filters.is_empty());
    assert_eq!(q.text, "lang:cobol deploy");
}

#[test]
fn fav_operator_sets_favorite_filter() {
    let q = parse_query("fav:");
    assert_eq!(q.filters, vec![Filter::Favorite]);
    assert_eq!(q.text, "");
}

#[test]
fn risk_operator_parses_level() {
    assert_eq!(parse_query("risk:high").filters, vec![Filter::Risk(RiskLevel::High)]);
}

#[test]
fn negated_tag_is_not_tag_filter() {
    let q = parse_query("-t:wip");
    assert_eq!(q.filters, vec![Filter::NotTag("wip".into())]);
    assert_eq!(q.text, "");
}

#[test]
fn combined_operators_and_text() {
    let q = parse_query("t:ci c:ops deploy prod");
    assert!(q.filters.contains(&Filter::Tag("ci".into())));
    assert!(q.filters.contains(&Filter::Category("ops".into())));
    assert_eq!(q.filters.len(), 2);
    assert_eq!(q.text, "deploy prod");
}

#[test]
fn operators_are_case_insensitive_keys_but_preserve_value_case_lowered() {
    let q = parse_query("T:CI");
    assert_eq!(q.filters, vec![Filter::Tag("ci".into())]);
}

#[test]
fn unknown_operator_is_plain_text() {
    let q = parse_query("foo:bar deploy");
    assert!(q.filters.is_empty());
    assert_eq!(q.text, "foo:bar deploy");
}

#[test]
fn operator_with_empty_value_except_fav_is_plain_text() {
    let q = parse_query("t: deploy");
    assert!(q.filters.is_empty());
    assert_eq!(q.text, "t: deploy");
}

#[test]
fn duplicate_filters_are_deduplicated() {
    let q = parse_query("t:ci t:ci deploy");
    assert_eq!(q.filters, vec![Filter::Tag("ci".into())]);
    assert_eq!(q.text, "deploy");
}

#[test]
fn negated_unknown_operator_is_plain_text() {
    let q = parse_query("-c:ops deploy");
    assert!(q.filters.is_empty());
    assert_eq!(q.text, "-c:ops deploy");
}

#[test]
fn query_text_has_defaults_otherwise() {
    let q = Query::text("deploy");
    assert_eq!(q.text, "deploy");
    assert_eq!(q.view, View::All);
    assert_eq!(q.sort, Sort::Auto);
    assert_eq!(q.limit, None);
}

#[test]
fn risk_level_labels_round_trip() {
    for r in [RiskLevel::Low, RiskLevel::Medium, RiskLevel::High] {
        assert_eq!(RiskLevel::from_label(r.label()), Some(r));
    }
    assert_eq!(RiskLevel::from_label("  HIGH "), Some(RiskLevel::High));
    assert_eq!(RiskLevel::from_label("extreme"), None);
}

#[test]
fn popping_a_filter_keeps_the_fuzzy_text() {
    let input = "deploy  t:ci prod lang:bash";
    let popped = pop_last_filter_token(input);
    assert_eq!(popped, "deploy t:ci prod");
    assert_eq!(parse_query(&popped).text, parse_query(input).text);
    assert_eq!(parse_query(&popped).text, "deploy prod");
    assert_eq!(parse_query(&popped).filters, vec![Filter::Tag("ci".into())]);
    let plain = "  hello   world ";
    assert_eq!(pop_last_filter_token(plain), plain);
}
