use scriptvault::model::{Language, MatchField, MetaSource, ScriptEntry, ScriptMetadata, SearchResult};
use scriptvault::tui::app::build_sidecar_fields;
use scriptvault::tui::panes::{
    classify, empty_message, highlight_runs, list_title, preview_rows, risk_tag, row_parts, PreviewRow,
};
use scriptvault::tui::{EditState, SyntaxKind, ViewMode};

fn edit(name: &str, desc: &str, tags: &str, usage: &str, category: &str) -> EditState {
    EditState {
        path: Some("/x/deploy.sh".to_string()),
        name: name.to_string(),
        desc: desc.to_string(),
        tags: tags.to_string(),
        usage: usage.to_string(),
        category: category.to_string(),
        note: String::new(),
        focus: 0,
        playlist_picker_selected: None,
    }
}

fn result(field: MatchField, indices: Vec<usize>) -> SearchResult {
    SearchResult {
        entry: ScriptEntry {
            path: "/vault/deploy.sh".to_string(),
            filename: "deploy.sh".to_string(),
            lang: Language::Bash,
            meta: ScriptMetadata {
                name: Some("deploy".to_string()),
                desc: Some("ship it".to_string()),
                tags: vec!["ci".to_string(), "Risk:High".to_string()],
                usage: Some("deploy.sh [--full]".to_string()),
                ..Default::default()
            },
            source: MetaSource::Header,
        },
        score: 80,
        matched_field: field,
        matched_indices: indices,
    }
}

#[test]
fn highlight_spans_split_on_matched_chars() {
    let runs = highlight_runs("deploy", &[0, 1, 2]);
    assert_eq!(runs.len(), 2);
    assert_eq!(runs[0].0, "dep");
    assert_eq!(runs[1].0, "loy");
}

#[test]
fn highlight_spans_empty_indices_is_single_plain_span() {
    let runs = highlight_runs("deploy", &[]);
    assert_eq!(runs.len(), 1);
    assert_eq!(runs[0].0, "deploy");
}

#[test]
fn highlight_runs_alternate_and_flag_matches() {
    let runs = highlight_runs("deploy", &[1, 3, 4]);
    let expected: Vec<(String, bool)> = vec![
        ("d".to_string(), false),
        ("e".to_string(), true),
        ("p".to_string(), false),
        ("lo".to_string(), true),
        ("y".to_string(), false),
    ];
    assert_eq!(runs, expected);
    assert_eq!(highlight_runs("", &[0]), vec![(String::new(), false)]);
}

#[test]
fn empty_fields_are_omitted_so_they_deserialize_to_none() {
    let f = build_sidecar_fields(&edit("Deploy", "", "", "", ""));
    assert_eq!(f.name.as_deref(), Some("Deploy"));
    assert_eq!(f.desc, None, "empty desc must be None, not Some(\"\")");
    assert_eq!(f.usage, None, "empty usage must be None");
    assert_eq!(f.category, None, "empty category must be None");
    assert!(f.tags.is_empty(), "empty tags must be an empty list");
}

#[test]
fn populated_fields_round_trip_intact() {
    let f = build_sidecar_fields(&edit("Deploy", "ship it", "ci, prod", "deploy.sh [--full]", "ops"));
    assert_eq!(f.name.as_deref(), Some("Deploy"));
    assert_eq!(f.desc.as_deref(), Some("ship it"));
    assert_eq!(f.usage.as_deref(), Some("deploy.sh [--full]"));
    assert_eq!(f.category.as_deref(), Some("ops"));
    assert_eq!(f.tags, vec!["ci", "prod"]);
}

#[test]
fn whitespace_only_fields_are_treated_as_empty() {
    let f = build_sidecar_fields(&edit("  ", "   ", " , ,, ", "\t", ""));
    assert_eq!(f.name, None);
    assert_eq!(f.desc, None);
    assert_eq!(f.usage, None);
    assert_eq!(f.category, None);
    assert!(f.tags.is_empty());
}

#[test]
fn scopes_classify_by_their_leading_name() {
    assert_eq!(classify("comment.line.number-sign"), SyntaxKind::Comment);
    assert_eq!(classify("string.quoted.double"), SyntaxKind::StringLit);
    assert_eq!(classify("constant.numeric.integer"), SyntaxKind::Number);
    assert_eq!(classify("keyword.control"), SyntaxKind::Keyword);
    assert_eq!(classify("storage.type"), SyntaxKind::Keyword);
    assert_eq!(classify("constant.language"), SyntaxKind::Normal);
    assert_eq!(classify(""), SyntaxKind::Normal);
}

#[test]
fn empty_list_message_names_the_situation() {
    assert_eq!(
        empty_message("  deplo ", Some("ops"), ViewMode::Favorites),
        ("no matches for “deplo”".to_string(), "press Ctrl-U to clear the query, or refine it".to_string())
    );
    assert_eq!(
        empty_message("", Some("ops"), ViewMode::All),
        ("playlist “ops” is empty".to_string(), "add scripts to it from the action menu (Enter)".to_string())
    );
    assert_eq!(empty_message(" ", None, ViewMode::Favorites).0, "no favorites yet");
    assert_eq!(empty_message("", None, ViewMode::Recents).0, "nothing run yet");
    assert_eq!(empty_message("", None, ViewMode::All).1, "check your roots in ~/.config/scriptvault/config.yaml");
}

#[test]
fn list_title_shows_view_count_and_playlist() {
    assert_eq!(list_title(ViewMode::All, 12, None), "results (12)");
    assert_eq!(list_title(ViewMode::Favorites, 0, None), "★ favorites (0)");
    assert_eq!(list_title(ViewMode::Recents, 3, Some("ops")), "recents (3) [ops]");
}

#[test]
fn risk_tag_is_the_first_risk_prefixed_tag_in_any_case() {
    assert_eq!(risk_tag(&vec!["ci".to_string(), "Risk:High".to_string(), "risk:low".to_string()]).as_deref(), Some("Risk:High"));
    assert_eq!(risk_tag(&vec!["ci".to_string(), "risky".to_string()]), None);
}

fn field(key: &str, value: &str, emphasized: bool) -> PreviewRow {
    PreviewRow::Field { key: key.to_string(), value: value.to_string(), emphasized }
}

#[test]
fn preview_rows_list_metadata_then_annotations() {
    let r = result(MatchField::Desc, vec![0]);
    let rows = preview_rows(&r, "ship", Some("5m ago (1×) ✓"), Some("  "), Some("deployed ok"));
    let expected = vec![
        field("    name: ", "deploy", false),
        field("    desc: ", "ship it", true),
        field("    tags: ", "ci, Risk:High", false),
        PreviewRow::Risk("  risk: Risk:High".to_string()),
        field("   usage: ", "deploy.sh [--full]", false),
        field("    lang: ", "bash", false),
        field("    path: ", "/vault/deploy.sh", false),
        PreviewRow::Annotation("  last: 5m ago (1×) ✓".to_string()),
        PreviewRow::Annotation("  out: deployed ok".to_string()),
    ];
    assert_eq!(rows, expected);
}

#[test]
fn preview_emphasizes_nothing_without_a_query() {
    let r = result(MatchField::Name, vec![0]);
    let rows = preview_rows(&r, "   ", None, Some("check prod first"), None);
    assert!(rows.iter().all(|row| !matches!(row, PreviewRow::Field { emphasized: true, .. })));
    assert_eq!(rows.last(), Some(&PreviewRow::Annotation("  note: check prod first".to_string())));
}

#[test]
fn row_parts_carry_badge_tags_risk_and_hint() {
    let r = result(MatchField::Name, vec![0, 1]);
    let p = row_parts(&r, "de", true, false, Some("▲2× 5m ✓".to_string()));
    assert!(!p.selected);
    assert!(p.favorite);
    assert_eq!(p.name, vec![("de".to_string(), true), ("ploy".to_string(), false)]);
    assert_eq!(p.badge.as_deref(), Some("·name"));
    assert_eq!(p.tags.as_deref(), Some("[ci, Risk:High]"));
    assert_eq!(p.risk.as_deref(), Some("[Risk:High]"));
    assert_eq!(p.hint.as_deref(), Some("▲2× 5m ✓"));

    let q = row_parts(&result(MatchField::Tags, vec![0]), "", false, true, None);
    assert!(q.selected);
    assert_eq!(q.badge, None);
    assert_eq!(q.name, vec![("deploy".to_string(), false)]);
}
