use scriptvault::cli::export::{to_csv, ExportRow};
use scriptvault::cli::feed::{build_feed, script_id, SCHEMA_VERSION};
use scriptvault::cli::output::{
    build_header, compute_widths, render_results_table, render_row, table_width, ColorChoice,
};
use scriptvault::cli::{build_query, match_label, OutputFormat, SearchArgs, SortArg};
use scriptvault::model::{Language, MatchField, MetaSource, ScriptEntry, ScriptMetadata, SearchResult};
use scriptvault::query::{Filter, Sort};
use scriptvault::state::State;

fn args(query: &str) -> SearchArgs {
    SearchArgs {
        query: query.to_string(),
        roots: vec![],
        paths_only: false,
        format: OutputFormat::Table,
        limit: 0,
        tags: vec![],
        lang: None,
        fav: false,
        sort: SortArg::Auto,
        run: false,
        verbose: false,
    }
}

#[test]
fn build_query_parses_inline_operators_from_the_query_string() {
    let q = build_query(&args("t:ci deploy"));
    assert_eq!(q.text, "deploy");
    assert!(q.filters.contains(&Filter::Tag("ci".into())));
}

#[test]
fn build_query_layers_explicit_flags_on_top() {
    let mut a = args("deploy");
    a.tags = vec!["ops".into()];
    a.lang = Some("bash".into());
    a.fav = true;
    a.limit = 5;
    a.sort = SortArg::Name;
    let q = build_query(&a);
    assert!(q.filters.contains(&Filter::Tag("ops".into())));
    assert!(q.filters.contains(&Filter::Lang(Language::Bash)));
    assert!(q.filters.contains(&Filter::Favorite));
    assert_eq!(q.limit, Some(5));
    assert_eq!(q.sort, Sort::Name);
}

#[test]
fn build_query_drops_unknown_lang_flag() {
    let mut a = args("");
    a.lang = Some("cobol".into());
    assert!(build_query(&a).filters.is_empty());
}

#[test]
fn build_query_zero_limit_means_no_limit() {
    assert_eq!(build_query(&args("")).limit, None);
}

#[test]
fn build_query_lowercases_tag_flags() {
    let mut a = args("");
    a.tags = vec!["CI".into()];
    a.sort = SortArg::Recent;
    let q = build_query(&a);
    assert_eq!(q.filters, vec![Filter::Tag("ci".into())]);
    assert_eq!(q.sort, Sort::RecentlyRun);
}

#[test]
fn match_labels_are_short() {
    assert_eq!(match_label(MatchField::Name), "name");
    assert_eq!(match_label(MatchField::Tags), "tags");
    assert_eq!(match_label(MatchField::Desc), "desc");
    assert_eq!(match_label(MatchField::Filename), "file");
}

fn result(name: &str, desc: &str, path: &str, matched_field: MatchField) -> SearchResult {
    SearchResult {
        entry: ScriptEntry {
            path: path.to_string(),
            filename: "deploy.sh".to_string(),
            lang: Language::Bash,
            meta: ScriptMetadata {
                name: Some(name.to_string()),
                desc: (!desc.is_empty()).then(|| desc.to_string()),
                tags: vec!["ops".to_string(), "deploy".to_string()],
                ..Default::default()
            },
            source: MetaSource::Header,
        },
        score: 100,
        matched_field,
        matched_indices: Vec::new(),
    }
}

fn strip_ansi(value: &str) -> String {
    let mut out = String::with_capacity(value.len());
    let mut chars = value.chars();
    while let Some(c) = chars.next() {
        if c == '\x1b' {
            for c in chars.by_ref() {
                if c == 'm' {
                    break;
                }
            }
        } else {
            out.push(c);
        }
    }
    out
}

#[test]
fn table_fits_terminal_width() {
    let results = [result(
        "deploy production database",
        "Ship a database migration to production",
        "/home/tom/projects/scripts/deploy/production/database/deploy.sh",
        MatchField::Name,
    )];
    let widths = compute_widths(&results, Some(80));
    assert!(table_width(widths) <= 80);
    let table = render_results_table(&results, ColorChoice::enabled(false), None);
    assert!(table.contains("NAME"));
    assert!(table.contains("MATCH"));
}

#[test]
fn color_does_not_change_visible_row() {
    let results = [result("deploy", "Ship it", "/scripts/deploy.sh", MatchField::Tags)];
    let widths = compute_widths(&results, Some(120));
    let plain = render_row(&results[0], widths, ColorChoice::enabled(false));
    let colored = render_row(&results[0], widths, ColorChoice::enabled(true));
    assert!(colored.len() > plain.len());
    assert_eq!(strip_ansi(&colored), plain);
}

#[test]
fn very_narrow_width_omits_summary_before_breaking_columns() {
    let results = [result("long deploy name", "A long description", "/a/long/path/to/deploy.sh", MatchField::Desc)];
    let widths = compute_widths(&results, Some(50));
    assert_eq!(widths.summary, 0);
    assert!(table_width(widths) <= 50);
}

#[test]
fn empty_query_rows_render_as_all_not_internal_placeholder() {
    let results = [SearchResult {
        score: 0,
        matched_indices: Vec::new(),
        ..result("deploy", "", "/scripts/deploy.sh", MatchField::Name)
    }];
    let table = render_results_table(&results, ColorChoice::enabled(false), None);
    assert!(table.contains(" all "));
    assert!(!table.contains(" name "));
}

#[test]
fn table_layout_is_exact_for_a_small_row() {
    let results = [result("dep", "", "/s/a.sh", MatchField::Name)];
    let w = compute_widths(&results, None);
    assert_eq!((w.name, w.lang, w.matched, w.path, w.summary), (4, 4, 5, 7, 13));
    assert_eq!(build_header(w), "NAME LANG MATCH PATH     SUMMARY      ");
    assert_eq!(render_row(&results[0], w, ColorChoice::enabled(false)), "dep  bash name  /s/a.sh  [ops, deploy]");
    let table = render_results_table(&results, ColorChoice::enabled(false), None);
    assert_eq!(table.lines().count(), 3);
    assert_eq!(table.lines().nth(1).unwrap().chars().count(), table_width(w));
    assert!(render_results_table(&[], ColorChoice::enabled(true), None).is_empty());
}

#[test]
fn long_cells_are_cut_with_an_ellipsis() {
    let results = [result("a-name-that-is-much-longer-than-the-cap-allows", "", "/s/a.sh", MatchField::Name)];
    let w = compute_widths(&results, None);
    assert_eq!(w.name, 28);
    let row = render_row(&results[0], w, ColorChoice::enabled(false));
    assert!(row.starts_with("a-name-that-is-much-longer-…"));
}

#[test]
fn color_choice_respects_no_color() {
    assert!(ColorChoice::from_stdout(true, false).enabled);
    assert!(!ColorChoice::from_stdout(true, true).enabled);
    assert!(!ColorChoice::from_stdout(false, false).enabled);
}

fn export_result(name: &str, desc: &str, tags: &[&str], path: &str) -> SearchResult {
    SearchResult {
        entry: ScriptEntry {
            path: path.to_string(),
            filename: "x.sh".to_string(),
            lang: Language::Bash,
            meta: ScriptMetadata {
                name: Some(name.to_string()),
                desc: (!desc.is_empty()).then(|| desc.to_string()),
                tags: tags.iter().map(|t| t.to_string()).collect(),
                ..Default::default()
            },
            source: MetaSource::Header,
        },
        score: 100,
        matched_field: MatchField::Name,
        matched_indices: Vec::new(),
    }
}

#[test]
fn csv_has_header_and_quotes_fields_safely() {
    let results = [export_result("deploy", r#"ship it, "now""#, &["ci", "prod"], "/s/deploy.sh")];
    let csv = to_csv(&results);
    let mut lines = csv.lines();
    assert_eq!(lines.next().unwrap(), "name,lang,path,tags,desc");
    let row = lines.next().unwrap();
    assert!(row.contains("\"ci;prod\""));
    assert!(row.contains(r#""ship it, ""now""""#));
}

#[test]
fn export_rows_carry_only_user_facing_fields() {
    let r = export_result("deploy", "", &["ci"], "/s/deploy.sh");
    let row = ExportRow::from_result(&r);
    assert_eq!(row.name, "deploy");
    assert_eq!(row.lang, "bash");
    assert_eq!(row.path, "/s/deploy.sh");
    assert_eq!(row.tags, vec!["ci".to_string()]);
    assert_eq!(row.desc, "");
    assert_eq!(to_csv(&[]), "name,lang,path,tags,desc\n");
}

#[test]
fn script_id_is_the_file_stem_and_never_blank() {
    assert_eq!(script_id("/s/deploy-prod.sh"), "deploy-prod");
    assert_eq!(script_id("backup-db.py"), "backup-db");
    assert!(!script_id("/").trim().is_empty());
}

fn entry(path: &str, name: Option<&str>, desc: Option<&str>) -> ScriptEntry {
    ScriptEntry {
        path: path.to_string(),
        filename: path.rsplit('/').next().unwrap().to_string(),
        lang: Language::Bash,
        meta: ScriptMetadata {
            name: name.map(str::to_string),
            desc: desc.map(str::to_string),
            ..Default::default()
        },
        source: MetaSource::Header,
    }
}

#[test]
fn feed_has_the_envelope_workstate_expects() {
    let entries = vec![
        entry("/s/deploy-prod.sh", Some("deploy-prod.sh"), Some("ship it")),
        entry("/s/backup-db.sh", None, Some("nightly backup")),
    ];
    let mut state = State::default();
    state.toggle_favorite("/s/backup-db.sh");
    state.record_run_at("/s/gone.sh", Some(0), None, 10);
    state.record_run_at("/s/deploy-prod.sh", Some(0), None, 20);
    let feed = build_feed(&entries, &state, "2024-01-01T00:00:00Z".to_string());
    assert_eq!(feed.schema_version, SCHEMA_VERSION);
    assert_eq!(feed.source_tool, "scriptvault");
    assert_eq!(feed.generated_at, "2024-01-01T00:00:00Z");
    assert_eq!(feed.scripts.len(), 2);
    assert_eq!(feed.scripts[0].id, "deploy-prod");
    assert_eq!(feed.scripts[1].name, "backup-db.sh");
    assert_eq!(feed.favorites, vec!["backup-db".to_string()]);
    assert_eq!(feed.recents, vec!["deploy-prod".to_string()]);
}

#[test]
fn description_is_omitted_when_absent_not_emitted_as_empty() {
    let entries = vec![entry("/s/a.sh", None, None)];
    let feed = build_feed(&entries, &State::default(), "t".to_string());
    assert_eq!(feed.scripts[0].description, None);
}

#[test]
fn feed_lists_only_indexed_favorites_and_recents() {
    let entries = vec![entry("/s/deploy.sh", None, None)];
    let mut state = State::default();
    state.toggle_favorite("/s/gone.sh");
    state.toggle_favorite("/s/deploy.sh");
    state.record_run_at("/s/gone.sh", None, None, 5);
    let feed = build_feed(&entries, &state, "t".to_string());
    assert_eq!(feed.favorites, vec!["deploy".to_string()]);
    assert!(feed.recents.is_empty());
}
