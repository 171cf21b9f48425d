use scriptvault::header::{normalize_tags, parse_header, parse_tags};
use scriptvault::model::{Language, ScriptMetadata};

#[test]
fn parses_all_fields_after_shebang_and_blank() {
    let src = "\
#!/usr/bin/env bash

# scriptvault.name: Backup Postgres
# scriptvault.desc: Dumps the prod DB
# scriptvault.tags: db, backup, postgres
# scriptvault.usage: backup-db.sh [--full]
# scriptvault.category: database
# scriptvault.lang: bash

echo hi
# scriptvault.name: SHOULD-NOT-OVERRIDE (after code)
";
    let meta = parse_header(src, Language::Bash);
    assert_eq!(meta.name.as_deref(), Some("Backup Postgres"));
    assert_eq!(meta.desc.as_deref(), Some("Dumps the prod DB"));
    assert_eq!(meta.tags, vec!["db", "backup", "postgres"]);
    assert_eq!(meta.usage.as_deref(), Some("backup-db.sh [--full]"));
    assert_eq!(meta.category.as_deref(), Some("database"));
    assert_eq!(meta.lang.as_deref(), Some("bash"));
}

#[test]
fn stops_at_first_code_line() {
    let src = "\
#!/bin/bash
# scriptvault.name: Real
echo running
# scriptvault.name: Ignored
";
    let meta = parse_header(src, Language::Bash);
    assert_eq!(meta.name.as_deref(), Some("Real"));
}

#[test]
fn long_comment_header_does_not_truncate_annotations() {
    let mut src = String::from("#!/bin/bash\n");
    for i in 0..45 {
        src.push_str(&format!("# license line {i}\n"));
    }
    src.push_str("# scriptvault.name: DeepName\n");
    src.push_str("echo hi\n");
    let meta = parse_header(&src, Language::Bash);
    assert_eq!(meta.name.as_deref(), Some("DeepName"));
}

#[test]
fn no_annotations_yields_empty_meta() {
    let src = "#!/bin/bash\necho hello\n";
    let meta = parse_header(src, Language::Bash);
    assert_eq!(meta, ScriptMetadata::default());
}

#[test]
fn respects_language_comment_leader() {
    let src = "\
// scriptvault.name: RustTool
fn main() {}
";
    let meta = parse_header(src, Language::Rust);
    assert_eq!(meta.name.as_deref(), Some("RustTool"));
    let sql = "-- scriptvault.name: Report\nSELECT 1;\n";
    let meta = parse_header(sql, Language::Sql);
    assert_eq!(meta.name.as_deref(), Some("Report"));
}

#[test]
fn empty_value_is_skipped() {
    let src = "#!/bin/bash\n# scriptvault.desc:\n# scriptvault.name: X\n";
    let meta = parse_header(src, Language::Bash);
    assert_eq!(meta.desc, None);
    assert_eq!(meta.name.as_deref(), Some("X"));
}

#[test]
fn tag_splitting_trims_and_drops_empties() {
    assert_eq!(parse_tags("db, backup ,, postgres "), vec!["db", "backup", "postgres"]);
    assert!(parse_tags("   ").is_empty());
}

#[test]
fn tags_are_lowercased_and_deduplicated() {
    assert_eq!(parse_tags("DB, Backup, db, BACKUP, Postgres"), vec!["db", "backup", "postgres"]);
}

#[test]
fn normalize_tags_is_the_single_rule() {
    assert_eq!(
        normalize_tags(vec![
            "  Risk:High ".into(),
            "risk:high".into(),
            "".into(),
            "Owner:User".into(),
        ]),
        vec!["risk:high", "owner:user"]
    );
}

#[test]
fn header_without_shebang_still_parses() {
    let src = "# scriptvault.name: NoShebang\n# scriptvault.desc: works\necho hi\n";
    let meta = parse_header(src, Language::Bash);
    assert_eq!(meta.name.as_deref(), Some("NoShebang"));
    assert_eq!(meta.desc.as_deref(), Some("works"));
}

#[test]
fn crlf_line_endings_are_handled() {
    let src = "#!/bin/bash\r\n# scriptvault.name: CRLF Tool\r\necho hi\r\n";
    let meta = parse_header(src, Language::Bash);
    assert_eq!(meta.name.as_deref(), Some("CRLF Tool"));
}

#[test]
fn value_may_contain_colons() {
    let src = "#!/bin/bash\n# scriptvault.usage: run.sh --url http://x:8080/y\necho hi\n";
    let meta = parse_header(src, Language::Bash);
    assert_eq!(meta.usage.as_deref(), Some("run.sh --url http://x:8080/y"));
}

#[test]
fn unknown_scriptvault_key_is_ignored_not_an_error() {
    let src = "#!/bin/bash\n# scriptvault.bogus: whatever\n# scriptvault.name: Real\necho hi\n";
    let meta = parse_header(src, Language::Bash);
    assert_eq!(meta.name.as_deref(), Some("Real"));
}

#[test]
fn only_a_shebang_yields_empty_meta() {
    let meta = parse_header("#!/usr/bin/env python3\n", Language::Python);
    assert_eq!(meta, ScriptMetadata::default());
}

#[test]
fn risk_and_owner_keys_are_read() {
    let src = "#!/bin/bash\n# scriptvault.risk: high\n# scriptvault.owner: ops\necho hi\n";
    let meta = parse_header(src, Language::Bash);
    assert_eq!(meta.risk.as_deref(), Some("high"));
    assert_eq!(meta.owner.as_deref(), Some("ops"));
}

#[test]
fn text_after_the_first_code_line_changes_nothing() {
    let head = "#!/bin/bash\n# scriptvault.name: first\necho start\n";
    let tail = "cat <<EOF\n# scriptvault.name: second\n# scriptvault.tags: x\nEOF\n";
    let whole = format!("{}{}", head, tail);
    let a = parse_header(head, Language::Bash);
    let b = parse_header(&whole, Language::Bash);
    assert_eq!(a, b);
    assert_eq!(b.name.as_deref(), Some("first"));
}

#[test]
fn normalizing_twice_is_normalizing_once() {
    let tags = vec![" CI".to_string(), "ci".to_string(), "".to_string(), "Deploy ".to_string(), " deploy".to_string()];
    let once = normalize_tags(tags);
    assert_eq!(once, vec!["ci".to_string(), "deploy".to_string()]);
    assert_eq!(normalize_tags(once.clone()), once);
}

#[test]
fn header_tags_are_distinct_and_non_empty() {
    let m = parse_header("# scriptvault.tags: Ops, ops , ,OPS,db\n", Language::Bash);
    assert_eq!(m.tags, vec!["ops".to_string(), "db".to_string()]);
}
