use scriptvault::model::{Language, MetaSource, ScriptMetadata};
use scriptvault::parser::{build_entry, parse_all, Candidate};
use scriptvault::sidecar::{merge, sidecar_path};

fn meta(name: Option<&str>, desc: Option<&str>, tags: &[&str]) -> ScriptMetadata {
    ScriptMetadata {
        name: name.map(str::to_string),
        desc: desc.map(str::to_string),
        tags: tags.iter().map(|s| s.to_string()).collect(),
        ..Default::default()
    }
}

#[test]
fn unannotated_readable_file_is_indexed_not_dropped() {
    let entry = build_entry("/x/foo.sh", "#!/bin/bash\necho hi\n", None);
    assert_eq!(entry.filename, "foo.sh");
    assert_eq!(entry.display_name(), "foo.sh");
    assert_eq!(entry.source, MetaSource::Unannotated);
    assert_eq!(entry.lang, Language::Bash);
    assert!(entry.meta.name.is_none());
}

#[test]
fn header_only_entry() {
    let src = "#!/bin/bash\n# scriptvault.name: Greeter\n# scriptvault.tags: hi, demo\necho hi\n";
    let entry = build_entry("/x/greet.sh", src, None);
    assert_eq!(entry.display_name(), "Greeter");
    assert_eq!(entry.meta.tags, vec!["hi", "demo"]);
    assert_eq!(entry.source, MetaSource::Header);
}

#[test]
fn explicit_lang_in_header_overrides_leader() {
    let src = "#!/usr/bin/env python3\n# scriptvault.lang: bash\n# scriptvault.name: X\nprint(1)\n";
    let entry = build_entry("/x/weird.py", src, None);
    assert_eq!(entry.lang, Language::Bash);
    assert_eq!(entry.display_name(), "X");
}

#[test]
fn sidecar_overrides_and_sets_source_both() {
    let src = "#!/bin/bash\n# scriptvault.name: HeaderName\n# scriptvault.desc: HD\necho go\n";
    let side = ScriptMetadata {
        name: Some("SidecarName".into()),
        category: Some("ops".into()),
        ..Default::default()
    };
    let entry = build_entry("/x/deploy.sh", src, Some(side));
    assert_eq!(entry.display_name(), "SidecarName");
    assert_eq!(entry.meta.desc.as_deref(), Some("HD"));
    assert_eq!(entry.meta.category.as_deref(), Some("ops"));
    assert_eq!(entry.source, MetaSource::Both);
}

#[test]
fn sidecar_only_entry_is_marked_sidecar() {
    let side = ScriptMetadata { desc: Some("from yaml".into()), ..Default::default() };
    let entry = build_entry("/x/plain.sh", "#!/bin/bash\necho hi\n", Some(side));
    assert_eq!(entry.source, MetaSource::Sidecar);
    assert_eq!(entry.meta.desc.as_deref(), Some("from yaml"));
}

#[test]
fn unreadable_candidates_are_skipped_by_parse_all() {
    let out = parse_all(vec![
        Candidate { path: "/x/a.sh".into(), contents: Some("#!/bin/bash\necho a\n".into()), sidecar: None },
        Candidate { path: "/x/bin".into(), contents: None, sidecar: None },
        Candidate { path: "/x/b.py".into(), contents: Some("print(1)\n".into()), sidecar: None },
    ]);
    assert_eq!(out.len(), 2);
    assert_eq!(out[0].filename, "a.sh");
    assert_eq!(out[1].lang, Language::Python);
}

#[test]
fn sidecar_path_appends_to_full_filename() {
    assert_eq!(sidecar_path("/x/deploy.sh"), "/x/deploy.sh.scriptvault.yaml");
}

#[test]
fn sidecar_overrides_header_on_conflict() {
    let header = meta(Some("HeaderName"), Some("HeaderDesc"), &["h1"]);
    let side = meta(Some("SideName"), None, &["s1", "s2"]);
    let merged = merge(header, side);
    assert_eq!(merged.name.as_deref(), Some("SideName"));
    assert_eq!(merged.desc.as_deref(), Some("HeaderDesc"));
    assert_eq!(merged.tags, vec!["s1", "s2"]);
}

#[test]
fn sidecar_setting_only_name_keeps_header_tags_and_desc() {
    let header = meta(Some("H"), Some("KeepDesc"), &["keep1", "keep2"]);
    let side = meta(Some("OnlyName"), None, &[]);
    let merged = merge(header, side);
    assert_eq!(merged.name.as_deref(), Some("OnlyName"));
    assert_eq!(merged.desc.as_deref(), Some("KeepDesc"));
    assert_eq!(merged.tags, vec!["keep1", "keep2"]);
}

#[test]
fn an_empty_sidecar_leaves_the_header_as_it_is() {
    let header = ScriptMetadata {
        usage: Some("deploy.sh [--full]".to_string()),
        risk: Some("high".to_string()),
        ..meta(Some("H"), Some("d"), &["a"])
    };
    assert_eq!(merge(header.clone(), ScriptMetadata::default()), header);
}
