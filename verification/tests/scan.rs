use scriptvault::error::ScriptVaultError;
use scriptvault::scan::{build_ignore_set, dedup_paths, is_candidate, is_shebang_start, is_sidecar_name};

#[test]
fn skips_sidecar_yaml_files() {
    assert!(is_sidecar_name("deploy.sh.scriptvault.yaml"));
    assert!(!is_sidecar_name("deploy.sh"));
    assert!(!is_candidate("/x/deploy.sh.scriptvault.yaml", "deploy.sh.scriptvault.yaml", true));
}

#[test]
fn binaries_and_data_files_are_not_candidates() {
    assert!(is_candidate("/x/a.sh", "a.sh", false));
    assert!(!is_candidate("/x/data.csv", "data.csv", false));
    assert!(!is_candidate("/x/tool", "tool", false));
}

#[test]
fn extensionless_shebang_file_is_a_candidate() {
    assert!(is_shebang_start(b"#!/bin/sh\n"));
    assert!(!is_shebang_start(b"#"));
    assert!(!is_shebang_start(b"\x7fELF"));
    assert!(is_candidate("/x/tool", "tool", true));
}

#[test]
fn glob_ignores_prune_files_and_dirs_while_literals_still_work() {
    let set = build_ignore_set(&vec![".git".into(), "build-*".into(), "*.tmp".into(), "  ".into()]).unwrap();
    assert!(set.is_ignored(".git"));
    assert!(set.is_ignored("build-x86"));
    assert!(set.is_ignored("scratch.tmp"));
    assert!(!set.is_ignored("deploy.sh"));
    assert!(!set.is_ignored("git"));
}

#[test]
fn bad_glob_pattern_is_a_clear_error_not_a_silent_noop() {
    match build_ignore_set(&vec!["ok".into(), "[unclosed".into()]) {
        Err(ScriptVaultError::BadIgnorePattern { pattern, .. }) => assert_eq!(pattern, "[unclosed"),
        Err(other) => panic!("unexpected error {other:?}"),
        Ok(_) => panic!("a bad glob must be an error"),
    }
}

#[test]
fn overlapping_roots_dedup() {
    let out = dedup_paths(vec!["/a/x.sh".into(), "/a/y.sh".into(), "/a/x.sh".into()]);
    assert_eq!(out, vec!["/a/x.sh".to_string(), "/a/y.sh".to_string()]);
}

#[test]
fn valid_patterns_always_build_a_set() {
    let set = build_ignore_set(&vec!["".into(), "   ".into()]).unwrap();
    assert!(!set.is_ignored("anything"));
    let set = build_ignore_set(&vec!["node_modules".into(), "*.{bak,swp}".into(), "[ab]?".into()]).unwrap();
    assert!(set.is_ignored("node_modules"));
    assert!(set.is_ignored("x.swp"));
    assert!(set.is_ignored("a1"));
    assert!(!set.is_ignored("c1"));
}
