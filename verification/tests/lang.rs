use scriptvault::lang::{is_known_script_ext, leader_language, resolve_language};
use scriptvault::model::Language;

#[test]
fn shebang_beats_extension() {
    assert_eq!(leader_language("foo.txt", "#!/usr/bin/env python3"), Language::Python);
}

#[test]
fn env_indirection_and_flags() {
    assert_eq!(leader_language("x", "#!/usr/bin/env -S python3.11"), Language::Python);
    assert_eq!(leader_language("x", "#!/usr/bin/env node"), Language::Node);
}

#[test]
fn direct_shebang() {
    assert_eq!(leader_language("x", "#!/bin/bash"), Language::Bash);
    assert_eq!(leader_language("x", "#!/bin/sh"), Language::Bash);
}

#[test]
fn extension_fallback_when_no_shebang() {
    assert_eq!(leader_language("a.rs", "fn main(){}"), Language::Rust);
    assert_eq!(leader_language("a.sql", "SELECT 1;"), Language::Sql);
    assert_eq!(leader_language("a.py", "x = 1"), Language::Python);
}

#[test]
fn unknown_when_nothing_matches() {
    assert_eq!(leader_language("README", "hello"), Language::Unknown);
}

#[test]
fn explicit_lang_overrides_leader() {
    assert_eq!(resolve_language(Language::Python, Some("bash")), Language::Bash);
}

#[test]
fn resolve_keeps_leader_when_no_declared_or_unknown_label() {
    assert_eq!(resolve_language(Language::Rust, None), Language::Rust);
    assert_eq!(resolve_language(Language::Rust, Some("brainfuck")), Language::Rust);
}

#[test]
fn known_script_extensions_are_recognised() {
    assert!(is_known_script_ext("/x/deploy.sh"));
    assert!(is_known_script_ext("/x/tool.py"));
    assert!(!is_known_script_ext("/x/notes.txt"));
    assert!(!is_known_script_ext("/x/README"));
}
