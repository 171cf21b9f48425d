use scriptvault::model::Language;

#[test]
fn from_label_parses_canonical_names() {
    assert_eq!(Language::from_label("bash"), Some(Language::Bash));
    assert_eq!(Language::from_label("python"), Some(Language::Python));
    assert_eq!(Language::from_label("rust"), Some(Language::Rust));
    assert_eq!(Language::from_label("node"), Some(Language::Node));
    assert_eq!(Language::from_label("ruby"), Some(Language::Ruby));
    assert_eq!(Language::from_label("lua"), Some(Language::Lua));
    assert_eq!(Language::from_label("sql"), Some(Language::Sql));
}

#[test]
fn from_label_is_case_insensitive_and_trims() {
    assert_eq!(Language::from_label("  BASH "), Some(Language::Bash));
    assert_eq!(Language::from_label("Python"), Some(Language::Python));
}

#[test]
fn from_label_accepts_common_aliases() {
    assert_eq!(Language::from_label("sh"), Some(Language::Bash));
    assert_eq!(Language::from_label("py"), Some(Language::Python));
    assert_eq!(Language::from_label("rs"), Some(Language::Rust));
    assert_eq!(Language::from_label("js"), Some(Language::Node));
}

#[test]
fn from_label_unknown_is_none() {
    assert_eq!(Language::from_label("cobol"), None);
    assert_eq!(Language::from_label(""), None);
}

#[test]
fn from_label_roundtrips_with_label() {
    for lang in [
        Language::Bash,
        Language::Python,
        Language::Rust,
        Language::Node,
        Language::Ruby,
        Language::Lua,
        Language::Sql,
    ] {
        assert_eq!(Language::from_label(lang.label()), Some(lang));
    }
}

#[test]
fn comment_leaders_follow_the_language() {
    assert_eq!(Language::Bash.comment_leader(), "#");
    assert_eq!(Language::Rust.comment_leader(), "//");
    assert_eq!(Language::Sql.comment_leader(), "--");
    assert_eq!(Language::Lua.comment_leader(), "--");
    assert_eq!(Language::Node.comment_leader(), "//");
    assert_eq!(Language::Unknown.label(), "unknown");
}

#[test]
fn from_label_reads_a_label_as_its_trimmed_lowercase_form() {
    for s in ["  PyThOn ", "\tJS\n", "Shell", "  ", "UNKNOWN", "ts "] {
        let normal = s.trim().to_ascii_lowercase();
        assert_eq!(Language::from_label(s), Language::from_label(&normal));
        assert_ne!(Language::from_label(s), Some(Language::Unknown));
    }
}
