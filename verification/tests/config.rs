use scriptvault::config::{expand_tilde, Config};

#[test]
fn user_with_only_editor_keeps_default_roots() {
    let defaults = Config { roots: vec!["/default/bin".into()], ignores: vec![".git".into()], editor: None };
    let user = Config { roots: vec![], ignores: vec![], editor: Some("nvim".into()) };
    let merged = defaults.merge_user(user);
    assert_eq!(merged.roots, vec!["/default/bin".to_string()]);
    assert_eq!(merged.editor, Some("nvim".into()));
}

#[test]
fn user_roots_replace_when_present() {
    let defaults = Config { roots: vec!["/default/bin".into()], ..Default::default() };
    let user = Config { roots: vec!["/my/scripts".into()], ..Default::default() };
    let merged = defaults.merge_user(user);
    assert_eq!(merged.roots, vec!["/my/scripts".to_string()]);
}

#[test]
fn user_ignores_append_and_dedup() {
    let defaults = Config { ignores: vec![".git".into(), "target".into()], ..Default::default() };
    let user = Config { ignores: vec![".git".into(), "dist".into()], ..Default::default() };
    let merged = defaults.merge_user(user);
    assert_eq!(merged.ignores, vec![".git".to_string(), "target".to_string(), "dist".to_string()]);
}

#[test]
fn no_roots_is_rejected_with_guidance() {
    let cfg = Config { roots: vec![], ..Default::default() };
    let msg = cfg.validate().unwrap_err().message();
    assert!(msg.contains("no scan roots"), "got: {msg}");
    assert!(msg.contains("config.yaml"), "got: {msg}");
}

#[test]
fn blank_root_is_rejected() {
    let cfg = Config { roots: vec!["   ".into()], ..Default::default() };
    assert!(cfg.validate().unwrap_err().message().contains("roots[0]"));
}

#[test]
fn blank_ignore_is_rejected() {
    let cfg = Config { roots: vec!["/x".into()], ignores: vec!["".into()], ..Default::default() };
    assert!(cfg.validate().unwrap_err().message().contains("ignores[0]"));
}

#[test]
fn empty_editor_is_rejected_but_none_is_ok() {
    let base = Config { roots: vec!["/x".into()], ..Default::default() };
    assert!(base.validate().is_ok());
    let bad = Config { editor: Some("  ".into()), ..base };
    assert!(bad.validate().unwrap_err().message().contains("editor"));
}

#[test]
fn tilde_expands_only_leading() {
    assert_eq!(expand_tilde("~/bin", Some("/home/u")), "/home/u/bin");
    assert_eq!(expand_tilde("~", Some("/home/u")), "/home/u");
    assert_eq!(expand_tilde("/abs/path", Some("/home/u")), "/abs/path");
    assert_eq!(expand_tilde("/x/~/y", Some("/home/u")), "/x/~/y");
    assert_eq!(expand_tilde("~/bin", None), "~/bin");
    assert_eq!(expand_tilde("~/bin", Some("/home/u/")), "/home/u/bin");
    assert_eq!(expand_tilde("~otheruser/bin", Some("/home/u")), "~otheruser/bin");
}

#[test]
fn blank_root_position_is_reported() {
    let cfg = Config { roots: vec!["/a".into(), "/b".into(), "".into()], ..Default::default() };
    let msg = cfg.validate().unwrap_err().message();
    assert_eq!(msg, "invalid configuration: roots[2] is empty — remove the blank entry or give it a real path");
}

#[test]
fn settle_merges_expands_and_validates() {
    let defaults = Config { roots: vec!["/opt/scripts".into()], ignores: vec![".git".into()], editor: None };
    let user = Config { roots: vec![], ignores: vec![".git".into(), "dist".into()], editor: Some("vim".into()) };
    let c = Config::settle(defaults, Some(user)).unwrap();
    assert_eq!(c.roots, vec!["/opt/scripts".to_string()]);
    assert_eq!(c.ignores, vec![".git".to_string(), "dist".to_string()]);
    assert_eq!(c.editor.as_deref(), Some("vim"));
    assert!(Config::settle(Config::default(), None).is_err());
}

#[test]
fn expand_roots_uses_the_given_home() {
    let c = Config { roots: vec!["~/bin".into(), "/usr/local/bin".into()], ..Default::default() };
    let e = c.expand_roots(Some("/home/z"));
    assert_eq!(e.roots, vec!["/home/z/bin".to_string(), "/usr/local/bin".to_string()]);
}
