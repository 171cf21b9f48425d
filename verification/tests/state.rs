use scriptvault::state::{bound_output, RecentEntry, State, MAX_OUTPUT_BYTES, MAX_RECENTS};

#[test]
fn toggle_favorite_adds_then_removes() {
    let mut s = State::default();
    let p = "/x/a.sh";
    assert!(s.toggle_favorite(p));
    assert!(s.is_favorite(p));
    assert!(!s.toggle_favorite(p));
    assert!(!s.is_favorite(p));
}

#[test]
fn record_run_increments_and_moves_to_front() {
    let mut s = State::default();
    let a = "/x/a.sh";
    let b = "/x/b.sh";
    s.record_run(a);
    s.record_run(b);
    s.record_run(a);
    assert_eq!(s.recents.len(), 2);
    assert_eq!(s.recents[0].path, a);
    assert_eq!(s.recents[0].count, 2);
    assert_eq!(s.recents[1].path, b);
}

#[test]
fn recents_are_capped_at_max_keeping_the_newest() {
    let mut s = State::default();
    for i in 0..(MAX_RECENTS + 50) {
        s.record_run(&format!("/x/s{i}.sh"));
    }
    assert_eq!(s.recents.len(), MAX_RECENTS, "recents must be capped");
    assert_eq!(s.recents[0].path, format!("/x/s{}.sh", MAX_RECENTS + 49));
    assert!(!s.recents.iter().any(|r| r.path == "/x/s0.sh"));
}

#[test]
fn re_running_an_existing_script_does_not_grow_past_cap() {
    let mut s = State::default();
    for i in 0..MAX_RECENTS {
        s.record_run(&format!("/x/s{i}.sh"));
    }
    assert_eq!(s.recents.len(), MAX_RECENTS);
    let again = "/x/s0.sh";
    s.record_run(again);
    assert_eq!(s.recents.len(), MAX_RECENTS, "re-run must not exceed the cap");
    assert_eq!(s.recents[0].path, again);
    assert_eq!(s.recents[0].count, 2);
}

#[test]
fn record_run_with_status_populates_new_fields() {
    let mut s = State::default();
    let a = "/x/a.sh";
    s.record_run_with_status(a, Some(0), Some("hello\nworld\n".into()));
    assert_eq!(s.recents.len(), 1);
    let r = &s.recents[0];
    assert_eq!(r.last_exit, Some(0));
    assert_eq!(r.last_output, Some("hello\nworld\n".into()));
    let long = "x".repeat(5000);
    s.record_run_with_status(a, Some(1), Some(long));
    let r2 = &s.recents[0];
    assert_eq!(r2.last_exit, Some(1));
    assert!(r2.last_output.as_ref().unwrap().ends_with("[truncated]"));
}

fn entry(count: u64, last_run: u64, last_exit: Option<i32>) -> RecentEntry {
    RecentEntry { path: "/x/a.sh".into(), count, last_run, last_exit, last_output: None }
}

#[test]
fn run_hint_is_none_without_history() {
    assert_eq!(entry(0, 0, None).run_hint(1000), None);
}

#[test]
fn run_hint_formats_count_age_and_status() {
    let now = 1_000_000u64;
    let cases = [
        (12, 2 * 3600, Some(0), "▲12× 2h ✓"),
        (3, 24 * 3600, Some(1), "▲3× 1d ✗"),
        (1, 0, None, "▲1× now"),
        (5, 90, Some(0), "▲5× 1m ✓"),
        (7, 30, None, "▲7× 30s"),
        (2, 8 * 24 * 3600, Some(0), "▲2× 1w ✓"),
    ];
    for (count, age, exit, want) in cases {
        let e = entry(count, now - age, exit);
        assert_eq!(e.run_hint(now).as_deref(), Some(want), "age={age} exit={exit:?}");
    }
}

#[test]
fn run_hint_clock_skew_is_safe() {
    let e = entry(1, 2000, Some(0));
    assert_eq!(e.run_hint(1000).as_deref(), Some("▲1× now ✓"));
}

#[test]
fn playlist_create_add_remove_roundtrips() {
    let mut s = State::default();
    let p = "/x/deploy.sh";
    assert!(s.create_playlist("deploy"));
    assert!(!s.create_playlist("deploy"));
    assert!(s.add_to_playlist("deploy", p));
    assert!(s.add_to_playlist("deploy", p));
    let pl = s.playlist_named("deploy").unwrap();
    assert_eq!(pl.paths, vec![p.to_string()]);
    assert!(s.remove_from_playlist("deploy", p));
    assert!(s.delete_playlist("deploy"));
    assert!(s.playlist_named("deploy").is_none());
}

#[test]
fn notes_set_get_clear() {
    let mut s = State::default();
    let p = "/x/backup.sh";
    assert!(s.note_for(p).is_none());
    s.set_note(p, "remember to check disk space");
    assert_eq!(s.note_for(p), Some("remember to check disk space"));
    s.set_note(p, "");
    assert!(s.note_for(p).is_none());
}

#[test]
fn saved_search_save_overwrite_get_delete() {
    let mut s = State::default();
    assert!(s.get_saved_search("ci").is_none());
    s.save_search("ci", "tag:ci");
    assert_eq!(s.get_saved_search("ci"), Some("tag:ci"));
    s.save_search("ci", "tag:ci deploy");
    assert_eq!(s.get_saved_search("ci"), Some("tag:ci deploy"));
    assert_eq!(s.list_saved_searches(), vec!["ci"]);
    assert!(s.delete_saved_search("ci"));
    assert!(!s.delete_saved_search("ci"));
    assert!(s.list_saved_searches().is_empty());
}

#[test]
fn record_run_at_uses_the_given_time() {
    let mut s = State::default();
    s.record_run_at("/x/a.sh", Some(2), None, 42);
    assert_eq!(s.recents[0].last_run, 42);
    assert_eq!(s.recents[0].count, 1);
    assert_eq!(s.recents[0].last_exit, Some(2));
}

#[test]
fn notes_of_other_paths_are_untouched() {
    let mut s = State::default();
    s.set_note("/x/a.sh", "first");
    s.set_note("/x/b.sh", "second");
    s.set_note("/x/a.sh", "changed");
    assert_eq!(s.note_for("/x/a.sh"), Some("changed"));
    assert_eq!(s.note_for("/x/b.sh"), Some("second"));
}

#[test]
fn adding_twice_is_adding_once_and_removing_undoes_it() {
    let mut s = State::default();
    assert!(s.create_playlist("ops"));
    assert!(!s.create_playlist("ops"));
    assert_eq!(s.playlists.len(), 1);
    s.add_to_playlist("ops", "/x/a.sh");
    let once = s.clone();
    s.add_to_playlist("ops", "/x/a.sh");
    assert_eq!(s, once);
    assert!(s.add_to_playlist("ops", "/x/b.sh"));
    assert!(s.remove_from_playlist("ops", "/x/b.sh"));
    assert_eq!(s, once);
}

#[test]
fn stored_output_is_cut_at_the_byte_cap_on_a_char_boundary() {
    let short = "ok".repeat(10);
    assert_eq!(bound_output(&short), short);
    let exact = "a".repeat(MAX_OUTPUT_BYTES);
    assert_eq!(bound_output(&exact), exact);
    let ascii = "a".repeat(5000);
    assert_eq!(bound_output(&ascii), format!("{}… [truncated]", "a".repeat(4096)));
    let wide = "😀".repeat(1100);
    assert_eq!(bound_output(&wide), format!("{}… [truncated]", "😀".repeat(1024)));
    let mixed = format!("a{}", "😀".repeat(1100));
    let cut = bound_output(&mixed);
    assert_eq!(cut, format!("a{}… [truncated]", "😀".repeat(1023)));
    assert!(cut.len() - "… [truncated]".len() <= MAX_OUTPUT_BYTES);
}
