use scriptvault::model::{Language, MatchField, MetaSource, ScriptEntry, ScriptMetadata, SearchResult};
use scriptvault::tui::{
    combined_capture_text, flatten_for_status, menu_title, name_indices, palette_commands,
    status_is_error, status_strip_text, truncate_for_status, ActionKind, JobStatus, OutputState,
    OutputStream, PaletteAction, RunCompletion, RunEvent, ViewMode, OUTPUT_BUFFER_LINES,
};

#[test]
fn status_strip_shows_view_sort_count() {
    assert_eq!(status_strip_text(ViewMode::All, 312), "All · Auto · 312");
    assert_eq!(status_strip_text(ViewMode::Favorites, 0), "Favorites · Auto · 0");
    assert_eq!(status_strip_text(ViewMode::Recents, 7), "Recents · Auto · 7");
}

#[test]
fn status_error_classifier_flags_failures_not_successes() {
    assert!(status_is_error("clipboard error: denied"));
    assert!(status_is_error("editor not found"));
    assert!(status_is_error("reload skipped (too soon)"));
    assert!(status_is_error("no result selected"));
    assert!(!status_is_error("copied: /tmp/x.sh"));
    assert!(!status_is_error("★ favorited: /tmp/x.sh"));
    assert!(!status_is_error(""));
}

fn thing(field: MatchField, name: Option<&str>) -> SearchResult {
    SearchResult {
        entry: ScriptEntry {
            path: "/x/thing.sh".to_string(),
            filename: "thing.sh".to_string(),
            lang: Language::Bash,
            meta: ScriptMetadata {
                name: name.map(str::to_string),
                tags: vec!["backup".to_string()],
                ..Default::default()
            },
            source: MetaSource::Header,
        },
        score: 10,
        matched_field: field,
        matched_indices: vec![0, 1],
    }
}

#[test]
fn name_indices_empty_when_match_is_on_tags_not_name() {
    let r = thing(MatchField::Tags, Some("Thing"));
    assert!(name_indices(&r).is_empty(), "a tags match must not highlight the name");
}

#[test]
fn name_indices_follow_name_and_shown_filename() {
    assert_eq!(name_indices(&thing(MatchField::Name, Some("Thing"))), &[0, 1]);
    assert_eq!(name_indices(&thing(MatchField::Filename, None)), &[0, 1]);
    assert!(name_indices(&thing(MatchField::Filename, Some("Thing"))).is_empty());
}

#[test]
fn action_menu_title_truncates_long_names() {
    let title = menu_title("this-is-a-very-long-script-name-that-would-crowd-the-menu.sh");
    assert!(title.starts_with("For this-is-a-very-long-script"));
    assert!(title.ends_with('…'));
    assert!(title.chars().count() <= 34);
    assert_eq!(menu_title("deploy.sh"), "For deploy.sh");
}

#[test]
fn palette_lists_every_command_once() {
    let cmds = palette_commands();
    assert_eq!(cmds.len(), 24);
    assert_eq!(cmds[0].label, "run");
    assert_eq!(cmds[0].action, PaletteAction::Act(ActionKind::Run));
    assert_eq!(cmds[7].action, PaletteAction::SetView(ViewMode::Favorites));
    assert_eq!(cmds[23].label, "quit");
}

#[test]
fn capture_snippets_are_joined_flattened_and_cut() {
    assert_eq!(combined_capture_text("a", "b"), "a\nb");
    assert_eq!(combined_capture_text("a\n", "b"), "a\nb");
    assert_eq!(combined_capture_text("", "b"), "b");
    assert_eq!(flatten_for_status("  one\ntwo\t three "), "one two three");
    assert_eq!(truncate_for_status("héllo", 3), "hél...");
    assert_eq!(truncate_for_status("hi", 3), "hi");
}

#[test]
fn output_buffer_keeps_only_the_newest_lines() {
    let mut o = OutputState::default();
    for i in 0..(OUTPUT_BUFFER_LINES + 10) {
        o.push_output_line(format!("line {i}"));
    }
    assert_eq!(o.lines.len(), OUTPUT_BUFFER_LINES);
    assert_eq!(o.lines[0].text, "line 10");
    o.push_stderr_line("oops".into());
    assert_eq!(o.lines.last().unwrap().stream, OutputStream::Stderr);
}

#[test]
fn output_scroll_is_clamped() {
    let mut o = OutputState::default();
    o.scroll_output(5);
    assert_eq!(o.scroll, 0);
    for i in 0..4 {
        o.push_output_line(format!("{i}"));
    }
    o.scroll_output(10);
    assert_eq!(o.scroll, 3);
    o.scroll_output(-1);
    assert_eq!(o.scroll, 2);
    o.scroll_output(-10);
    assert_eq!(o.scroll, 0);
}

#[test]
fn run_events_feed_the_pane_and_done_is_control() {
    let mut o = OutputState::default();
    assert_eq!(o.apply_run_event(RunEvent::Stdout("a".into())), None);
    assert_eq!(o.apply_run_event(RunEvent::Stderr("b".into())), None);
    let c = RunCompletion { code: Some(3), timed_out: false };
    assert_eq!(o.apply_run_event(RunEvent::Done(c)), Some(c));
    assert_eq!(o.lines.len(), 2);
}

#[test]
fn live_run_requests_are_one_at_a_time() {
    let mut o = OutputState::default();
    o.pending_live_run = Some("/s/a.sh".into());
    assert_eq!(o.take_live_run_request(true), None);
    assert!(o.pending_live_run.is_none());
    o.pending_live_run = Some("/s/a.sh".into());
    assert_eq!(o.take_live_run_request(false), Some("/s/a.sh".to_string()));
    o.set_live_run_path(Some("/s/a.sh".into()));
    assert!(o.live_active());
    assert_eq!(o.job, JobStatus::Running { name: "a.sh".into() });
    o.finish_job("/s/a.sh", Some(0));
    assert_eq!(o.job, JobStatus::Finished { name: "a.sh".into(), ok: true });
    o.finish_job("/s/a.sh", None);
    assert_eq!(o.job, JobStatus::Finished { name: "a.sh".into(), ok: false });
}
