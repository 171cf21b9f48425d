use scriptvault::config::Config;
use scriptvault::index::Index;
use scriptvault::model::{Language, MetaSource, ScriptEntry, ScriptMetadata, SearchResult};
use scriptvault::query::engine::RankInput;
use scriptvault::state::{Playlist, State};
use scriptvault::tui::app::{build_sidecar_fields, App, Key, KeyCode, ListRect, ReloadReason, Task};
use scriptvault::tui::{
    poll_timeout_millis, ActionKind, EditState, JobStatus, Mode, OutputStream, Outcome, RunCompletion, RunEvent, ViewMode,
};
use scriptvault::vault::ScriptVault;

const NOW: u64 = 1_700_000_000;

fn script(name: &str, tags: &[&str]) -> ScriptEntry {
    ScriptEntry {
        path: format!("/vault/{name}.sh"),
        filename: format!("{name}.sh"),
        lang: Language::Bash,
        meta: ScriptMetadata {
            name: Some(name.to_string()),
            tags: tags.iter().map(|s| s.to_string()).collect(),
            ..Default::default()
        },
        source: MetaSource::Header,
    }
}

fn order_image(x: f64) -> i64 {
    let b = x.to_bits() as i64;
    b ^ ((((b >> 63) as u64) >> 1) as i64)
}

/// Fuzzy score plus a favourite bonus; no frecency in these fixtures.
fn rank(state: &State, _now: u64, r: &SearchResult) -> RankInput {
    let fav = if state.is_favorite(&r.entry.path) { 25.0 } else { 0.0 };
    RankInput { mtime: 0, score_order: order_image(r.score as f64 + fav), frecency_order: order_image(0.0) }
}

fn index() -> Index {
    Index::build(vec![script("deploy", &["ci", "prod"]), script("backup", &[])])
}

fn app_with(state: State) -> App {
    App::new(ScriptVault::from_parts(Config::default(), index(), state), NOW, rank)
}

fn fixture_app() -> App {
    app_with(State::default())
}

fn press(c: char) -> Key {
    Key { code: KeyCode::Char(c), ctrl: false, shift: false }
}

fn ctrl(c: char) -> Key {
    Key { code: KeyCode::Char(c), ctrl: true, shift: false }
}

fn key(code: KeyCode) -> Key {
    Key { code, ctrl: false, shift: false }
}

fn send(app: &mut App, k: Key) -> Outcome {
    app.handle_key(k, NOW, rank)
}

fn type_text(app: &mut App, text: &str) {
    for c in text.chars() {
        send(app, press(c));
    }
}

#[test]
fn question_mark_toggles_help_mode() {
    let mut app = fixture_app();
    assert_eq!(app.mode(), Mode::Search);
    send(&mut app, press('?'));
    assert_eq!(app.mode(), Mode::Help);
    assert_eq!(send(&mut app, key(KeyCode::Esc)), Outcome::Continue);
    assert_eq!(app.mode(), Mode::Search);
}

#[test]
fn ctrl_u_clears_query() {
    let mut app = fixture_app();
    type_text(&mut app, "deploy");
    assert_eq!(app.query(), "deploy");
    send(&mut app, ctrl('u'));
    assert_eq!(app.query(), "");
    assert_eq!(app.results().len(), 2);
}

#[test]
fn home_and_end_jump_selection() {
    let mut app = fixture_app();
    send(&mut app, key(KeyCode::End));
    assert_eq!(app.selected(), Some(app.results().len() - 1));
    send(&mut app, key(KeyCode::Home));
    assert_eq!(app.selected(), Some(0));
}

#[test]
fn help_mode_ignores_navigation_keys() {
    let mut app = fixture_app();
    send(&mut app, press('?'));
    let before = app.selected();
    send(&mut app, key(KeyCode::Down));
    send(&mut app, press('x'));
    assert_eq!(app.selected(), before);
    assert_eq!(app.query(), "");
    assert_eq!(send(&mut app, ctrl('c')), Outcome::Quit);
}

#[test]
fn starts_with_all_results_selected_top() {
    let app = fixture_app();
    assert_eq!(app.results().len(), 2);
    assert_eq!(app.selected(), Some(0));
    assert_eq!(app.status(), "");
    assert_eq!(app.view_mode(), ViewMode::All);
}

#[test]
fn typing_filters_and_keeps_valid_selection() {
    let mut app = fixture_app();
    type_text(&mut app, "deploy");
    assert_eq!(app.results().len(), 1);
    assert_eq!(app.selected(), Some(0));
    assert_eq!(app.selected_result().unwrap().entry.display_name(), "deploy");
}

#[test]
fn no_match_clears_selection_and_actions_noop() {
    let mut app = fixture_app();
    type_text(&mut app, "zzzzz");
    assert!(app.results().is_empty());
    assert_eq!(app.selected(), None);
    assert_eq!(send(&mut app, key(KeyCode::Enter)), Outcome::Continue);
    assert_eq!(app.mode(), Mode::Search);
    assert_eq!(send(&mut app, ctrl('r')), Outcome::Continue);
    assert_eq!(app.status(), "no result selected");
}

#[test]
fn backspace_restores_results() {
    let mut app = fixture_app();
    type_text(&mut app, "deploy");
    for _ in 0..6 {
        send(&mut app, key(KeyCode::Backspace));
    }
    assert_eq!(app.query(), "");
    assert_eq!(app.results().len(), 2);
}

#[test]
fn backspace_pops_a_whole_chip_when_no_text_is_left() {
    let mut app = fixture_app();
    type_text(&mut app, "t:ci ");
    assert_eq!(app.active_chips(), vec!["t:ci".to_string()]);
    send(&mut app, key(KeyCode::Backspace));
    assert_eq!(app.query(), "");
    assert!(app.active_chips().is_empty());
}

#[test]
fn navigation_saturates_no_wrap() {
    let mut app = fixture_app();
    send(&mut app, key(KeyCode::Up));
    assert_eq!(app.selected(), Some(0));
    send(&mut app, key(KeyCode::Down));
    send(&mut app, key(KeyCode::Down));
    assert_eq!(app.selected(), Some(1));
    send(&mut app, key(KeyCode::PageUp));
    assert_eq!(app.selected(), Some(0));
    send(&mut app, key(KeyCode::PageDown));
    assert_eq!(app.selected(), Some(1));
}

#[test]
fn action_keys_emit_correct_intents_when_selected() {
    let mut app = fixture_app();
    assert_eq!(send(&mut app, key(KeyCode::Enter)), Outcome::Continue);
    assert_eq!(app.mode(), Mode::ActionMenu);
    assert_eq!(send(&mut app, key(KeyCode::Char('1'))), Outcome::Act(ActionKind::OpenEditor));
    assert_eq!(app.mode(), Mode::Search);
    assert_eq!(send(&mut app, ctrl('r')), Outcome::Act(ActionKind::Run));
    assert_eq!(send(&mut app, ctrl('y')), Outcome::Act(ActionKind::CopyPath));
    assert_eq!(send(&mut app, ctrl('o')), Outcome::Act(ActionKind::PrintPath));
    assert_eq!(send(&mut app, ctrl('f')), Outcome::Act(ActionKind::ToggleFavorite));
}

#[test]
fn enter_action_menu_dispatches_each_option() {
    let mut app = fixture_app();
    send(&mut app, key(KeyCode::Enter));
    assert_eq!(send(&mut app, key(KeyCode::Char('2'))), Outcome::Act(ActionKind::Run));
    assert_eq!(app.mode(), Mode::Search);

    send(&mut app, key(KeyCode::Enter));
    assert_eq!(send(&mut app, key(KeyCode::Char('3'))), Outcome::Continue);
    assert_eq!(app.mode(), Mode::ConfirmDelete);
    assert_eq!(send(&mut app, key(KeyCode::Char('y'))), Outcome::Act(ActionKind::Delete));
    assert_eq!(app.mode(), Mode::Search);

    send(&mut app, key(KeyCode::Enter));
    assert_eq!(send(&mut app, key(KeyCode::Char('4'))), Outcome::Continue);
    assert_eq!(app.mode(), Mode::Search);

    send(&mut app, key(KeyCode::Enter));
    assert_eq!(app.mode(), Mode::ActionMenu);
    assert_eq!(send(&mut app, key(KeyCode::Esc)), Outcome::Continue);
    assert_eq!(app.mode(), Mode::Search);
}

#[test]
fn action_menu_arrows_move_highlight_and_enter_activates() {
    let mut app = fixture_app();
    send(&mut app, key(KeyCode::Enter));
    assert_eq!(app.action_menu_selected(), 0);
    send(&mut app, key(KeyCode::Down));
    assert_eq!(app.action_menu_selected(), 1);
    send(&mut app, press('j'));
    assert_eq!(app.action_menu_selected(), 2);
    send(&mut app, press('k'));
    assert_eq!(app.action_menu_selected(), 1);
    send(&mut app, key(KeyCode::Up));
    assert_eq!(app.action_menu_selected(), 0);
    send(&mut app, key(KeyCode::Up));
    assert_eq!(app.action_menu_selected(), 0);
    send(&mut app, key(KeyCode::Down));
    assert_eq!(send(&mut app, key(KeyCode::Enter)), Outcome::Act(ActionKind::Run));
    assert_eq!(app.mode(), Mode::Search);
    send(&mut app, key(KeyCode::Enter));
    send(&mut app, key(KeyCode::Down));
    send(&mut app, key(KeyCode::Down));
    assert_eq!(app.action_menu_selected(), 2);
    assert_eq!(send(&mut app, key(KeyCode::Enter)), Outcome::Continue);
    assert_eq!(app.mode(), Mode::ConfirmDelete);
}

#[test]
fn action_menu_highlight_clamps_at_bottom() {
    let mut app = fixture_app();
    send(&mut app, key(KeyCode::Enter));
    for _ in 0..6 {
        send(&mut app, key(KeyCode::Down));
    }
    assert_eq!(app.action_menu_selected(), 3);
    assert_eq!(send(&mut app, key(KeyCode::Enter)), Outcome::Continue);
    assert_eq!(app.mode(), Mode::Search);
}

#[test]
fn help_closes_on_c_or_q() {
    for close in ['c', 'q'] {
        let mut app = fixture_app();
        send(&mut app, press('?'));
        assert_eq!(send(&mut app, press(close)), Outcome::Continue);
        assert_eq!(app.mode(), Mode::Search);
    }
}

#[test]
fn confirm_delete_closes_on_c_or_q() {
    for close in ['c', 'q'] {
        let mut app = fixture_app();
        send(&mut app, key(KeyCode::Enter));
        send(&mut app, key(KeyCode::Char('3')));
        assert_eq!(app.mode(), Mode::ConfirmDelete);
        assert_eq!(send(&mut app, press(close)), Outcome::Continue);
        assert_eq!(app.mode(), Mode::Search);
    }
}

#[test]
fn ctrl_c_quits_from_every_mode() {
    let mut app = fixture_app();
    assert_eq!(send(&mut app, ctrl('c')), Outcome::Quit);
    let mut app = fixture_app();
    send(&mut app, press('?'));
    assert_eq!(send(&mut app, ctrl('c')), Outcome::Quit);
    let mut app = fixture_app();
    send(&mut app, key(KeyCode::Enter));
    assert_eq!(send(&mut app, ctrl('c')), Outcome::Quit);
    assert_eq!(app.mode(), Mode::ActionMenu, "quitting changes nothing");
    let mut app = fixture_app();
    send(&mut app, key(KeyCode::Enter));
    send(&mut app, key(KeyCode::Char('3')));
    assert_eq!(send(&mut app, ctrl('c')), Outcome::Quit);
    let mut app = fixture_app();
    send(&mut app, ctrl('p'));
    assert_eq!(send(&mut app, ctrl('c')), Outcome::Quit);
}

#[test]
fn action_menu_cancels_on_plain_c_or_q() {
    let mut app = fixture_app();
    for cancel in ['c', 'q'] {
        send(&mut app, key(KeyCode::Enter));
        assert_eq!(app.mode(), Mode::ActionMenu);
        assert_eq!(send(&mut app, press(cancel)), Outcome::Continue);
        assert_eq!(app.mode(), Mode::Search);
    }
}

fn with_playlists(names: &[&str]) -> State {
    let mut st = State::default();
    for n in names {
        st.playlists.push(Playlist { name: n.to_string(), paths: vec![] });
    }
    st
}

#[test]
fn playlist_picker_closes_on_c_or_q() {
    for close in ['c', 'q'] {
        let mut app = app_with(with_playlists(&["work"]));
        app.enter_playlist_picker();
        assert_eq!(app.mode(), Mode::PlaylistPicker);
        send(&mut app, press(close));
        assert_eq!(app.mode(), Mode::Search);
        assert_eq!(app.playlist_picker_selected(), None);
    }
}

#[test]
fn playlist_picker_adds_the_selection_to_the_highlighted_playlist() {
    let mut app = app_with(with_playlists(&["work", "home"]));
    app.enter_playlist_picker();
    assert_eq!(app.playlist_picker_selected(), Some(0));
    send(&mut app, key(KeyCode::Up));
    assert_eq!(app.playlist_picker_selected(), Some(1), "wraps to the last");
    send(&mut app, key(KeyCode::Enter));
    assert_eq!(app.mode(), Mode::Search);
    assert_eq!(app.status(), "added to 'home'");
    let path = app.selected_result().unwrap().entry.path.clone();
    assert_eq!(app.playlists()[1].paths, vec![path]);
    assert!(app.take_state_dirty());
    assert!(!app.take_state_dirty());
}

#[test]
fn delete_confirm_cancels_on_n_or_esc_and_ignores_other_keys() {
    let mut app = fixture_app();
    send(&mut app, key(KeyCode::Enter));
    send(&mut app, key(KeyCode::Char('3')));
    assert_eq!(send(&mut app, key(KeyCode::Char('n'))), Outcome::Continue);
    assert_eq!(app.mode(), Mode::Search);
    assert_eq!(app.status(), "delete cancelled");
    send(&mut app, key(KeyCode::Enter));
    send(&mut app, key(KeyCode::Char('3')));
    assert_eq!(send(&mut app, press('x')), Outcome::Continue);
    assert_eq!(app.mode(), Mode::ConfirmDelete);
    assert_eq!(send(&mut app, key(KeyCode::Esc)), Outcome::Continue);
    assert_eq!(app.mode(), Mode::Search);
}

#[test]
fn action_menu_does_not_open_with_no_selection() {
    let mut app = fixture_app();
    type_text(&mut app, "zzzznotathing");
    assert_eq!(send(&mut app, key(KeyCode::Enter)), Outcome::Continue);
    assert_eq!(app.mode(), Mode::Search);
}

#[test]
fn digits_in_search_are_unaffected_by_the_menu() {
    let mut app = fixture_app();
    type_text(&mut app, "log2");
    assert_eq!(app.query(), "log2");
    assert_eq!(app.mode(), Mode::Search);
}

#[test]
fn esc_and_ctrl_c_quit() {
    let mut app = fixture_app();
    assert_eq!(send(&mut app, key(KeyCode::Esc)), Outcome::Quit);
    assert_eq!(send(&mut app, ctrl('c')), Outcome::Quit);
}

#[test]
fn typing_r_or_y_without_ctrl_filters_not_acts() {
    let mut app = fixture_app();
    assert_eq!(send(&mut app, press('r')), Outcome::Continue);
    assert_eq!(app.query(), "r");
}

#[test]
fn j_k_move_like_arrows() {
    let mut app = fixture_app();
    send(&mut app, press('j'));
    assert_eq!(app.selected(), Some(1));
    send(&mut app, press('k'));
    assert_eq!(app.selected(), Some(0));
}

#[test]
fn g_g_jump_when_query_empty() {
    let mut app = fixture_app();
    send(&mut app, press('G'));
    assert_eq!(app.selected(), Some(1));
    send(&mut app, press('g'));
    assert_eq!(app.selected(), Some(0));
}

#[test]
fn g_and_capital_g_type_into_a_non_empty_query() {
    let mut app = fixture_app();
    type_text(&mut app, "dgG");
    assert_eq!(app.query(), "dgG");
}

#[test]
fn j_and_k_are_unconditional_navigation_not_typing() {
    let mut app = fixture_app();
    send(&mut app, press('j'));
    assert_eq!(app.selected(), Some(1));
    assert_eq!(app.query(), "");
    send(&mut app, press('k'));
    assert_eq!(app.selected(), Some(0));
    assert_eq!(app.query(), "");
}

#[test]
fn capital_a_f_r_type_into_a_non_empty_query_and_dont_switch_view() {
    let mut app = fixture_app();
    type_text(&mut app, "dFRA");
    assert_eq!(app.query(), "dFRA");
    assert_eq!(app.view_mode(), ViewMode::All);
}

#[test]
fn view_modes_switch_with_a_f_r_when_empty_query() {
    let mut state = State::default();
    state.favorites.push("/vault/backup.sh".to_string());
    let mut app = app_with(state);
    send(&mut app, press('F'));
    assert_eq!(app.view_mode(), ViewMode::Favorites);
    assert_eq!(app.results().len(), 1);
    assert_eq!(app.results()[0].entry.display_name(), "backup");
    send(&mut app, press('A'));
    assert_eq!(app.view_mode(), ViewMode::All);
    assert_eq!(app.results().len(), 2);
    send(&mut app, press('R'));
    assert_eq!(app.view_mode(), ViewMode::Recents);
    assert!(app.results().is_empty());
    assert_eq!(app.selected(), None);
}

#[test]
fn tag_operator_filters_results() {
    let mut app = fixture_app();
    type_text(&mut app, "t:ci");
    assert_eq!(app.results().len(), 1);
    assert_eq!(app.results()[0].entry.display_name(), "deploy");
}

#[test]
fn mouse_click_uses_exact_list_rect_for_row_mapping() {
    let mut app = fixture_app();
    app.set_list_rect(ListRect { x: 2, y: 4, width: 35, height: 15 });
    app.handle_mouse(true, 10, 5);
    assert_eq!(app.selected(), Some(0));
    app.handle_mouse(true, 15, 6);
    assert_eq!(app.selected(), Some(1));
    app.handle_mouse(true, 50, 6);
    assert_eq!(app.selected(), Some(1));
    app.handle_mouse(true, 10, 4);
    assert_eq!(app.selected(), Some(1));
    app.handle_mouse(false, 10, 5);
    assert_eq!(app.selected(), Some(1), "only a left press selects");
    app.handle_mouse(true, 10, 9);
    assert_eq!(app.selected(), Some(1), "a row past the results selects nothing");
}

#[test]
fn ctrl_p_enters_palette_mode_and_esc_exits() {
    let mut app = fixture_app();
    send(&mut app, ctrl('p'));
    assert_eq!(app.mode(), Mode::CommandPalette);
    send(&mut app, key(KeyCode::Esc));
    assert_eq!(app.mode(), Mode::Search);
}

#[test]
fn colon_opens_the_palette_only_on_an_empty_query() {
    let mut app = fixture_app();
    send(&mut app, press(':'));
    assert_eq!(app.mode(), Mode::CommandPalette);
    send(&mut app, key(KeyCode::Esc));
    type_text(&mut app, "t:");
    assert_eq!(app.mode(), Mode::Search);
    assert_eq!(app.query(), "t:");
}

#[test]
fn palette_run_command_emits_act_and_exits_palette() {
    let mut app = fixture_app();
    send(&mut app, ctrl('p'));
    type_text(&mut app, "run");
    assert_eq!(send(&mut app, key(KeyCode::Enter)), Outcome::Act(ActionKind::Run));
    assert_eq!(app.mode(), Mode::Search);
}

#[test]
fn palette_act_with_no_selection_is_a_noop_continue() {
    let mut app = fixture_app();
    type_text(&mut app, "zzzznomatchzzzz");
    send(&mut app, ctrl('p'));
    type_text(&mut app, "run");
    assert_eq!(send(&mut app, key(KeyCode::Enter)), Outcome::Continue);
    assert_eq!(app.status(), "no result selected");
}

#[test]
fn palette_reload_asks_for_a_rescan_and_returns_to_search() {
    let mut app = fixture_app();
    send(&mut app, ctrl('p'));
    type_text(&mut app, "reload");
    assert_eq!(send(&mut app, key(KeyCode::Enter)), Outcome::Continue);
    assert_eq!(app.mode(), Mode::Search);
    assert_eq!(app.take_task(), Some(Task::Reload(ReloadReason::Requested)));
    let rebuilt = Index::build(vec![script("deploy", &[]), script("backup", &[]), script("cleanup", &[])]);
    app.finish_reload(ReloadReason::Requested, Ok(rebuilt), NOW, rank);
    assert_eq!(app.status(), "reloaded");
    assert_eq!(app.results().len(), 3);
    app.finish_reload(ReloadReason::Requested, Err("disk gone".to_string()), NOW, rank);
    assert_eq!(app.status(), "reload error: disk gone");
    assert_eq!(app.results().len(), 3);
}

#[test]
fn palette_edit_metadata_enters_edit_mode() {
    let mut app = fixture_app();
    send(&mut app, ctrl('p'));
    type_text(&mut app, "edit metadata");
    assert_eq!(send(&mut app, key(KeyCode::Enter)), Outcome::Continue);
    assert_eq!(app.mode(), Mode::EditMetadata);
    assert_eq!(app.edit_name(), "backup", "the browse view lists by name: backup first");
    assert_eq!(app.edit_tags(), "");
    assert_eq!(app.edit_focus(), 0);
}

#[test]
fn palette_save_search_opens_the_name_modal() {
    let mut app = fixture_app();
    type_text(&mut app, "deploy");
    send(&mut app, ctrl('p'));
    type_text(&mut app, "save search");
    assert_eq!(send(&mut app, key(KeyCode::Enter)), Outcome::Continue);
    assert_eq!(app.mode(), Mode::SaveSearchName);
    assert_eq!(app.save_search_query(), "deploy");
}

fn with_saved(pairs: &[(&str, &str)]) -> State {
    let mut st = State::default();
    for (n, q) in pairs {
        st.save_search(n, q);
    }
    st
}

#[test]
fn palette_load_saved_search_opens_the_picker() {
    let mut app = app_with(with_saved(&[("mine", "deploy")]));
    send(&mut app, ctrl('p'));
    type_text(&mut app, "load saved");
    assert_eq!(send(&mut app, key(KeyCode::Enter)), Outcome::Continue);
    assert_eq!(app.mode(), Mode::SavedSearchPicker);
}

#[test]
fn palette_add_to_playlist_opens_picker_when_multiple_exist() {
    let mut app = app_with(with_playlists(&["a", "b"]));
    send(&mut app, ctrl('p'));
    type_text(&mut app, "add to playlist");
    assert_eq!(send(&mut app, key(KeyCode::Enter)), Outcome::Continue);
    assert_eq!(app.mode(), Mode::PlaylistPicker);
}

#[test]
fn palette_add_to_playlist_creates_a_default_when_none_exist() {
    let mut app = fixture_app();
    send(&mut app, ctrl('p'));
    type_text(&mut app, "add to playlist");
    send(&mut app, key(KeyCode::Enter));
    assert_eq!(app.status(), "created 'default' and added");
    assert_eq!(app.playlists().len(), 1);
    assert_eq!(app.playlists()[0].name, "default");
    assert_eq!(app.playlists()[0].paths, vec!["/vault/backup.sh".to_string()]);
}

#[test]
fn palette_new_playlist_names_it_and_filters_to_it() {
    let mut app = fixture_app();
    send(&mut app, ctrl('p'));
    type_text(&mut app, "new playlist");
    send(&mut app, key(KeyCode::Enter));
    assert_eq!(app.status(), "created playlist 'Playlist 1'");
    assert_eq!(app.active_playlist(), Some("Playlist 1"));
    assert!(app.results().is_empty(), "the new playlist is empty");
    assert_eq!(app.selected(), None);
}

#[test]
fn palette_toggle_output_stays_in_search() {
    let mut app = fixture_app();
    send(&mut app, ctrl('p'));
    type_text(&mut app, "toggle output");
    assert_eq!(send(&mut app, key(KeyCode::Enter)), Outcome::Continue);
    assert_eq!(app.mode(), Mode::Search);
    assert!(app.is_showing_output());
    assert_eq!(app.status(), "output pane on");
}

#[test]
fn palette_filter_is_case_insensitive_and_clamps_the_highlight() {
    let mut app = fixture_app();
    send(&mut app, ctrl('p'));
    for _ in 0..30 {
        send(&mut app, key(KeyCode::Down));
    }
    assert_eq!(app.palette_selected(), Some(23), "highlight stops at the last command");
    type_text(&mut app, "QUIT");
    assert_eq!(app.palette_selected(), Some(0), "clamped to the one match");
    type_text(&mut app, "zzz");
    assert_eq!(app.palette_selected(), None, "nothing shown, nothing highlighted");
    assert_eq!(send(&mut app, key(KeyCode::Enter)), Outcome::Continue);
    assert_eq!(app.mode(), Mode::Search);
}

#[test]
fn save_search_modal_saves_under_typed_name() {
    let mut app = fixture_app();
    type_text(&mut app, "deploy");
    app.enter_save_search();
    assert_eq!(app.mode(), Mode::SaveSearchName);
    type_text(&mut app, "ci");
    send(&mut app, key(KeyCode::Enter));
    assert_eq!(app.mode(), Mode::Search);
    assert_eq!(app.vault().list_saved_searches(), vec!["ci"]);
    assert_eq!(app.vault().get_saved_search("ci"), Some("deploy"));
    assert_eq!(app.status(), "saved search as 'ci'");
}

#[test]
fn save_search_modal_refuses_empty_name_and_cancels_on_esc() {
    let mut app = fixture_app();
    type_text(&mut app, "deploy");
    app.enter_save_search();
    send(&mut app, key(KeyCode::Enter));
    assert_eq!(app.mode(), Mode::SaveSearchName);
    assert_eq!(app.status(), "name cannot be empty (Esc to cancel)");
    assert!(app.vault().list_saved_searches().is_empty());
    send(&mut app, key(KeyCode::Esc));
    assert_eq!(app.mode(), Mode::Search);
    assert!(app.vault().list_saved_searches().is_empty());

    let mut app2 = fixture_app();
    app2.enter_save_search();
    assert_eq!(app2.mode(), Mode::Search);
    assert_eq!(app2.status(), "no query to save");
}

#[test]
fn saved_search_picker_loads_and_deletes() {
    let mut app = app_with(with_saved(&[("ci", "deploy"), ("all", "backup")]));
    app.enter_saved_search_picker();
    assert_eq!(app.mode(), Mode::SavedSearchPicker);
    assert_eq!(app.saved_search_selected(), Some(0));
    assert_eq!(
        app.saved_searches(),
        vec![("ci".to_string(), "deploy".to_string()), ("all".to_string(), "backup".to_string())]
    );
    send(&mut app, press('j'));
    assert_eq!(app.saved_search_selected(), Some(1));
    send(&mut app, key(KeyCode::Enter));
    assert_eq!(app.mode(), Mode::Search);
    assert_eq!(app.query(), "backup");
    assert_eq!(app.status(), "loaded 'all'");
    assert_eq!(app.results().len(), 1);

    app.enter_saved_search_picker();
    send(&mut app, press('d'));
    assert_eq!(app.vault().list_saved_searches(), vec!["all"]);
    assert_eq!(app.saved_search_selected(), Some(0));
    send(&mut app, press('d'));
    assert!(app.vault().list_saved_searches().is_empty());
    assert_eq!(app.mode(), Mode::Search);
}

#[test]
fn saved_search_picker_closes_on_c_or_q() {
    for close in ['c', 'q'] {
        let mut app = app_with(with_saved(&[("ci", "deploy")]));
        app.enter_saved_search_picker();
        send(&mut app, press(close));
        assert_eq!(app.mode(), Mode::Search);
        assert_eq!(app.vault().list_saved_searches(), vec!["ci"]);
    }
}

#[test]
fn save_search_name_treats_c_and_q_as_typed_text() {
    let mut app = fixture_app();
    type_text(&mut app, "deploy");
    app.enter_save_search();
    type_text(&mut app, "cq-name");
    assert_eq!(app.mode(), Mode::SaveSearchName);
    assert_eq!(app.save_search_name(), "cq-name");
    send(&mut app, key(KeyCode::Enter));
    assert_eq!(app.vault().get_saved_search("cq-name"), Some("deploy"));
}

#[test]
fn print_path_records_and_flushes() {
    let mut app = fixture_app();
    let path = app.selected_result().unwrap().entry.path.clone();
    app.record_printed_path(path.clone());
    assert_eq!(app.take_printed_paths(), vec![path]);
    assert!(app.take_printed_paths().is_empty());
}

#[test]
fn output_pane_toggle_seeds_from_last_and_push_bounds() {
    let mut app = fixture_app();
    assert!(!app.is_showing_output());
    app.toggle_output_pane();
    assert!(app.is_showing_output());
    for i in 0..300 {
        app.push_output_line(format!("log line {i}"));
    }
    assert_eq!(app.output_lines().len(), 256);
    assert_eq!(app.output_lines().last().unwrap().text, "log line 299");
    assert_eq!(app.output_lines()[0].text, "log line 44");
    app.toggle_output_pane();
    assert!(!app.is_showing_output());
}

#[test]
fn output_pane_toggle_seeds_the_selection_s_last_output() {
    let mut app = fixture_app();
    app.record_run_with_status("/vault/backup.sh", Some(0), Some("one\ntwo".to_string()), NOW);
    app.toggle_output_pane();
    let texts: Vec<&str> = app.output_lines().iter().map(|l| l.text.as_str()).collect();
    assert_eq!(texts, vec!["one", "two"]);
    assert!(app.output_lines().iter().all(|l| l.stream == OutputStream::Stdout));
}

#[test]
fn output_scroll_clamps_and_resets() {
    let mut app = fixture_app();
    for i in 0..10 {
        app.push_output_line(format!("line {i}"));
    }
    assert_eq!(app.output_scroll(), 0);
    app.scroll_output(4);
    assert_eq!(app.output_scroll(), 4);
    app.scroll_output(100);
    assert_eq!(app.output_scroll(), 9);
    app.scroll_output(-3);
    assert_eq!(app.output_scroll(), 6);
    app.scroll_output(-100);
    assert_eq!(app.output_scroll(), 0);
    app.scroll_output(5);
    app.clear_live_output();
    assert_eq!(app.output_scroll(), 0);
    assert!(app.output_lines().is_empty());
}

#[test]
fn shift_pageup_scrolls_output_only_when_pane_shown() {
    let mut app = fixture_app();
    for i in 0..50 {
        app.push_output_line(format!("line {i}"));
    }
    let shift_pgup = Key { code: KeyCode::PageUp, ctrl: false, shift: true };
    let sel = app.selected();
    send(&mut app, shift_pgup);
    assert_eq!(app.output_scroll(), 0);
    assert_eq!(app.selected(), sel);
    app.toggle_output_pane();
    send(&mut app, shift_pgup);
    assert_eq!(app.output_scroll(), 10);
    let shift_pgdn = Key { code: KeyCode::PageDown, ctrl: false, shift: true };
    send(&mut app, shift_pgdn);
    assert_eq!(app.output_scroll(), 0);
}

#[test]
fn ctrl_l_toggles_the_output_pane_and_reports_it() {
    let mut app = fixture_app();
    send(&mut app, ctrl('l'));
    assert!(app.is_showing_output());
    assert_eq!(app.status(), "output pane on (tail view)");
    send(&mut app, ctrl('l'));
    assert!(!app.is_showing_output());
    assert_eq!(app.status(), "output pane off");
}

#[test]
fn live_run_records_real_nonzero_exit_and_no_marker_leak() {
    let mut app = fixture_app();
    assert_eq!(app.apply_run_event(RunEvent::Stdout("building".into())), None);
    assert_eq!(app.apply_run_event(RunEvent::Stderr("warn: slow".into())), None);
    let finish = app.apply_run_event(RunEvent::Done(RunCompletion { code: Some(42), timed_out: false }));
    assert_eq!(finish, Some(RunCompletion { code: Some(42), timed_out: false }));
    let buf = app.output_lines();
    assert_eq!(buf[0].stream, OutputStream::Stdout);
    assert_eq!(buf[0].text, "building");
    assert_eq!(buf[1].stream, OutputStream::Stderr);
    assert_eq!(buf[1].text, "warn: slow");
    let joined = app.output_text();
    assert_eq!(joined, "building\nwarn: slow");
    app.record_run_with_status("/vault/deploy.sh", Some(42), Some(joined), NOW);
    let entry = &app.vault().recents()[0];
    assert_eq!(entry.last_exit, Some(42));
    assert_eq!(entry.last_output.as_deref(), Some("building\nwarn: slow"));
}

#[test]
fn live_run_guard_rejects_second_request_while_active() {
    let mut app = fixture_app();
    assert_eq!(app.take_live_run_request(false), None);
    assert_eq!(app.status(), "");

    send(&mut app, ctrl('p'));
    type_text(&mut app, "run live");
    send(&mut app, key(KeyCode::Enter));
    assert!(app.is_showing_output());
    assert_eq!(app.take_live_run_request(false), Some("/vault/backup.sh".to_string()));
    assert_eq!(app.take_live_run_request(false), None);

    send(&mut app, ctrl('p'));
    type_text(&mut app, "run live");
    send(&mut app, key(KeyCode::Enter));
    assert_eq!(app.take_live_run_request(true), None);
    assert!(app.status().contains("already active"));
    assert_eq!(app.take_live_run_request(false), None);
}

#[test]
fn live_run_job_status_follows_the_run() {
    let mut app = fixture_app();
    assert_eq!(*app.job_status(), JobStatus::Idle);
    app.set_live_run_path(Some("/vault/deploy.sh".to_string()));
    assert!(app.live_active());
    assert_eq!(*app.job_status(), JobStatus::Running { name: "deploy.sh".to_string() });
    assert_eq!(app.take_live_run_path(), Some("/vault/deploy.sh".to_string()));
    assert!(!app.live_active());
    app.finish_job("/vault/deploy.sh", Some(1));
    assert_eq!(*app.job_status(), JobStatus::Finished { name: "deploy.sh".to_string(), ok: false });
    assert_eq!(poll_timeout_millis(true), 40);
    assert_eq!(poll_timeout_millis(false), 3_600_000);
}

#[test]
fn run_capture_asks_for_a_capture_and_records_its_outcome() {
    let mut app = fixture_app();
    send(&mut app, ctrl('p'));
    type_text(&mut app, "run capture");
    send(&mut app, key(KeyCode::Enter));
    assert_eq!(app.take_task(), Some(Task::Capture("/vault/backup.sh".to_string())));
    app.finish_capture("/vault/deploy.sh", "hello\nworld\n", "oops", Some(3), false, NOW, rank);
    assert_eq!(app.status(), "capture failed (exit 3): hello world oops");
    let texts: Vec<(OutputStream, &str)> = app.output_lines().iter().map(|l| (l.stream, l.text.as_str())).collect();
    assert_eq!(
        texts,
        vec![(OutputStream::Stdout, "hello"), (OutputStream::Stdout, "world"), (OutputStream::Stderr, "oops")]
    );
    let entry = &app.vault().recents()[0];
    assert_eq!(entry.last_exit, Some(3));
    assert_eq!(entry.last_output.as_deref(), Some("hello world oops"));
    assert!(app.take_state_dirty());

    app.finish_capture("/vault/deploy.sh", "", "", Some(0), false, NOW, rank);
    assert_eq!(app.status(), "captured: (no output)");
    assert_eq!(app.vault().recents()[0].last_output, None);
    app.finish_capture("/vault/deploy.sh", "x", "", None, true, NOW, rank);
    assert_eq!(app.status(), "capture timed out: x");
    app.capture_failed("no such file");
    assert_eq!(app.status(), "capture error: no such file");
}

#[test]
fn metadata_edit_asks_for_the_sidecar_then_reloads() {
    let mut app = fixture_app();
    send(&mut app, key(KeyCode::Down));
    app.begin_edit_metadata();
    assert_eq!(app.mode(), Mode::EditMetadata);
    send(&mut app, key(KeyCode::Tab));
    assert_eq!(app.edit_focus(), 1);
    type_text(&mut app, "  ships it  ");
    for _ in 0..4 {
        send(&mut app, key(KeyCode::Tab));
    }
    assert_eq!(app.edit_focus(), 5);
    type_text(&mut app, "check prod first");
    send(&mut app, key(KeyCode::BackTab));
    assert_eq!(app.edit_focus(), 4);
    send(&mut app, key(KeyCode::Enter));
    match app.take_task() {
        Some(Task::WriteSidecar { sidecar, fields }) => {
            assert_eq!(sidecar, "/vault/deploy.sh.scriptvault.yaml");
            assert_eq!(fields.name.as_deref(), Some("deploy"));
            assert_eq!(fields.desc.as_deref(), Some("ships it"));
            assert_eq!(fields.usage, None);
            assert_eq!(fields.tags, vec!["ci".to_string(), "prod".to_string()]);
        },
        other => panic!("expected a sidecar write, got {other:?}"),
    }
    app.finish_sidecar_write(true);
    assert_eq!(app.mode(), Mode::Search);
    assert_eq!(app.note_for("/vault/deploy.sh"), Some("check prod first"));
    let reason = ReloadReason::MetadataSaved("deploy.sh.scriptvault.yaml".to_string());
    assert_eq!(app.take_task(), Some(Task::Reload(reason.clone())));
    app.finish_reload(reason, Err("scan failed".to_string()), NOW, rank);
    assert_eq!(app.status(), "saved metadata to deploy.sh.scriptvault.yaml");
}

#[test]
fn metadata_edit_write_failure_is_said_and_closes_the_editor() {
    let mut app = fixture_app();
    app.begin_edit_metadata();
    send(&mut app, key(KeyCode::Enter));
    assert!(app.take_task().is_some());
    app.finish_sidecar_write(false);
    assert_eq!(app.mode(), Mode::Search);
    assert_eq!(app.status(), "save error: failed to write sidecar /vault/backup.sh.scriptvault.yaml");
    assert_eq!(app.note_for("/vault/backup.sh"), None);
}

#[test]
fn sidecar_fields_omit_blank_values_and_blank_tags() {
    let e = EditState {
        path: Some("/x/a.sh".to_string()),
        name: "  ".to_string(),
        desc: " d ".to_string(),
        tags: " a, ,b ,".to_string(),
        usage: String::new(),
        category: "ops".to_string(),
        note: String::new(),
        focus: 0,
        playlist_picker_selected: None,
    };
    let f = build_sidecar_fields(&e);
    assert_eq!(f.name, None);
    assert_eq!(f.desc.as_deref(), Some("d"));
    assert_eq!(f.usage, None);
    assert_eq!(f.category.as_deref(), Some("ops"));
    assert_eq!(f.tags, vec!["a".to_string(), "b".to_string()]);
}

#[test]
fn recency_summary_reports_age_count_and_exit() {
    let mut app = fixture_app();
    assert_eq!(app.recency_summary("/vault/deploy.sh", NOW), None);
    app.record_run_with_status("/vault/deploy.sh", Some(2), None, NOW - 300);
    assert_eq!(app.recency_summary("/vault/deploy.sh", NOW).as_deref(), Some("5m ago (1×) ✗2"));
    app.record_run_with_status("/vault/deploy.sh", Some(0), None, NOW - 7200);
    assert_eq!(app.recency_summary("/vault/deploy.sh", NOW).as_deref(), Some("2h ago (2×) ✓"));
    assert_eq!(app.recency_summary("/vault/deploy.sh", NOW + 86400 * 3).as_deref(), Some("3d ago (2×) ✓"));
    assert!(app.run_hint_for("/vault/deploy.sh", NOW).is_some());
}

#[test]
fn editor_command_prefers_config_then_environment_then_nano() {
    let app = fixture_app();
    assert_eq!(app.editor_command(None), "nano");
    assert_eq!(app.editor_command(Some("vim".to_string())), "vim");
    let config = Config { editor: Some("hx".to_string()), ..Config::default() };
    let app2 = App::new(ScriptVault::from_parts(config, index(), State::default()), NOW, rank);
    assert_eq!(app2.editor_command(Some("vim".to_string())), "hx");
}

#[test]
fn toggle_favorite_marks_the_state_for_saving() {
    let mut app = fixture_app();
    assert_eq!(app.results()[0].entry.display_name(), "backup");
    assert!(app.toggle_favorite("/vault/deploy.sh"));
    assert!(app.is_favorite("/vault/deploy.sh"));
    assert!(app.take_state_dirty());
    app.refresh_results(NOW, rank);
    assert_eq!(app.results()[0].entry.display_name(), "deploy", "favourites lead the browse view");
    assert!(!app.toggle_favorite("/vault/deploy.sh"));
}

#[test]
fn active_playlist_filter_composes_with_the_query() {
    let mut st = with_playlists(&["ops"]);
    st.playlists[0].paths.push("/vault/backup.sh".to_string());
    let mut app = app_with(st);
    app.set_active_playlist(Some("ops".to_string()), NOW, rank);
    assert_eq!(app.results().len(), 1);
    assert_eq!(app.results()[0].entry.display_name(), "backup");
    send(&mut app, ctrl('p'));
    type_text(&mut app, "clear playlist");
    send(&mut app, key(KeyCode::Enter));
    assert_eq!(app.active_playlist(), None);
    assert_eq!(app.results().len(), 2);
    assert_eq!(app.status(), "cleared playlist filter");
}

#[test]
fn delete_playlist_clears_the_filter_when_it_was_active() {
    let mut app = app_with(with_playlists(&["ops"]));
    send(&mut app, ctrl('p'));
    type_text(&mut app, "activate playlist");
    send(&mut app, key(KeyCode::Enter));
    assert_eq!(app.active_playlist(), Some("ops"));
    assert_eq!(app.status(), "filtering to 'ops'");
    send(&mut app, ctrl('p'));
    type_text(&mut app, "delete playlist");
    send(&mut app, key(KeyCode::Enter));
    assert_eq!(app.active_playlist(), None);
    assert!(app.playlists().is_empty());
    assert_eq!(app.status(), "deleted playlist 'ops'");
    assert_eq!(app.results().len(), 2);
}

#[test]
fn start_action_prints_and_favorites_in_place() {
    let mut app = fixture_app();
    let sel = app.selected_result().unwrap().entry.path.clone();
    assert_eq!(app.start_action(ActionKind::PrintPath), None);
    assert_eq!(app.status(), format!("will print on exit: {sel}"));
    assert_eq!(app.take_printed_paths(), vec![sel.clone()]);
    assert_eq!(app.start_action(ActionKind::ToggleFavorite), None);
    assert_eq!(app.status(), format!("★ favorited: {sel}"));
    assert!(app.is_favorite(&sel));
    assert!(app.take_state_dirty());
    assert_eq!(app.start_action(ActionKind::ToggleFavorite), None);
    assert_eq!(app.status(), format!("unfavorited: {sel}"));
    assert!(!app.is_favorite(&sel));
    for kind in [ActionKind::CopyPath, ActionKind::OpenEditor, ActionKind::Run, ActionKind::Delete] {
        assert_eq!(app.start_action(kind), Some(sel.clone()));
    }
}

#[test]
fn start_action_without_a_selection_only_hints() {
    let mut app = fixture_app();
    type_text(&mut app, "zzzzqq");
    assert!(app.selected_result().is_none());
    assert_eq!(app.start_action(ActionKind::Run), None);
    assert_eq!(app.status(), "no result selected");
}

#[test]
fn finish_action_reports_each_outcome() {
    let mut app = fixture_app();
    let p = "/vault/deploy.sh";
    app.finish_action(ActionKind::CopyPath, p, Ok(()), NOW, rank);
    assert_eq!(app.status(), "copied: /vault/deploy.sh");
    app.finish_action(ActionKind::CopyPath, p, Err("no display".to_string()), NOW, rank);
    assert_eq!(app.status(), "clipboard error: no display");
    app.finish_action(ActionKind::OpenEditor, p, Ok(()), NOW, rank);
    assert_eq!(app.status(), "opened in editor");
    app.finish_action(ActionKind::OpenEditor, p, Err("editor `vim` exited with status 1".to_string()), NOW, rank);
    assert_eq!(app.status(), "editor `vim` exited with status 1");
    app.finish_action(ActionKind::Delete, p, Ok(()), NOW, rank);
    assert_eq!(app.status(), "deleted: /vault/deploy.sh");
    app.finish_action(ActionKind::Delete, p, Err("permission denied".to_string()), NOW, rank);
    assert_eq!(app.status(), "delete failed: permission denied");
    app.finish_action(ActionKind::Run, p, Err("/vault/deploy.sh exited with status 3".to_string()), NOW, rank);
    assert_eq!(app.status(), "/vault/deploy.sh exited with status 3");
    assert!(app.vault().recents().is_empty());
}

#[test]
fn a_clean_run_is_recorded_and_reported_with_its_recency() {
    let mut app = fixture_app();
    app.finish_action(ActionKind::Run, "/vault/deploy.sh", Ok(()), NOW, rank);
    assert_eq!(app.status(), "ran deploy.sh — 0s ago (1×) ✓");
    let recents = app.vault().recents();
    assert_eq!(recents.len(), 1);
    assert_eq!(recents[0].path, "/vault/deploy.sh");
    assert_eq!(recents[0].last_exit, Some(0));
    assert_eq!(recents[0].last_output, None);
    assert!(app.take_state_dirty());
}

#[test]
fn live_run_spawn_is_reported_either_way() {
    let mut app = fixture_app();
    app.live_run_spawned("/vault/deploy.sh".to_string(), Err("no such file".to_string()));
    assert_eq!(app.status(), "failed to spawn live capture: no such file");
    assert!(!app.live_active());
    app.live_run_spawned("/vault/deploy.sh".to_string(), Ok(()));
    assert!(app.live_active());
    assert_eq!(app.status(), "live run started — output streaming to pane (^L to toggle)");
    assert_eq!(app.job_status(), &JobStatus::Running { name: "deploy.sh".to_string() });
}

#[test]
fn finishing_a_live_run_records_it_once() {
    let mut app = fixture_app();
    app.finish_live_run(None, NOW, rank);
    assert_eq!(app.status(), "");
    assert!(app.vault().recents().is_empty());

    app.live_run_spawned("/vault/deploy.sh".to_string(), Ok(()));
    app.apply_run_event(RunEvent::Stdout("building".into()));
    app.apply_run_event(RunEvent::Stderr("warn: slow".into()));
    app.finish_live_run(Some(RunCompletion { code: Some(42), timed_out: false }), NOW, rank);
    assert!(!app.live_active());
    assert_eq!(app.job_status(), &JobStatus::Finished { name: "deploy.sh".to_string(), ok: false });
    assert_eq!(app.status(), "live run finished (recorded to history)");
    let entry = &app.vault().recents()[0];
    assert_eq!(entry.last_exit, Some(42));
    assert_eq!(entry.last_output.as_deref(), Some("building\nwarn: slow"));

    app.finish_live_run(Some(RunCompletion { code: Some(0), timed_out: false }), NOW, rank);
    assert_eq!(app.vault().recents()[0].count, 1);
}

#[test]
fn a_live_run_ending_unreported_has_an_unknown_exit() {
    let mut app = fixture_app();
    app.live_run_spawned("/vault/backup.sh".to_string(), Ok(()));
    app.finish_live_run(None, NOW, rank);
    assert_eq!(app.vault().recents()[0].last_exit, None);
    assert_eq!(app.job_status(), &JobStatus::Finished { name: "backup.sh".to_string(), ok: false });

    app.live_run_spawned("/vault/backup.sh".to_string(), Ok(()));
    app.finish_live_run(Some(RunCompletion { code: None, timed_out: true }), NOW, rank);
    assert_eq!(app.status(), "live run timed out (recorded to history)");
}
