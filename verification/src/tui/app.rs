//! The interactive frontend's state machine: the query, its results and the
//! selection, the current screen and the modal forms over it. Each key is an
//! event; handling one changes the state and asks the shell for at most an
//! action on the selection (an [`Outcome`]) and a piece of outside work (a
//! [`Task`]: rescanning the disk, writing a sidecar, capturing a run), whose
//! result the shell hands back. Whether the state needs saving is a flag the
//! shell takes after each event.

use vstd::prelude::*;
use super::{
    combined_capture_text, combined_text, flatten_for_status, run_name_of, truncate_for_status, JobStatus, RunCompletion, RunEvent, kept_tail, palette_cmd_matches, palette_commands, palette_matches, palette_table, status_truncated,
    ActionKind, EditState, Mode, OutputLine, OutputState, OutputStream, Outcome, PaletteAction, SaveSearchState, SpecialCmd,
    ViewMode,
};
use crate::model::{display_name_of, SearchResult};
use crate::query::engine::{ran_as, RankInput};
use crate::query::parse::{parsed_query, popped};
use crate::query::{chip_of, parse_query, pop_last_filter_token, Filter, FilterView, Query, QueryView, View as QueryScope, ViewSpec};
use crate::state::{can_count, pair_lookup, playlist_index, recent_index, recorded, PlaylistView, State};
use crate::text::{chars_of, chars_of_string, join, lines, lines_of, opt_view, string_of, trim, trim_str, vecs_view, words};
use crate::vault::{added_to, with_playlists, ScriptVault, VaultView};

verus! {

/// A key, as the state machine sees it.
#[derive(Debug, Clone, Copy, PartialEq, Eq, Structural)]
pub enum KeyCode {
    Char(char),
    Enter,
    Esc,
    Backspace,
    Tab,
    BackTab,
    Up,
    Down,
    PageUp,
    PageDown,
    Home,
    End,
    /// Any key the state machine has no binding for.
    Other,
}

/// A key press with the modifiers that matter.
#[derive(Debug, Clone, Copy, PartialEq, Eq, Structural)]
pub struct Key {
    pub code: KeyCode,
    pub ctrl: bool,
    pub shift: bool,
}

/// Where the results list was last drawn, border included.
#[derive(Debug, Clone, Copy, PartialEq, Eq, Structural)]
pub struct ListRect {
    pub x: u16,
    pub y: u16,
    pub width: u16,
    pub height: u16,
}

/// Why the index is to be rebuilt.
#[derive(Debug, Clone, PartialEq, Eq)]
pub enum ReloadReason {
    /// The palette's `reload`.
    Requested,
    /// A metadata edit was written to the named sidecar file.
    MetadataSaved(String),
}

/// The fields of a metadata edit, as the sidecar stores them: blank fields
/// and blank tags left out.
#[derive(Debug, Clone, PartialEq, Eq)]
pub struct SidecarFields {
    pub name: Option<String>,
    pub desc: Option<String>,
    pub usage: Option<String>,
    pub category: Option<String>,
    pub tags: Vec<String>,
}

/// Outside work the state machine asks of the shell.
#[derive(Debug, Clone, PartialEq, Eq)]
pub enum Task {
    /// Rescan the roots and rebuild the index.
    Reload(ReloadReason),
    /// Write `fields` to the sidecar file at `sidecar`.
    WriteSidecar { sidecar: String, fields: SidecarFields },
    /// Run the script at this path with its output captured.
    Capture(String),
}

/// The whole interactive state.
pub struct App {
    vault: ScriptVault,
    query: String,
    results: Vec<SearchResult>,
    selected: Option<usize>,
    status: String,
    printed_paths: Vec<String>,
    mode: Mode,
    action_menu_selected: usize,
    view_mode: ViewMode,
    palette_query: String,
    palette_selected: Option<usize>,
    active_playlist: Option<String>,
    edit: EditState,
    save_search: SaveSearchState,
    output: OutputState,
    list_rect: Option<ListRect>,
    task: Option<Task>,
    dirty: bool,
}

/// The mathematical view of an [`App`].
pub struct AppView {
    pub vault: VaultView,
    pub query: Seq<char>,
    pub results: Seq<SearchResult>,
    pub selected: Option<usize>,
    pub status: Seq<char>,
    pub printed: Seq<Seq<char>>,
    pub mode: Mode,
    pub menu_row: usize,
    pub view_mode: ViewMode,
    pub palette_query: Seq<char>,
    pub palette_selected: Option<usize>,
    pub active_playlist: Option<Seq<char>>,
    pub edit: EditState,
    pub save_search: SaveSearchState,
    pub output: OutputState,
    pub list_rect: Option<ListRect>,
    pub task: Option<Task>,
    pub dirty: bool,
}

impl View for App {
    type V = AppView;

    closed spec fn view(&self) -> AppView {
        AppView {
            vault: self.vault@,
            query: self.query@,
            results: self.results@,
            selected: self.selected,
            status: self.status@,
            printed: crate::text::strs_view(self.printed_paths@),
            mode: self.mode,
            menu_row: self.action_menu_selected,
            view_mode: self.view_mode,
            palette_query: self.palette_query@,
            palette_selected: self.palette_selected,
            active_playlist: opt_view(self.active_playlist),
            edit: self.edit,
            save_search: self.save_search,
            output: self.output,
            list_rect: self.list_rect,
            task: self.task,
            dirty: self.dirty,
        }
    }
}

/// The last row of the action menu (open/edit, run, delete, cancel).
pub const ACTION_MENU_LAST: usize = 3;

/// Rows moved by a page key.
pub const PAGE: usize = 10;

/// A selection that fits `n` results: none for no results, else a row.
pub open spec fn selection_fits(selected: Option<usize>, n: nat) -> bool {
    match selected {
        Some(i) => i < n,
        None => n == 0,
    }
}

impl AppView {
    /// The invariant: the selection fits the results, the action menu row is
    /// a row, and the saved-search highlight is on a saved search.
    pub open spec fn wf(self) -> bool {
        &&& selection_fits(self.selected, self.results.len())
        &&& self.menu_row <= ACTION_MENU_LAST
        &&& self.save_search.selected matches Some(i) ==> i < self.vault.state.saved_searches.len()
    }

    /// The selected result, if any.
    pub open spec fn selected_result(self) -> Option<SearchResult> {
        match self.selected {
            Some(i) => if i < self.results.len() {
                Some(self.results[i as int])
            } else {
                None
            },
            None => None,
        }
    }
}

/// The scope a browse view selects.
pub open spec fn scope_of(v: ViewMode) -> ViewSpec {
    match v {
        ViewMode::All => ViewSpec::All,
        ViewMode::Favorites => ViewSpec::Favorites,
        ViewMode::Recents => ViewSpec::Recents,
    }
}

/// The structured query the UI state stands for: the typed text parsed, in
/// the browse view's scope, with the active playlist as one more filter.
pub open spec fn current_query_of(query: Seq<char>, view: ViewMode, playlist: Option<Seq<char>>) -> QueryView {
    let q = parsed_query(query);
    QueryView {
        view: scope_of(view),
        filters: match playlist {
            Some(n) => q.filters.push(FilterView::Playlist(n)),
            None => q.filters,
        },
        ..q
    }
}

/// The results a refilter gives: the engine's run of the current query over
/// the vault, or nothing for a text of more than 2^32 characters.
pub open spec fn refiltered<F: Fn(&State, u64, &SearchResult) -> RankInput>(
    v: AppView,
    results: Seq<SearchResult>,
    now: u64,
    rank: F,
) -> bool {
    let q = current_query_of(v.query, v.view_mode, v.active_playlist);
    if q.text.len() <= 0x1_0000_0000 {
        exists|idx: &crate::index::Index, st: &State|
            idx@ == v.vault.entries && st@ == v.vault.state && #[trigger] ran_as(results, idx, q, st, now, rank)
    } else {
        results.len() == 0
    }
}

/// The selection kept across a refilter: the old row clamped to the new
/// results, the first row when there was none, none for no results.
pub open spec fn reselected(old: Option<usize>, n: nat) -> Option<usize> {
    if n == 0 {
        None
    } else {
        match old {
            Some(i) => if i < n {
                Some(i)
            } else {
                Some((n - 1) as usize)
            },
            None => Some(0),
        }
    }
}

/// `v` after a refilter into `results`.
pub open spec fn with_results(v: AppView, results: Seq<SearchResult>) -> AppView {
    AppView { results: results, selected: reselected(v.selected, results.len()), ..v }
}

/// What every ranking function must accept.
pub open spec fn ranks_all<F: Fn(&State, u64, &SearchResult) -> RankInput>(rank: F) -> bool {
    forall|st: &State, t: u64, r: &SearchResult| rank.requires((st, t, r))
}

/// The selection after moving `delta` rows, saturating at both ends.
pub open spec fn moved(selected: Option<usize>, n: nat, delta: int) -> Option<usize> {
    match selected {
        Some(i) => {
            let last: int = if n == 0 {
                0
            } else {
                n - 1
            };
            let want = i + delta;
            Some(
                (if want < 0 {
                    0
                } else if want > last {
                    last
                } else {
                    want
                }) as usize,
            )
        },
        None => None,
    }
}

impl App {
    /// Start on the browse view of a vault: the empty query, all results,
    /// the first row selected.
    pub fn new<F: Fn(&State, u64, &SearchResult) -> RankInput + Copy>(vault: ScriptVault, now: u64, rank: F) -> (app: Self)
        requires
            ranks_all(rank),
        ensures
            app@.wf(),
            app@.vault == vault@,
            app@.query.len() == 0,
            refiltered(app@, app@.results, now, rank),
            app@.selected == reselected(None, app@.results.len()),
            app@.status.len() == 0,
            app@.printed.len() == 0,
            app@.mode == Mode::Search,
            app@.menu_row == 0,
            app@.view_mode == ViewMode::All,
            app@.palette_query.len() == 0,
            app@.palette_selected == Some(0usize),
            app@.active_playlist is None,
            app@.edit.path is None,
            app@.save_search.selected is None,
            !app@.output.show && app@.output.lines.len() == 0 && app@.output.scroll == 0,
            app@.output.live_run_path is None && app@.output.pending_live_run is None,
            app@.list_rect is None,
            app@.task is None,
            !app@.dirty,
    {
        let mut app = App {
            vault,
            query: String::new(),
            results: Vec::new(),
            selected: None,
            status: String::new(),
            printed_paths: Vec::new(),
            mode: Mode::Search,
            action_menu_selected: 0,
            view_mode: ViewMode::All,
            palette_query: String::new(),
            palette_selected: Some(0),
            active_playlist: None,
            edit: EditState {
                path: None,
                name: String::new(),
                desc: String::new(),
                tags: String::new(),
                usage: String::new(),
                category: String::new(),
                note: String::new(),
                focus: 0,
                playlist_picker_selected: None,
            },
            save_search: SaveSearchState { name: String::new(), query: String::new(), selected: None },
            output: OutputState::default(),
            list_rect: None,
            task: None,
            dirty: false,
        };
        proof {
            assert(app@.printed =~= Seq::<Seq<char>>::empty());
        }
        app.refilter(now, rank);
        app
    }

    /// The structured query for the current UI state (see [`current_query_of`]).
    fn current_query(&self) -> (q: Query)
        ensures
            q@ == current_query_of(self@.query, self@.view_mode, self@.active_playlist),
    {
        let mut q = parse_query(self.query.as_str());
        q.view = match self.view_mode {
            ViewMode::All => QueryScope::All,
            ViewMode::Favorites => QueryScope::Favorites,
            ViewMode::Recents => QueryScope::Recents,
        };
        match &self.active_playlist {
            Some(name) => {
                let ghost before = q.filters@;
                q.filters.push(Filter::Playlist(name.clone()));
                proof {
                    assert(crate::query::filters_view(q.filters@) =~= crate::query::filters_view(before).push(
                        FilterView::Playlist(name@),
                    ));
                }
            },
            None => {},
        }
        q
    }

    /// Re-run the search for the current UI state and keep the selection
    /// valid (see [`reselected`]).
    fn refilter<F: Fn(&State, u64, &SearchResult) -> RankInput + Copy>(&mut self, now: u64, rank: F)
        requires
            ranks_all(rank),
        ensures
            refiltered(old(self)@, final(self)@.results, now, rank),
            final(self)@ == with_results(old(self)@, final(self)@.results),
    {
        let q = self.current_query();
        let n = chars_of(q.text.as_str()).len() as u64;
        let results = if n <= 0x1_0000_0000 {
            proof {
                crate::text::lemma_words_len(q@.text);
            }
            self.vault.query(&q, now, rank)
        } else {
            Vec::new()
        };
        let count = results.len();
        self.results = results;
        self.selected = if count == 0 {
            None
        } else {
            match self.selected {
                Some(i) => if i < count {
                    Some(i)
                } else {
                    Some(count - 1)
                },
                None => Some(0),
            }
        };
    }
}


// ---------------------------------------------------------------------------
// Small transitions, named for the handlers' contracts
// ---------------------------------------------------------------------------

/// The status text when an action needs a selection and there is none.
pub open spec fn no_selection_msg() -> Seq<char> {
    "no result selected"@
}

/// `v` with a new status text.
pub open spec fn with_status(v: AppView, msg: Seq<char>) -> AppView {
    AppView { status: msg, ..v }
}

/// `v` on another screen.
pub open spec fn with_mode(v: AppView, m: Mode) -> AppView {
    AppView { mode: m, ..v }
}

/// An action on the selection: the intent when something is selected, else
/// a hint and no intent.
pub open spec fn acted(o: AppView, f: AppView, out: Outcome, kind: ActionKind) -> bool {
    if o.selected_result() is Some {
        out == Outcome::Act(kind) && f == o
    } else {
        out == Outcome::Continue && f == with_status(o, no_selection_msg())
    }
}

/// The palette opened afresh.
pub open spec fn palette_entered(o: AppView) -> AppView {
    AppView { mode: Mode::CommandPalette, palette_query: seq![], palette_selected: Some(0usize), ..o }
}

/// The action menu opened on the selection, or a hint when there is none.
pub open spec fn menu_opened(o: AppView) -> AppView {
    if o.selected_result() is Some {
        AppView { mode: Mode::ActionMenu, menu_row: 0, ..o }
    } else {
        with_status(o, no_selection_msg())
    }
}

/// The output pane's scroll after moving `delta` lines toward older output,
/// clamped to `[0, len - 1]` (0 when empty).
pub open spec fn scrolled_to(len: nat, scroll: usize, delta: int) -> usize {
    let max: int = if len == 0 {
        0
    } else {
        len - 1
    };
    let want = scroll + delta;
    (if want < 0 {
        0
    } else if want > max {
        max
    } else {
        want
    }) as usize
}

/// `v` with its output pane scrolled by `delta`.
pub open spec fn with_scroll(v: AppView, delta: int) -> AppView {
    AppView {
        output: OutputState { scroll: scrolled_to(v.output.lines@.len(), v.output.scroll, delta), ..v.output },
        ..v
    }
}

/// The first row, if any.
pub open spec fn first_row(n: nat) -> Option<usize> {
    if n == 0 {
        None
    } else {
        Some(0usize)
    }
}

/// The last row, if any.
pub open spec fn last_row(n: nat) -> Option<usize> {
    if n == 0 {
        None
    } else {
        Some((n - 1) as usize)
    }
}

/// Keys that always move on the search screen.
pub open spec fn is_nav_key(key: Key) -> bool {
    ||| (key.code == KeyCode::Up || key.code == KeyCode::Char('k') || key.code == KeyCode::Down
        || key.code == KeyCode::Char('j') || key.code == KeyCode::Home || key.code == KeyCode::End) && !key.ctrl
    ||| key.code == KeyCode::PageUp || key.code == KeyCode::PageDown
}

/// The search screen after a movement key (arrows, j/k, paging, Home/End,
/// g/G); shift+paging scrolls a shown output pane instead.
pub open spec fn navigated(o: AppView, key: Key) -> AppView {
    let n = o.results.len();
    let c = key.code;
    if c == KeyCode::Up || c == KeyCode::Char('k') {
        AppView { selected: moved(o.selected, n, -1), ..o }
    } else if c == KeyCode::Down || c == KeyCode::Char('j') {
        AppView { selected: moved(o.selected, n, 1), ..o }
    } else if c == KeyCode::PageUp && key.shift {
        if o.output.show {
            with_scroll(o, PAGE as int)
        } else {
            o
        }
    } else if c == KeyCode::PageDown && key.shift {
        if o.output.show {
            with_scroll(o, -(PAGE as int))
        } else {
            o
        }
    } else if c == KeyCode::PageUp {
        AppView { selected: moved(o.selected, n, -(PAGE as int)), ..o }
    } else if c == KeyCode::PageDown {
        AppView { selected: moved(o.selected, n, PAGE as int), ..o }
    } else if c == KeyCode::Home || c == KeyCode::Char('g') {
        AppView { selected: first_row(n), ..o }
    } else if c == KeyCode::End || c == KeyCode::Char('G') {
        AppView { selected: last_row(n), ..o }
    } else {
        o
    }
}

/// Whether some filter shows as a chip.
pub open spec fn has_chips(fs: Seq<FilterView>) -> bool {
    exists|k: int| 0 <= k < fs.len() && chip_of(#[trigger] fs[k]) is Some
}

/// The query after Backspace: with no fuzzy text but chips left, the last
/// operator token goes; otherwise the last character.
pub open spec fn backspaced(q: Seq<char>) -> Seq<char> {
    let p = parsed_query(q);
    if p.text.len() == 0 && has_chips(p.filters) {
        popped(q)
    } else if q.len() == 0 {
        q
    } else {
        q.drop_last()
    }
}

/// The last output stored for `path`, if any.
pub open spec fn last_output_of(st: crate::state::StateView, path: Seq<char>) -> Option<Seq<char>> {
    match recent_index(st.recents, path) {
        Some(i) => st.recents[i].last_output,
        None => None,
    }
}

/// `ls` is `text` split into lines, each tagged stdout.
pub open spec fn seeded(ls: Seq<OutputLine>, text: Seq<char>) -> bool {
    &&& ls.len() == lines(text).len()
    &&& forall|k: int| 0 <= k < ls.len() ==> (#[trigger] ls[k]).stream == OutputStream::Stdout && ls[k].text@ == lines(text)[k]
}

/// The output pane toggled: shown or hidden, pinned to the tail, and when
/// newly shown over an empty buffer, seeded with the selection's last stored
/// output. Nothing else changes.
pub open spec fn output_toggled(o: AppView, f: AppView) -> bool {
    &&& f == AppView { output: f.output, ..o }
    &&& f.output == OutputState { show: !o.output.show, scroll: 0, lines: f.output.lines, ..o.output }
    &&& if !o.output.show && o.output.lines.len() == 0 && o.selected_result() is Some && last_output_of(
        o.vault.state,
        o.selected_result()->0.entry.path@,
    ) is Some {
        seeded(f.output.lines@, last_output_of(o.vault.state, o.selected_result()->0.entry.path@)->0)
    } else {
        f.output.lines@ == o.output.lines@
    }
}

// ---------------------------------------------------------------------------
// Accessors and small operations
// ---------------------------------------------------------------------------

impl App {
    /// The typed query.
    pub fn query(&self) -> (r: &str)
        ensures
            r@ == self@.query,
    {
        self.query.as_str()
    }

    /// The current screen.
    pub fn mode(&self) -> (r: Mode)
        ensures
            r == self@.mode,
    {
        self.mode
    }

    /// The browse view.
    pub fn view_mode(&self) -> (r: ViewMode)
        ensures
            r == self@.view_mode,
    {
        self.view_mode
    }

    /// The highlighted action-menu row.
    pub fn action_menu_selected(&self) -> (r: usize)
        ensures
            r == self@.menu_row,
    {
        self.action_menu_selected
    }

    /// The palette's filter text.
    pub fn palette_query(&self) -> (r: &str)
        ensures
            r@ == self@.palette_query,
    {
        self.palette_query.as_str()
    }

    /// The highlighted palette row, among the filtered commands.
    pub fn palette_selected(&self) -> (r: Option<usize>)
        ensures
            r == self@.palette_selected,
    {
        self.palette_selected
    }

    /// The active playlist filter.
    pub fn active_playlist(&self) -> (r: Option<&str>)
        ensures
            match r {
                Some(s) => self@.active_playlist == Some(s@),
                None => self@.active_playlist is None,
            },
    {
        match &self.active_playlist {
            Some(s) => Some(s.as_str()),
            None => None,
        }
    }

    /// The results of the current query.
    pub fn results(&self) -> (r: &[SearchResult])
        ensures
            r@ == self@.results,
    {
        self.results.as_slice()
    }

    /// The selected row.
    pub fn selected(&self) -> (r: Option<usize>)
        ensures
            r == self@.selected,
    {
        self.selected
    }

    /// The status text.
    pub fn status(&self) -> (r: &str)
        ensures
            r@ == self@.status,
    {
        self.status.as_str()
    }

    /// The vault.
    pub fn vault(&self) -> (r: &ScriptVault)
        ensures
            r@ == self@.vault,
    {
        &self.vault
    }

    /// The metadata-editor and playlist-picker state.
    pub fn edit_state(&self) -> (r: &EditState)
        ensures
            *r == self@.edit,
    {
        &self.edit
    }

    /// The saved-search modals' state.
    pub fn save_search_state(&self) -> (r: &SaveSearchState)
        ensures
            *r == self@.save_search,
    {
        &self.save_search
    }

    /// The output pane's state.
    pub fn output_state(&self) -> (r: &OutputState)
        ensures
            *r == self@.output,
    {
        &self.output
    }

    /// The selected result, if any.
    pub fn selected_result(&self) -> (r: Option<&SearchResult>)
        ensures
            match r {
                Some(x) => self@.selected_result() == Some(*x),
                None => self@.selected_result() is None,
            },
    {
        match self.selected {
            Some(i) => if i < self.results.len() {
                Some(&self.results[i])
            } else {
                None
            },
            None => None,
        }
    }

    /// Set the status text.
    pub fn set_status(&mut self, msg: String)
        ensures
            final(self)@ == with_status(old(self)@, msg@),
    {
        self.status = msg;
    }

    fn say(&mut self, msg: &str)
        ensures
            final(self)@ == with_status(old(self)@, msg@),
    {
        self.status = msg.to_string();
    }

    /// Queue a path to print after the interface exits.
    pub fn record_printed_path(&mut self, path: String)
        ensures
            final(self)@ == (AppView { printed: old(self)@.printed.push(path@), ..old(self)@ }),
    {
        let ghost before = self.printed_paths@;
        self.printed_paths.push(path);
        proof {
            assert(crate::text::strs_view(self.printed_paths@) =~= crate::text::strs_view(before).push(path@));
        }
    }

    /// Take the queued paths, leaving none.
    pub fn take_printed_paths(&mut self) -> (r: Vec<String>)
        ensures
            crate::text::strs_view(r@) == old(self)@.printed,
            final(self)@ == (AppView { printed: seq![], ..old(self)@ }),
    {
        let mut r: Vec<String> = Vec::new();
        std::mem::swap(&mut r, &mut self.printed_paths);
        proof {
            assert(crate::text::strs_view(self.printed_paths@) =~= Seq::<Seq<char>>::empty());
        }
        r
    }

    /// Take the pending outside work, if any.
    pub fn take_task(&mut self) -> (r: Option<Task>)
        ensures
            r == old(self)@.task,
            final(self)@ == (AppView { task: None, ..old(self)@ }),
    {
        self.task.take()
    }

    /// Whether the state changed since it was last taken; clears the flag.
    pub fn take_state_dirty(&mut self) -> (r: bool)
        ensures
            r == old(self)@.dirty,
            final(self)@ == (AppView { dirty: false, ..old(self)@ }),
    {
        let r = self.dirty;
        self.dirty = false;
        r
    }

    /// Recompute the results, e.g. after a run changed the ordering.
    pub fn refresh_results<F: Fn(&State, u64, &SearchResult) -> RankInput + Copy>(&mut self, now: u64, rank: F)
        requires
            ranks_all(rank),
        ensures
            refiltered(old(self)@, final(self)@.results, now, rank),
            final(self)@ == with_results(old(self)@, final(self)@.results),
    {
        self.refilter(now, rank);
    }

    /// Set or clear the playlist filter, then refilter.
    pub fn set_active_playlist<F: Fn(&State, u64, &SearchResult) -> RankInput + Copy>(
        &mut self,
        name: Option<String>,
        now: u64,
        rank: F,
    )
        requires
            ranks_all(rank),
        ensures
            ({
                let mid = AppView { active_playlist: opt_view(name), ..old(self)@ };
                refiltered(mid, final(self)@.results, now, rank) && final(self)@ == with_results(mid, final(self)@.results)
            }),
    {
        self.active_playlist = name;
        self.refilter(now, rank);
    }

    /// Switch the browse view, then refilter.
    fn set_view<F: Fn(&State, u64, &SearchResult) -> RankInput + Copy>(&mut self, m: ViewMode, now: u64, rank: F)
        requires
            ranks_all(rank),
        ensures
            ({
                let mid = AppView { view_mode: m, ..old(self)@ };
                refiltered(mid, final(self)@.results, now, rank) && final(self)@ == with_results(mid, final(self)@.results)
            }),
    {
        self.view_mode = m;
        self.refilter(now, rank);
    }

    /// Move the selection by `delta`, saturating at both ends.
    fn move_selection(&mut self, delta: isize)
        ensures
            final(self)@ == (AppView { selected: moved(old(self)@.selected, old(self)@.results.len(), delta as int), ..old(self)@ }),
    {
        match self.selected {
            Some(cur) => {
                let last: usize = if self.results.len() == 0 {
                    0
                } else {
                    self.results.len() - 1
                };
                let want: i128 = cur as i128 + delta as i128;
                let next: usize = if want < 0 {
                    0
                } else if want > last as i128 {
                    last
                } else {
                    want as usize
                };
                self.selected = Some(next);
            },
            None => {},
        }
    }

    /// Emit `kind` when something is selected; otherwise say so.
    fn action_if_selected(&mut self, kind: ActionKind) -> (out: Outcome)
        ensures
            acted(old(self)@, final(self)@, out, kind),
    {
        if self.selected_result().is_some() {
            Outcome::Act(kind)
        } else {
            self.say("no result selected");
            proof {
                reveal_strlit("no result selected");
            }
            Outcome::Continue
        }
    }

    /// Open the palette with an empty filter and the first row highlighted.
    fn enter_palette(&mut self)
        ensures
            final(self)@ == palette_entered(old(self)@),
    {
        self.mode = Mode::CommandPalette;
        self.palette_query = String::new();
        self.palette_selected = Some(0);
    }

    /// Open the action menu on the selection, or say there is none.
    fn open_action_menu(&mut self)
        ensures
            final(self)@ == menu_opened(old(self)@),
    {
        if self.selected_result().is_some() {
            self.mode = Mode::ActionMenu;
            self.action_menu_selected = 0;
        } else {
            self.say("no result selected");
            proof {
                reveal_strlit("no result selected");
            }
        }
    }

    /// The last output stored for `path`, if any.
    pub fn last_output_for(&self, path: &str) -> (r: Option<&str>)
        ensures
            match r {
                Some(s) => last_output_of(self@.vault.state, path@) == Some(s@),
                None => last_output_of(self@.vault.state, path@) is None,
            },
    {
        let st = self.vault.state();
        match st.recent_position_of(path) {
            Some(i) => match &st.recents[i].last_output {
                Some(o) => Some(o.as_str()),
                None => None,
            },
            None => None,
        }
    }

    /// Whether the output pane is shown.
    pub fn is_showing_output(&self) -> (r: bool)
        ensures
            r == self@.output.show,
    {
        self.output.show
    }

    /// Show or hide the output pane (see [`output_toggled`]).
    pub fn toggle_output_pane(&mut self)
        ensures
            output_toggled(old(self)@, final(self)@),
    {
        let show = !self.output.show;
        let mut seed: Option<Vec<OutputLine>> = None;
        if show && self.output.lines.len() == 0 {
            if let Some(sel) = self.selected_result() {
                if let Some(prev) = self.last_output_for(sel.entry.path.as_str()) {
                    let ls = lines_of(&chars_of(prev));
                    let mut out: Vec<OutputLine> = Vec::new();
                    let mut i: usize = 0;
                    while i < ls.len()
                        invariant
                            i <= ls.len(),
                            vecs_view(ls@) == lines(prev@),
                            out.len() == i,
                            forall|k: int|
                                0 <= k < i ==> (#[trigger] out@[k]).stream == OutputStream::Stdout && out@[k].text@
                                    == lines(prev@)[k],
                        decreases ls.len() - i,
                    {
                        proof {
                            assert(ls@[i as int]@ == lines(prev@)[i as int]);
                        }
                        out.push(OutputLine { stream: OutputStream::Stdout, text: string_of(&ls[i]) });
                        i += 1;
                    }
                    seed = Some(out);
                }
            }
        }
        self.output.show = show;
        self.output.scroll = 0;
        match seed {
            Some(ls) => {
                self.output.lines = ls;
            },
            None => {},
        }
    }
}


// ---------------------------------------------------------------------------
// The search screen, help, the action menu and the delete confirmation
// ---------------------------------------------------------------------------

/// `v` after its query is replaced by `q` and the results refiltered.
pub open spec fn requeried<F: Fn(&State, u64, &SearchResult) -> RankInput>(
    o: AppView,
    q: Seq<char>,
    f: AppView,
    now: u64,
    rank: F,
) -> bool {
    let mid = AppView { query: q, ..o };
    refiltered(mid, f.results, now, rank) && f == with_results(mid, f.results)
}

/// `v` after switching to browse view `m` and refiltering.
pub open spec fn reviewed<F: Fn(&State, u64, &SearchResult) -> RankInput>(
    o: AppView,
    m: ViewMode,
    f: AppView,
    now: u64,
    rank: F,
) -> bool {
    let mid = AppView { view_mode: m, ..o };
    refiltered(mid, f.results, now, rank) && f == with_results(mid, f.results)
}

/// The text shown after ^L toggled the output pane.
pub open spec fn output_report(shown: bool) -> Seq<char> {
    if shown {
        "output pane on (tail view)"@
    } else {
        "output pane off"@
    }
}

/// One key on the search screen. In order of precedence: Esc quits; `?`
/// opens help; ^P, or `:` on an empty query, opens the palette; Enter opens
/// the action menu; ^R, ^Y, ^O, ^F ask for run, copy, print and favorite;
/// ^L toggles the output pane; arrows, j/k, paging and Home/End move (g/G
/// too, on a blank query); A/F/R switch the view on a blank query; ^U clears
/// the query; Backspace edits it (see [`backspaced`]); any other plain
/// character is typed. Anything else does nothing.
pub open spec fn search_step<F: Fn(&State, u64, &SearchResult) -> RankInput>(
    o: AppView,
    key: Key,
    f: AppView,
    out: Outcome,
    now: u64,
    rank: F,
) -> bool {
    let c = key.code;
    let ctrl = key.ctrl;
    let blank = trim(o.query).len() == 0;
    if c == KeyCode::Esc {
        out == Outcome::Quit && f == o
    } else if c == KeyCode::Char('?') && !ctrl {
        out == Outcome::Continue && f == with_mode(o, Mode::Help)
    } else if (c == KeyCode::Char('p') && ctrl) || (c == KeyCode::Char(':') && !ctrl && o.query.len() == 0) {
        out == Outcome::Continue && f == palette_entered(o)
    } else if c == KeyCode::Enter {
        out == Outcome::Continue && f == menu_opened(o)
    } else if c == KeyCode::Char('r') && ctrl {
        acted(o, f, out, ActionKind::Run)
    } else if c == KeyCode::Char('y') && ctrl {
        acted(o, f, out, ActionKind::CopyPath)
    } else if c == KeyCode::Char('o') && ctrl {
        acted(o, f, out, ActionKind::PrintPath)
    } else if c == KeyCode::Char('f') && ctrl {
        acted(o, f, out, ActionKind::ToggleFavorite)
    } else if c == KeyCode::Char('l') && ctrl {
        out == Outcome::Continue && exists|t: AppView|
            output_toggled(o, t) && f == with_status(t, output_report(t.output.show))
    } else if is_nav_key(key) || ((c == KeyCode::Char('g') || c == KeyCode::Char('G')) && !ctrl && blank) {
        out == Outcome::Continue && f == navigated(o, key)
    } else if c == KeyCode::Char('A') && !ctrl && blank {
        out == Outcome::Continue && reviewed(o, ViewMode::All, f, now, rank)
    } else if c == KeyCode::Char('F') && !ctrl && blank {
        out == Outcome::Continue && reviewed(o, ViewMode::Favorites, f, now, rank)
    } else if c == KeyCode::Char('R') && !ctrl && blank {
        out == Outcome::Continue && reviewed(o, ViewMode::Recents, f, now, rank)
    } else if c == KeyCode::Char('u') && ctrl {
        out == Outcome::Continue && requeried(o, seq![], f, now, rank)
    } else if c == KeyCode::Backspace && !ctrl {
        out == Outcome::Continue && requeried(o, backspaced(o.query), f, now, rank)
    } else if c is Char && !ctrl {
        out == Outcome::Continue && requeried(o, o.query.push(c->0), f, now, rank)
    } else {
        out == Outcome::Continue && f == o
    }
}

/// One key on the help overlay: `?`, Esc, `c` or `q` close it; every other
/// key is inert.
pub open spec fn help_step(o: AppView, key: Key, f: AppView, out: Outcome) -> bool {
    out == Outcome::Continue && if key.code == KeyCode::Esc || key.code == KeyCode::Char('?') || key.code
        == KeyCode::Char('c') || key.code == KeyCode::Char('q') {
        f == with_mode(o, Mode::Search)
    } else {
        f == o
    }
}

/// One key on the delete confirmation: only a plain `y` asks for the delete;
/// `n`, `c`, `q` or Esc cancel; every other key is inert.
pub open spec fn confirm_step(o: AppView, key: Key, f: AppView, out: Outcome) -> bool {
    let c = key.code;
    if c == KeyCode::Char('y') && !key.ctrl {
        acted(with_mode(o, Mode::Search), f, out, ActionKind::Delete)
    } else if ((c == KeyCode::Char('n') || c == KeyCode::Char('c') || c == KeyCode::Char('q')) && !key.ctrl) || c
        == KeyCode::Esc {
        out == Outcome::Continue && f == with_status(with_mode(o, Mode::Search), "delete cancelled"@)
    } else {
        out == Outcome::Continue && f == o
    }
}

/// Activating an action-menu row: open/edit and run ask for the action (back
/// on the search screen); delete goes to the confirmation when something is
/// selected; cancel closes the menu.
pub open spec fn menu_row_run(o: AppView, row: usize, f: AppView, out: Outcome) -> bool {
    if row == 0 {
        acted(with_mode(o, Mode::Search), f, out, ActionKind::OpenEditor)
    } else if row == 1 {
        acted(with_mode(o, Mode::Search), f, out, ActionKind::Run)
    } else if row == 2 {
        out == Outcome::Continue && if o.selected_result() is Some {
            f == with_mode(o, Mode::ConfirmDelete)
        } else {
            f == with_status(with_mode(o, Mode::Search), no_selection_msg())
        }
    } else {
        out == Outcome::Continue && f == with_mode(o, Mode::Search)
    }
}

/// One key in the action menu: up/k and down/j move the highlight (within
/// the rows), Enter activates it, `1`..`3` pick a row directly, and `4`,
/// `c`, `q` or Esc cancel. Every other key is inert.
pub open spec fn menu_step(o: AppView, key: Key, f: AppView, out: Outcome) -> bool {
    let c = key.code;
    let plain = !key.ctrl;
    if (c == KeyCode::Up || c == KeyCode::Char('k')) && plain {
        out == Outcome::Continue && f == (AppView {
            menu_row: if o.menu_row == 0 {
                0
            } else {
                (o.menu_row - 1) as usize
            },
            ..o
        })
    } else if (c == KeyCode::Down || c == KeyCode::Char('j')) && plain {
        out == Outcome::Continue && f == (AppView {
            menu_row: if o.menu_row >= ACTION_MENU_LAST {
                ACTION_MENU_LAST
            } else {
                (o.menu_row + 1) as usize
            },
            ..o
        })
    } else if c == KeyCode::Enter {
        menu_row_run(o, o.menu_row, f, out)
    } else if c == KeyCode::Char('1') && plain {
        menu_row_run(o, 0, f, out)
    } else if c == KeyCode::Char('2') && plain {
        menu_row_run(o, 1, f, out)
    } else if c == KeyCode::Char('3') && plain {
        menu_row_run(o, 2, f, out)
    } else if ((c == KeyCode::Char('4') || c == KeyCode::Char('c') || c == KeyCode::Char('q')) && plain) || c
        == KeyCode::Esc {
        menu_row_run(o, 3, f, out)
    } else {
        out == Outcome::Continue && f == o
    }
}

/// Whether a parsed query has filters that show as chips.
fn has_active_chips(q: &Query) -> (r: bool)
    ensures
        r == has_chips(q@.filters),
{
    let mut i: usize = 0;
    while i < q.filters.len()
        invariant
            i <= q.filters.len(),
            forall|k: int| 0 <= k < i ==> chip_of(#[trigger] q@.filters[k]) is None,
        decreases q.filters.len() - i,
    {
        if q.filters[i].chip_label().is_some() {
            proof {
                assert(chip_of(q@.filters[i as int]) is Some);
            }
            return true;
        }
        i += 1;
    }
    false
}

impl App {
    /// The texts of the chips of the typed query's filters, in order.
    pub fn active_chips(&self) -> (r: Vec<String>)
        ensures
            crate::text::strs_view(r@) == chips_of(parsed_query(self@.query).filters),
    {
        let q = parse_query(self.query.as_str());
        let mut out: Vec<String> = Vec::new();
        let mut i: usize = 0;
        while i < q.filters.len()
            invariant
                i <= q.filters.len(),
                q@ == parsed_query(self@.query),
                crate::text::strs_view(out@) == chips_of(q@.filters.take(i as int)),
            decreases q.filters.len() - i,
        {
            proof {
                assert(q@.filters.take(i + 1).drop_last() =~= q@.filters.take(i as int));
            }
            match q.filters[i].chip_label() {
                Some(label) => {
                    let ghost before = out@;
                    out.push(label);
                    proof {
                        assert(crate::text::strs_view(out@) =~= crate::text::strs_view(before).push(label@));
                    }
                },
                None => {},
            }
            i += 1;
        }
        proof {
            assert(q@.filters.take(q.filters.len() as int) =~= q@.filters);
        }
        out
    }

    fn replace_query<F: Fn(&State, u64, &SearchResult) -> RankInput + Copy>(&mut self, q: String, now: u64, rank: F)
        requires
            ranks_all(rank),
        ensures
            requeried(old(self)@, q@, final(self)@, now, rank),
    {
        self.query = q;
        self.refilter(now, rank);
    }

    /// Backspace on the search box (see [`backspaced`]).
    fn search_backspace<F: Fn(&State, u64, &SearchResult) -> RankInput + Copy>(&mut self, now: u64, rank: F)
        requires
            ranks_all(rank),
        ensures
            requeried(old(self)@, backspaced(old(self)@.query), final(self)@, now, rank),
    {
        let p = parse_query(self.query.as_str());
        let q = if p.text.as_str().is_empty() && has_active_chips(&p) {
            pop_last_filter_token(self.query.as_str())
        } else {
            let v = chars_of(self.query.as_str());
            if v.len() == 0 {
                self.query.clone()
            } else {
                let w = crate::text::slice(&v, 0, v.len() - 1);
                proof {
                    assert(w@ =~= v@.drop_last());
                }
                string_of(&w)
            }
        };
        self.replace_query(q, now, rank);
    }

    /// Movement on the search screen (see [`navigated`]).
    fn search_navigation(&mut self, key: Key)
        ensures
            final(self)@ == navigated(old(self)@, key),
    {
        match key.code {
            KeyCode::Up | KeyCode::Char('k') => self.move_selection(-1),
            KeyCode::Down | KeyCode::Char('j') => self.move_selection(1),
            KeyCode::PageUp if key.shift => {
                if self.output.show {
                    self.output.scroll_output(PAGE as isize);
                }
            },
            KeyCode::PageDown if key.shift => {
                if self.output.show {
                    self.output.scroll_output(-(PAGE as isize));
                }
            },
            KeyCode::PageUp => self.move_selection(-(PAGE as isize)),
            KeyCode::PageDown => self.move_selection(PAGE as isize),
            KeyCode::Home | KeyCode::Char('g') => {
                self.selected = if self.results.len() == 0 {
                    None
                } else {
                    Some(0)
                };
            },
            KeyCode::End | KeyCode::Char('G') => {
                self.selected = if self.results.len() == 0 {
                    None
                } else {
                    Some(self.results.len() - 1)
                };
            },
            _ => {},
        }
    }

    /// ^L: toggle the output pane and report it.
    fn toggle_output_and_report(&mut self)
        ensures
            exists|t: AppView| output_toggled(old(self)@, t) && final(self)@ == with_status(t, output_report(t.output.show)),
    {
        self.toggle_output_pane();
        let ghost t = self@;
        if self.output.show {
            self.say("output pane on (tail view)");
        } else {
            self.say("output pane off");
        }
        proof {
            reveal_strlit("output pane on (tail view)");
            reveal_strlit("output pane off");
        }
    }

    /// One key on the search screen (see [`search_step`]).
    fn handle_search_key<F: Fn(&State, u64, &SearchResult) -> RankInput + Copy>(&mut self, key: Key, now: u64, rank: F) -> (out: Outcome)
        requires
            old(self)@.wf(),
            ranks_all(rank),
        ensures
            final(self)@.wf(),
            search_step(old(self)@, key, final(self)@, out, now, rank),
    {
        let ctrl = key.ctrl;
        let blank = trim_str(self.query.as_str()).len() == 0;
        let c = key.code;
        if c == KeyCode::Esc {
            Outcome::Quit
        } else if c == KeyCode::Char('?') && !ctrl {
            self.mode = Mode::Help;
            Outcome::Continue
        } else if (c == KeyCode::Char('p') && ctrl) || (c == KeyCode::Char(':') && !ctrl && self.query.as_str().is_empty()) {
            self.enter_palette();
            Outcome::Continue
        } else if c == KeyCode::Enter {
            self.open_action_menu();
            Outcome::Continue
        } else if c == KeyCode::Char('r') && ctrl {
            self.action_if_selected(ActionKind::Run)
        } else if c == KeyCode::Char('y') && ctrl {
            self.action_if_selected(ActionKind::CopyPath)
        } else if c == KeyCode::Char('o') && ctrl {
            self.action_if_selected(ActionKind::PrintPath)
        } else if c == KeyCode::Char('f') && ctrl {
            self.action_if_selected(ActionKind::ToggleFavorite)
        } else if c == KeyCode::Char('l') && ctrl {
            self.toggle_output_and_report();
            Outcome::Continue
        } else if ((c == KeyCode::Up || c == KeyCode::Char('k') || c == KeyCode::Down || c == KeyCode::Char('j') || c
            == KeyCode::Home || c == KeyCode::End) && !ctrl) || c == KeyCode::PageUp || c == KeyCode::PageDown || ((c
            == KeyCode::Char('g') || c == KeyCode::Char('G')) && !ctrl && blank) {
            self.search_navigation(key);
            Outcome::Continue
        } else if c == KeyCode::Char('A') && !ctrl && blank {
            self.set_view(ViewMode::All, now, rank);
            Outcome::Continue
        } else if c == KeyCode::Char('F') && !ctrl && blank {
            self.set_view(ViewMode::Favorites, now, rank);
            Outcome::Continue
        } else if c == KeyCode::Char('R') && !ctrl && blank {
            self.set_view(ViewMode::Recents, now, rank);
            Outcome::Continue
        } else if c == KeyCode::Char('u') && ctrl {
            self.replace_query(String::new(), now, rank);
            Outcome::Continue
        } else if c == KeyCode::Backspace && !ctrl {
            self.search_backspace(now, rank);
            Outcome::Continue
        } else {
            if let KeyCode::Char(ch) = c {
                if !ctrl {
                    let mut q = self.query.clone();
                    q.push(ch);
                    self.replace_query(q, now, rank);
                }
            }
            Outcome::Continue
        }
    }

    /// One key on the help overlay (see [`help_step`]).
    fn handle_help_key(&mut self, key: Key) -> (out: Outcome)
        requires
            old(self)@.wf(),
        ensures
            final(self)@.wf(),
            help_step(old(self)@, key, final(self)@, out),
    {
        match key.code {
            KeyCode::Esc | KeyCode::Char('?') | KeyCode::Char('c') | KeyCode::Char('q') => {
                self.mode = Mode::Search;
            },
            _ => {},
        }
        Outcome::Continue
    }

    /// One key on the delete confirmation (see [`confirm_step`]).
    fn handle_confirm_delete_key(&mut self, key: Key) -> (out: Outcome)
        requires
            old(self)@.wf(),
        ensures
            final(self)@.wf(),
            confirm_step(old(self)@, key, final(self)@, out),
    {
        let c = key.code;
        if c == KeyCode::Char('y') && !key.ctrl {
            self.mode = Mode::Search;
            self.action_if_selected(ActionKind::Delete)
        } else if ((c == KeyCode::Char('n') || c == KeyCode::Char('c') || c == KeyCode::Char('q')) && !key.ctrl) || c
            == KeyCode::Esc {
            self.mode = Mode::Search;
            self.say("delete cancelled");
            proof {
                reveal_strlit("delete cancelled");
            }
            Outcome::Continue
        } else {
            Outcome::Continue
        }
    }

    /// Activate an action-menu row (see [`menu_row_run`]).
    fn run_action_menu_row(&mut self, row: usize) -> (out: Outcome)
        ensures
            menu_row_run(old(self)@, row, final(self)@, out),
    {
        if row == 0 {
            self.mode = Mode::Search;
            self.action_if_selected(ActionKind::OpenEditor)
        } else if row == 1 {
            self.mode = Mode::Search;
            self.action_if_selected(ActionKind::Run)
        } else if row == 2 {
            if self.selected_result().is_some() {
                self.mode = Mode::ConfirmDelete;
            } else {
                self.mode = Mode::Search;
                self.say("no result selected");
                proof {
                    reveal_strlit("no result selected");
                }
            }
            Outcome::Continue
        } else {
            self.mode = Mode::Search;
            Outcome::Continue
        }
    }

    /// One key in the action menu (see [`menu_step`]).
    fn handle_action_menu_key(&mut self, key: Key) -> (out: Outcome)
        requires
            old(self)@.wf(),
        ensures
            final(self)@.wf(),
            menu_step(old(self)@, key, final(self)@, out),
    {
        let c = key.code;
        let plain = !key.ctrl;
        if (c == KeyCode::Up || c == KeyCode::Char('k')) && plain {
            if self.action_menu_selected > 0 {
                self.action_menu_selected = self.action_menu_selected - 1;
            }
            Outcome::Continue
        } else if (c == KeyCode::Down || c == KeyCode::Char('j')) && plain {
            if self.action_menu_selected < ACTION_MENU_LAST {
                self.action_menu_selected = self.action_menu_selected + 1;
            } else {
                self.action_menu_selected = ACTION_MENU_LAST;
            }
            Outcome::Continue
        } else if c == KeyCode::Enter {
            let row = self.action_menu_selected;
            self.run_action_menu_row(row)
        } else if c == KeyCode::Char('1') && plain {
            self.run_action_menu_row(0)
        } else if c == KeyCode::Char('2') && plain {
            self.run_action_menu_row(1)
        } else if c == KeyCode::Char('3') && plain {
            self.run_action_menu_row(2)
        } else if ((c == KeyCode::Char('4') || c == KeyCode::Char('c') || c == KeyCode::Char('q')) && plain) || c
            == KeyCode::Esc {
            self.run_action_menu_row(3)
        } else {
            Outcome::Continue
        }
    }
}

/// The chip texts of filters, in order, skipping those without one.
pub open spec fn chips_of(fs: Seq<FilterView>) -> Seq<Seq<char>>
    decreases fs.len(),
{
    if fs.len() == 0 {
        seq![]
    } else {
        let rest = chips_of(fs.drop_last());
        match chip_of(fs.last()) {
            Some(c) => rest.push(c),
            None => rest,
        }
    }
}


// ---------------------------------------------------------------------------
// Text helpers
// ---------------------------------------------------------------------------

/// `prefix`, then `middle`, then `suffix`.
fn framed(prefix: &str, middle: &str, suffix: &str) -> (s: String)
    ensures
        s@ == prefix@ + middle@ + suffix@,
{
    let mut v = chars_of(prefix);
    let m = chars_of(middle);
    crate::text::append(&mut v, &m);
    crate::text::append_lit(&mut v, suffix);
    string_of(&v)
}

fn push_dec_wide(out: &mut Vec<char>, n: u128)
    ensures
        final(out)@ == old(out)@ + crate::text::dec(n as nat),
    decreases n,
{
    if n < 10 {
        crate::text::push_dec(out, n as u64);
    } else {
        push_dec_wide(out, n / 10);
        let ghost mid = out@;
        crate::text::push_dec(out, (n % 10) as u64);
        proof {
            assert(crate::text::dec((n % 10) as nat) =~= seq![crate::text::digit((n % 10) as nat)]);
            assert(old(out)@ + crate::text::dec(n as nat) =~= old(out)@ + crate::text::dec((n / 10) as nat) + seq![
                crate::text::digit((n % 10) as nat),
            ]);
        }
    }
}

/// The name of the next new playlist, given how many there are.
pub open spec fn new_playlist_name(count: nat) -> Seq<char> {
    "Playlist "@ + crate::text::dec(count + 1)
}

fn playlist_name_for(count: usize) -> (s: String)
    ensures
        s@ == new_playlist_name(count as nat),
{
    let mut v = chars_of("Playlist ");
    push_dec_wide(&mut v, count as u128 + 1);
    string_of(&v)
}

// ---------------------------------------------------------------------------
// The command palette
// ---------------------------------------------------------------------------

/// The actions of the palette entries shown for a filter, in order.
pub open spec fn kept_actions(t: Seq<(Seq<char>, Seq<char>, PaletteAction)>, q: Seq<char>) -> Seq<PaletteAction>
    decreases t.len(),
{
    if t.len() == 0 {
        seq![]
    } else {
        let rest = kept_actions(t.drop_last(), q);
        if palette_matches(t.last().0, t.last().1, q) {
            rest.push(t.last().2)
        } else {
            rest
        }
    }
}

/// The palette entries shown for the filter `q`.
pub open spec fn palette_shown(q: Seq<char>) -> Seq<PaletteAction> {
    kept_actions(palette_table(), q)
}

/// The highlighted palette entry, if the highlight is on one.
pub open spec fn palette_choice(v: AppView) -> Option<PaletteAction> {
    match v.palette_selected {
        Some(i) => if i < palette_shown(v.palette_query).len() {
            Some(palette_shown(v.palette_query)[i as int])
        } else {
            None
        },
        None => None,
    }
}

/// The palette highlight after moving `delta` among `n` shown entries.
pub open spec fn palette_moved(sel: Option<usize>, n: nat, delta: int) -> Option<usize> {
    if n == 0 {
        None
    } else {
        let cur: int = match sel {
            Some(i) => i as int,
            None => 0,
        };
        let want = cur + delta;
        Some(
            (if want < 0 {
                0
            } else if want > n - 1 {
                n - 1
            } else {
                want
            }) as usize,
        )
    }
}

/// The palette highlight kept within `n` shown entries.
pub open spec fn palette_clamped(sel: Option<usize>, n: nat) -> Option<usize> {
    if n == 0 {
        None
    } else {
        match sel {
            Some(s) => if s < n {
                Some(s)
            } else {
                Some((n - 1) as usize)
            },
            None => Some(0usize),
        }
    }
}

/// Leaving the palette: back to the search screen, unless a command already
/// moved to another screen.
pub open spec fn palette_exited(v: AppView) -> AppView {
    if v.mode == Mode::CommandPalette {
        with_mode(v, Mode::Search)
    } else {
        v
    }
}

/// `v` with a new palette filter and the highlight kept within it.
pub open spec fn palette_refiltered(v: AppView, q: Seq<char>) -> AppView {
    AppView { palette_query: q, palette_selected: palette_clamped(v.palette_selected, palette_shown(q).len()), ..v }
}

/// `v` with the vault changed and the state marked for saving.
pub open spec fn with_vault(v: AppView, vault: VaultView) -> AppView {
    AppView { vault: vault, dirty: true, ..v }
}

/// `v` with the vault's state replaced.
pub open spec fn vault_with_state(v: VaultView, st: crate::state::StateView) -> VaultView {
    VaultView { state: st, ..v }
}

/// The metadata editor opened on the selection, loaded with its current
/// values and note; or a hint when nothing is selected.
pub open spec fn edit_begun(o: AppView, f: AppView) -> bool {
    match o.selected_result() {
        Some(r) => {
            let e = r@.entry;
            &&& f == AppView { edit: f.edit, mode: Mode::EditMetadata, ..o }
            &&& opt_view(f.edit.path) == Some(e.path)
            &&& f.edit.name@ == display_name_of(e)
            &&& f.edit.desc@ == or_empty(e.meta.desc)
            &&& f.edit.tags@ == join(e.meta.tags, ", "@)
            &&& f.edit.usage@ == or_empty(e.meta.usage)
            &&& f.edit.category@ == or_empty(e.meta.category)
            &&& f.edit.note@ == or_empty(pair_lookup(o.vault.state.notes, e.path))
            &&& f.edit.focus == 0
            &&& f.edit.playlist_picker_selected == o.edit.playlist_picker_selected
        },
        None => f == with_status(o, no_selection_msg()),
    }
}

/// An optional text, or the empty text.
pub open spec fn or_empty(s: Option<Seq<char>>) -> Seq<char> {
    match s {
        Some(x) => x,
        None => seq![],
    }
}

/// The playlist picker opened on the selection, or a hint.
pub open spec fn picker_entered(o: AppView) -> AppView {
    if o.selected_result() is None {
        with_status(o, no_selection_msg())
    } else if o.vault.state.playlists.len() == 0 {
        with_status(o, "no playlists; use 'new playlist' first"@)
    } else {
        AppView {
            mode: Mode::PlaylistPicker,
            edit: EditState { playlist_picker_selected: Some(0usize), ..o.edit },
            ..o
        }
    }
}

/// The save-search modal opened on the trimmed query, or a hint when blank.
pub open spec fn save_entered(o: AppView, f: AppView) -> bool {
    if trim(o.query).len() == 0 {
        f == with_status(o, "no query to save"@)
    } else {
        &&& f == AppView { save_search: f.save_search, mode: Mode::SaveSearchName, ..o }
        &&& f.save_search.query@ == trim(o.query)
        &&& f.save_search.name@.len() == 0
        &&& f.save_search.selected == o.save_search.selected
    }
}

/// The saved-search picker opened, or a hint when there are none.
pub open spec fn saved_picker_entered(o: AppView) -> AppView {
    if o.vault.state.saved_searches.len() == 0 {
        with_status(o, "no saved searches"@)
    } else {
        AppView {
            mode: Mode::SavedSearchPicker,
            save_search: SaveSearchState { selected: Some(0usize), ..o.save_search },
            ..o
        }
    }
}

/// `v` with the playlist filter set to `p`, then refiltered into `f`.
pub open spec fn replaylisted<F: Fn(&State, u64, &SearchResult) -> RankInput>(
    v: AppView,
    p: Option<Seq<char>>,
    f: AppView,
    now: u64,
    rank: F,
) -> bool {
    let mid = AppView { active_playlist: p, ..v };
    refiltered(mid, f.results, now, rank) && f == with_results(mid, f.results)
}

/// A palette command that is neither an action nor a view, run in place.
pub open spec fn special_step<F: Fn(&State, u64, &SearchResult) -> RankInput>(
    o: AppView,
    cmd: SpecialCmd,
    f: AppView,
    now: u64,
    rank: F,
) -> bool {
    let st = o.vault.state;
    let pls = st.playlists;
    match cmd {
        SpecialCmd::Reload => f == AppView { task: Some(Task::Reload(ReloadReason::Requested)), ..o },
        SpecialCmd::NewPlaylist => {
            let name = new_playlist_name(pls.len());
            let created = playlist_index(pls, name) is None;
            let st2 = with_playlists(
                st,
                if created {
                    pls.push(PlaylistView { name: name, paths: seq![] })
                } else {
                    pls
                },
            );
            let mid = with_status(
                with_vault(o, vault_with_state(o.vault, st2)),
                "created playlist '"@ + name + "'"@,
            );
            replaylisted(mid, Some(name), f, now, rank)
        },
        SpecialCmd::AddToPlaylist => match o.selected_result() {
            None => f == with_status(o, no_selection_msg()),
            Some(r) => if pls.len() == 0 {
                let one = seq![PlaylistView { name: "default"@, paths: seq![] }];
                f == with_status(
                    with_vault(o, vault_with_state(o.vault, with_playlists(st, added_to(one, "default"@, r@.entry.path)))),
                    "created 'default' and added"@,
                )
            } else if pls.len() == 1 {
                f == with_status(
                    with_vault(o, vault_with_state(o.vault, with_playlists(st, added_to(pls, pls[0].name, r@.entry.path)))),
                    "added to '"@ + pls[0].name + "'"@,
                )
            } else {
                f == picker_entered(palette_exited(o))
            },
        },
        SpecialCmd::ActivatePlaylist => if pls.len() > 0 {
            replaylisted(with_status(o, "filtering to '"@ + pls[0].name + "'"@), Some(pls[0].name), f, now, rank)
        } else {
            f == with_status(o, "no playlists yet (use 'new playlist')"@)
        },
        SpecialCmd::DeletePlaylist => if pls.len() > 0 {
            let n = pls[0].name;
            let st2 = with_playlists(
                st,
                match playlist_index(pls, n) {
                    Some(i) => pls.remove(i),
                    None => pls,
                },
            );
            let mid = with_status(with_vault(o, vault_with_state(o.vault, st2)), "deleted playlist '"@ + n + "'"@);
            if o.active_playlist == Some(n) {
                replaylisted(mid, None, f, now, rank)
            } else {
                f == mid
            }
        } else {
            f == with_status(o, "no playlists to delete"@)
        },
        SpecialCmd::ClearPlaylistFilter => replaylisted(with_status(o, "cleared playlist filter"@), None, f, now, rank),
        SpecialCmd::ShowLastOutput => match o.selected_result() {
            None => f == with_status(o, no_selection_msg()),
            Some(r) => match last_output_of(st, r@.entry.path) {
                Some(out) => f == with_status(o, "last out: "@ + out),
                None => f == with_status(o, "no captured output for this script"@),
            },
        },
        SpecialCmd::SaveSearch => save_entered(palette_exited(o), f),
        SpecialCmd::LoadSavedSearch => f == saved_picker_entered(palette_exited(o)),
        SpecialCmd::RunCapture => match o.selected_result() {
            None => f == with_status(o, no_selection_msg()),
            Some(r) => f == AppView { task: f.task, ..o } && (f.task matches Some(Task::Capture(p)) && p@
                == r@.entry.path),
        },
        SpecialCmd::RunLive => match o.selected_result() {
            None => f == with_status(o, no_selection_msg()),
            Some(r) => {
                &&& f == AppView { output: f.output, status: "starting live run (streaming to output pane)..."@, ..o }
                &&& f.output == OutputState {
                    show: true,
                    lines: f.output.lines,
                    scroll: 0,
                    pending_live_run: f.output.pending_live_run,
                    ..o.output
                }
                &&& f.output.lines.len() == 0
                &&& opt_view(f.output.pending_live_run) == Some(r@.entry.path)
            },
        },
        SpecialCmd::ToggleOutput => exists|t: AppView|
            output_toggled(o, t) && f == with_status(
                t,
                if t.output.show {
                    "output pane on"@
                } else {
                    "output pane off"@
                },
            ),
        SpecialCmd::EditMetadata => edit_begun(palette_exited(o), f),
        SpecialCmd::ClearQuery => requeried(o, seq![], f, now, rank),
        SpecialCmd::Help => f == with_mode(o, Mode::Help),
        SpecialCmd::Quit => f == with_status(o, "use Esc to quit"@),
    }
}

/// Running the highlighted palette entry: an action closes the palette and
/// asks for it (a hint instead when nothing is selected, the palette left
/// open); a view switch refilters and closes it; any other command runs in
/// place (see [`special_step`]) and the palette closes unless the command
/// moved to another screen.
pub open spec fn dispatch_step<F: Fn(&State, u64, &SearchResult) -> RankInput>(
    o: AppView,
    a: PaletteAction,
    f: AppView,
    out: Outcome,
    now: u64,
    rank: F,
) -> bool {
    match a {
        PaletteAction::Act(kind) => if o.selected_result() is Some {
            out == Outcome::Act(kind) && f == palette_exited(o)
        } else {
            out == Outcome::Continue && f == with_status(o, no_selection_msg())
        },
        PaletteAction::SetView(m) => out == Outcome::Continue && exists|mid: AppView|
            #[trigger] reviewed(o, m, mid, now, rank) && f == palette_exited(mid),
        PaletteAction::Special(cmd) => out == Outcome::Continue && exists|mid: AppView|
            #[trigger] special_step(o, cmd, mid, now, rank) && f == palette_exited(mid),
    }
}

/// One key in the palette: ^C quits; Esc closes it; Enter runs the
/// highlighted entry (or just closes); up (or a plain `k`) and down (or `j`)
/// move the highlight; Backspace and plain characters edit the filter, which
/// keeps the highlight within the shown entries. Every other key is inert.
pub open spec fn palette_step<F: Fn(&State, u64, &SearchResult) -> RankInput>(
    o: AppView,
    key: Key,
    f: AppView,
    out: Outcome,
    now: u64,
    rank: F,
) -> bool {
    let c = key.code;
    let n = palette_shown(o.palette_query).len();
    if c == KeyCode::Char('c') && key.ctrl {
        out == Outcome::Quit && f == o
    } else if c == KeyCode::Esc {
        out == Outcome::Continue && f == palette_exited(o)
    } else if c == KeyCode::Enter {
        match palette_choice(o) {
            Some(a) => dispatch_step(o, a, f, out, now, rank),
            None => out == Outcome::Continue && f == palette_exited(o),
        }
    } else if c == KeyCode::Up || (c == KeyCode::Char('k') && !key.ctrl) {
        out == Outcome::Continue && f == AppView { palette_selected: palette_moved(o.palette_selected, n, -1), ..o }
    } else if c == KeyCode::Down || (c == KeyCode::Char('j') && !key.ctrl) {
        out == Outcome::Continue && f == AppView { palette_selected: palette_moved(o.palette_selected, n, 1), ..o }
    } else if c == KeyCode::Backspace && !key.ctrl {
        out == Outcome::Continue && f == palette_refiltered(
            o,
            if o.palette_query.len() == 0 {
                o.palette_query
            } else {
                o.palette_query.drop_last()
            },
        )
    } else if c is Char && !key.ctrl {
        out == Outcome::Continue && f == palette_refiltered(o, o.palette_query.push(c->0))
    } else {
        out == Outcome::Continue && f == o
    }
}

/// The characters of `s` but the last (none for an empty `s`).
fn without_last(s: &str) -> (r: String)
    ensures
        r@ == (if s@.len() == 0 {
            s@
        } else {
            s@.drop_last()
        }),
{
    let v = chars_of(s);
    if v.len() == 0 {
        string_of(&v)
    } else {
        let w = crate::text::slice(&v, 0, v.len() - 1);
        proof {
            assert(w@ =~= v@.drop_last());
        }
        string_of(&w)
    }
}

/// `s` with `c` appended.
fn with_char(s: &str, c: char) -> (r: String)
    ensures
        r@ == s@.push(c),
{
    let mut t = s.to_string();
    t.push(c);
    t
}

impl App {
    /// The actions of the palette entries shown for the current filter.
    fn shown_palette_actions(&self) -> (r: Vec<PaletteAction>)
        ensures
            r@ == palette_shown(self@.palette_query),
    {
        let cmds = palette_commands();
        let mut out: Vec<PaletteAction> = Vec::new();
        let mut i: usize = 0;
        while i < cmds.len()
            invariant
                i <= cmds.len(),
                cmds.len() == palette_table().len(),
                forall|k: int|
                    0 <= k < cmds.len() ==> (#[trigger] cmds@[k]).label@ == palette_table()[k].0 && cmds@[k].desc@
                        == palette_table()[k].1 && cmds@[k].action == palette_table()[k].2,
                out@ == kept_actions(palette_table().take(i as int), self@.palette_query),
            decreases cmds.len() - i,
        {
            proof {
                assert(palette_table().take(i + 1).drop_last() =~= palette_table().take(i as int));
                assert(palette_table().take(i + 1).last() == palette_table()[i as int]);
            }
            if palette_cmd_matches(&cmds[i], self.palette_query.as_str()) {
                out.push(cmds[i].action);
            }
            i += 1;
        }
        proof {
            assert(palette_table().take(cmds.len() as int) =~= palette_table());
        }
        out
    }

    /// Close the palette unless a command moved to another screen.
    fn exit_palette(&mut self)
        ensures
            final(self)@ == palette_exited(old(self)@),
    {
        if self.mode == Mode::CommandPalette {
            self.mode = Mode::Search;
        }
    }

    /// Keep the palette highlight within the shown entries.
    fn set_palette_query(&mut self, q: String)
        ensures
            final(self)@ == palette_refiltered(old(self)@, q@),
    {
        self.palette_query = q;
        let n = self.shown_palette_actions().len();
        self.palette_selected = if n == 0 {
            None
        } else {
            match self.palette_selected {
                Some(s) => if s < n {
                    Some(s)
                } else {
                    Some(n - 1)
                },
                None => Some(0),
            }
        };
    }

    /// Move the palette highlight by `delta`.
    fn move_palette(&mut self, delta: isize)
        ensures
            final(self)@ == (AppView {
                palette_selected: palette_moved(old(self)@.palette_selected, palette_shown(old(self)@.palette_query).len(), delta as int),
                ..old(self)@
            }),
    {
        let n = self.shown_palette_actions().len();
        if n == 0 {
            self.palette_selected = None;
        } else {
            let cur: i128 = match self.palette_selected {
                Some(i) => i as i128,
                None => 0,
            };
            let want = cur + delta as i128;
            let next: usize = if want < 0 {
                0
            } else if want > (n - 1) as i128 {
                n - 1
            } else {
                want as usize
            };
            self.palette_selected = Some(next);
        }
    }

    /// Create a playlist, marking the state for saving.
    fn vault_create_playlist(&mut self, name: &str)
        ensures
            final(self)@ == with_vault(
                old(self)@,
                vault_with_state(
                    old(self)@.vault,
                    with_playlists(
                        old(self)@.vault.state,
                        if playlist_index(old(self)@.vault.state.playlists, name@) is None {
                            old(self)@.vault.state.playlists.push(PlaylistView { name: name@, paths: seq![] })
                        } else {
                            old(self)@.vault.state.playlists
                        },
                    ),
                ),
            ),
    {
        self.vault.create_playlist(name);
        self.dirty = true;
    }

    /// Add a path to a playlist, marking the state for saving.
    fn vault_add_to_playlist(&mut self, name: &str, path: &str)
        ensures
            final(self)@ == with_vault(
                old(self)@,
                vault_with_state(
                    old(self)@.vault,
                    with_playlists(old(self)@.vault.state, added_to(old(self)@.vault.state.playlists, name@, path@)),
                ),
            ),
    {
        self.vault.add_to_playlist(name, path);
        self.dirty = true;
    }

    fn special_new_playlist<F: Fn(&State, u64, &SearchResult) -> RankInput + Copy>(&mut self, now: u64, rank: F)
        requires
            old(self)@.wf(),
            ranks_all(rank),
        ensures
            final(self)@.wf(),
            special_step(old(self)@, SpecialCmd::NewPlaylist, final(self)@, now, rank),
    {
        let name = playlist_name_for(self.vault.playlists().len());
        self.vault_create_playlist(name.as_str());
        let msg = framed("created playlist '", name.as_str(), "'");
        self.set_status(msg);
        self.set_active_playlist(Some(name), now, rank);
    }

    fn special_add_to_playlist<F: Fn(&State, u64, &SearchResult) -> RankInput + Copy>(&mut self, now: u64, rank: F)
        requires
            old(self)@.wf(),
            ranks_all(rank),
        ensures
            final(self)@.wf(),
            special_step(old(self)@, SpecialCmd::AddToPlaylist, final(self)@, now, rank),
    {
        match self.selected_result() {
            None => {
                self.say("no result selected");
                proof {
                    reveal_strlit("no result selected");
                }
            },
            Some(sel) => {
                let path = sel.entry.path.clone();
                let pls = self.vault.playlists();
                let count = pls.len();
                if count == 0 {
                    self.vault_create_playlist("default");
                    proof {
                        reveal_strlit("default");
                        assert(self@.vault.state.playlists =~= seq![
                            PlaylistView { name: "default"@, paths: seq![] },
                        ]);
                    }
                    self.vault_add_to_playlist("default", path.as_str());
                    self.say("created 'default' and added");
                    proof {
                        reveal_strlit("created 'default' and added");
                    }
                } else if count == 1 {
                    let name = pls[0].name.clone();
                    self.vault_add_to_playlist(name.as_str(), path.as_str());
                    let msg = framed("added to '", name.as_str(), "'");
                    self.set_status(msg);
                } else {
                    self.exit_palette();
                    self.enter_playlist_picker();
                }
            },
        }
    }

    fn special_activate_playlist<F: Fn(&State, u64, &SearchResult) -> RankInput + Copy>(&mut self, now: u64, rank: F)
        requires
            old(self)@.wf(),
            ranks_all(rank),
        ensures
            final(self)@.wf(),
            special_step(old(self)@, SpecialCmd::ActivatePlaylist, final(self)@, now, rank),
    {
        let pls = self.vault.playlists();
        if pls.len() > 0 {
            let name = pls[0].name.clone();
            let msg = framed("filtering to '", name.as_str(), "'");
            self.set_status(msg);
            self.set_active_playlist(Some(name), now, rank);
        } else {
            self.say("no playlists yet (use 'new playlist')");
            proof {
                reveal_strlit("no playlists yet (use 'new playlist')");
            }
        }
    }

    fn special_delete_playlist<F: Fn(&State, u64, &SearchResult) -> RankInput + Copy>(&mut self, now: u64, rank: F)
        requires
            old(self)@.wf(),
            ranks_all(rank),
        ensures
            final(self)@.wf(),
            special_step(old(self)@, SpecialCmd::DeletePlaylist, final(self)@, now, rank),
    {
        let pls = self.vault.playlists();
        if pls.len() > 0 {
            let name = pls[0].name.clone();
            self.vault.delete_playlist(name.as_str());
            self.dirty = true;
            let msg = framed("deleted playlist '", name.as_str(), "'");
            self.set_status(msg);
            let is_active = match &self.active_playlist {
                Some(a) => crate::text::str_eq(a.as_str(), name.as_str()),
                None => false,
            };
            if is_active {
                self.set_active_playlist(None, now, rank);
            }
        } else {
            self.say("no playlists to delete");
            proof {
                reveal_strlit("no playlists to delete");
            }
        }
    }

    fn special_clear_playlist_filter<F: Fn(&State, u64, &SearchResult) -> RankInput + Copy>(&mut self, now: u64, rank: F)
        requires
            old(self)@.wf(),
            ranks_all(rank),
        ensures
            final(self)@.wf(),
            special_step(old(self)@, SpecialCmd::ClearPlaylistFilter, final(self)@, now, rank),
    {
        self.say("cleared playlist filter");
        proof {
            reveal_strlit("cleared playlist filter");
        }
        self.set_active_playlist(None, now, rank);
    }

    fn special_show_last_output<F: Fn(&State, u64, &SearchResult) -> RankInput + Copy>(&mut self, now: u64, rank: F)
        requires
            old(self)@.wf(),
            ranks_all(rank),
        ensures
            final(self)@.wf(),
            special_step(old(self)@, SpecialCmd::ShowLastOutput, final(self)@, now, rank),
    {
        match self.selected_result() {
            None => {
                self.say("no result selected");
                proof {
                    reveal_strlit("no result selected");
                }
            },
            Some(sel) => {
                let msg = match self.last_output_for(sel.entry.path.as_str()) {
                    Some(out) => Some(framed("last out: ", out, "")),
                    None => None,
                };
                match msg {
                    Some(m) => {
                        proof {
                            assert(m@ =~= "last out: "@ + last_output_of(
                                self@.vault.state,
                                self@.selected_result()->0.entry.path@,
                            )->0) by {
                                reveal_strlit("");
                            }
                        }
                        self.set_status(m);
                    },
                    None => {
                        self.say("no captured output for this script");
                        proof {
                            reveal_strlit("no captured output for this script");
                        }
                    },
                }
            },
        }
    }

    fn special_run_capture<F: Fn(&State, u64, &SearchResult) -> RankInput + Copy>(&mut self, now: u64, rank: F)
        requires
            old(self)@.wf(),
            ranks_all(rank),
        ensures
            final(self)@.wf(),
            special_step(old(self)@, SpecialCmd::RunCapture, final(self)@, now, rank),
    {
        match self.selected_result() {
            None => {
                self.say("no result selected");
                proof {
                    reveal_strlit("no result selected");
                }
            },
            Some(sel) => {
                let path = sel.entry.path.clone();
                self.task = Some(Task::Capture(path));
            },
        }
    }

    fn special_run_live<F: Fn(&State, u64, &SearchResult) -> RankInput + Copy>(&mut self, now: u64, rank: F)
        requires
            old(self)@.wf(),
            ranks_all(rank),
        ensures
            final(self)@.wf(),
            special_step(old(self)@, SpecialCmd::RunLive, final(self)@, now, rank),
    {
        match self.selected_result() {
            None => {
                self.say("no result selected");
                proof {
                    reveal_strlit("no result selected");
                }
            },
            Some(sel) => {
                let path = sel.entry.path.clone();
                self.output.clear();
                self.output.show = true;
                self.output.pending_live_run = Some(path);
                self.say("starting live run (streaming to output pane)...");
                proof {
                    reveal_strlit("starting live run (streaming to output pane)...");
                }
            },
        }
    }

    fn special_toggle_output<F: Fn(&State, u64, &SearchResult) -> RankInput + Copy>(&mut self, now: u64, rank: F)
        requires
            old(self)@.wf(),
            ranks_all(rank),
        ensures
            final(self)@.wf(),
            special_step(old(self)@, SpecialCmd::ToggleOutput, final(self)@, now, rank),
    {
        self.toggle_output_pane();
        if self.output.show {
            self.say("output pane on");
        } else {
            self.say("output pane off");
        }
        proof {
            reveal_strlit("output pane on");
            reveal_strlit("output pane off");
        }
    }

    /// Run a palette command that is neither an action nor a view switch
    /// (see [`special_step`]).
    fn dispatch_special<F: Fn(&State, u64, &SearchResult) -> RankInput + Copy>(
        &mut self,
        cmd: SpecialCmd,
        now: u64,
        rank: F,
    )
        requires
            old(self)@.wf(),
            ranks_all(rank),
        ensures
            final(self)@.wf(),
            special_step(old(self)@, cmd, final(self)@, now, rank),
    {
        match cmd {
            SpecialCmd::Reload => {
                self.task = Some(Task::Reload(ReloadReason::Requested));
            },
            SpecialCmd::NewPlaylist => self.special_new_playlist(now, rank),
            SpecialCmd::AddToPlaylist => self.special_add_to_playlist(now, rank),
            SpecialCmd::ActivatePlaylist => self.special_activate_playlist(now, rank),
            SpecialCmd::DeletePlaylist => self.special_delete_playlist(now, rank),
            SpecialCmd::ClearPlaylistFilter => self.special_clear_playlist_filter(now, rank),
            SpecialCmd::ShowLastOutput => self.special_show_last_output(now, rank),
            SpecialCmd::SaveSearch => {
                self.exit_palette();
                self.enter_save_search();
            },
            SpecialCmd::LoadSavedSearch => {
                self.exit_palette();
                self.enter_saved_search_picker();
            },
            SpecialCmd::RunCapture => self.special_run_capture(now, rank),
            SpecialCmd::RunLive => self.special_run_live(now, rank),
            SpecialCmd::ToggleOutput => self.special_toggle_output(now, rank),
            SpecialCmd::EditMetadata => {
                self.exit_palette();
                self.begin_edit_metadata();
            },
            SpecialCmd::ClearQuery => {
                self.replace_query(String::new(), now, rank);
            },
            SpecialCmd::Help => {
                self.mode = Mode::Help;
            },
            SpecialCmd::Quit => {
                self.say("use Esc to quit");
                proof {
                    reveal_strlit("use Esc to quit");
                }
            },
        }
    }

    /// Run a palette entry (see [`dispatch_step`]).
    fn dispatch_palette<F: Fn(&State, u64, &SearchResult) -> RankInput + Copy>(
        &mut self,
        a: PaletteAction,
        now: u64,
        rank: F,
    ) -> (out: Outcome)
        requires
            old(self)@.wf(),
            ranks_all(rank),
        ensures
            final(self)@.wf(),
            dispatch_step(old(self)@, a, final(self)@, out, now, rank),
    {
        match a {
            PaletteAction::Act(kind) => {
                if self.selected_result().is_some() {
                    self.exit_palette();
                    Outcome::Act(kind)
                } else {
                    self.say("no result selected");
                    proof {
                        reveal_strlit("no result selected");
                    }
                    Outcome::Continue
                }
            },
            PaletteAction::SetView(m) => {
                self.set_view(m, now, rank);
                let ghost mid = self@;
                self.exit_palette();
                proof {
                    assert(reviewed(old(self)@, m, mid, now, rank));
                }
                Outcome::Continue
            },
            PaletteAction::Special(cmd) => {
                self.dispatch_special(cmd, now, rank);
                let ghost mid = self@;
                self.exit_palette();
                proof {
                    assert(special_step(old(self)@, cmd, mid, now, rank));
                }
                Outcome::Continue
            },
        }
    }

    /// One key in the command palette (see [`palette_step`]).
    fn handle_palette_key<F: Fn(&State, u64, &SearchResult) -> RankInput + Copy>(
        &mut self,
        key: Key,
        now: u64,
        rank: F,
    ) -> (out: Outcome)
        requires
            old(self)@.wf(),
            ranks_all(rank),
        ensures
            final(self)@.wf(),
            palette_step(old(self)@, key, final(self)@, out, now, rank),
    {
        let c = key.code;
        if c == KeyCode::Char('c') && key.ctrl {
            Outcome::Quit
        } else if c == KeyCode::Esc {
            self.exit_palette();
            Outcome::Continue
        } else if c == KeyCode::Enter {
            let shown = self.shown_palette_actions();
            let choice = match self.palette_selected {
                Some(i) => if i < shown.len() {
                    Some(shown[i])
                } else {
                    None
                },
                None => None,
            };
            match choice {
                Some(a) => self.dispatch_palette(a, now, rank),
                None => {
                    self.exit_palette();
                    Outcome::Continue
                },
            }
        } else if c == KeyCode::Up || (c == KeyCode::Char('k') && !key.ctrl) {
            self.move_palette(-1);
            Outcome::Continue
        } else if c == KeyCode::Down || (c == KeyCode::Char('j') && !key.ctrl) {
            self.move_palette(1);
            Outcome::Continue
        } else if c == KeyCode::Backspace && !key.ctrl {
            let q = without_last(self.palette_query.as_str());
            self.set_palette_query(q);
            Outcome::Continue
        } else {
            if let KeyCode::Char(ch) = c {
                if !key.ctrl {
                    let q = with_char(self.palette_query.as_str(), ch);
                    self.set_palette_query(q);
                }
            }
            Outcome::Continue
        }
    }
}


// ---------------------------------------------------------------------------
// The metadata editor, the playlist picker and the saved-search modals
// ---------------------------------------------------------------------------

/// An edit field's text when not blank, trimmed.
pub open spec fn nonblank(s: Seq<char>) -> Option<Seq<char>> {
    if trim(s).len() == 0 {
        None
    } else {
        Some(trim(s))
    }
}

/// The pieces, trimmed, blank ones dropped.
pub open spec fn nonblank_pieces(parts: Seq<Seq<char>>) -> Seq<Seq<char>>
    decreases parts.len(),
{
    if parts.len() == 0 {
        seq![]
    } else {
        let rest = nonblank_pieces(parts.drop_last());
        if trim(parts.last()).len() == 0 {
            rest
        } else {
            rest.push(trim(parts.last()))
        }
    }
}

/// What a metadata edit stores: each text field trimmed and left out when
/// blank, and the comma-separated tags trimmed with blank ones dropped.
pub open spec fn sidecar_fields_of(e: EditState, f: SidecarFields) -> bool {
    &&& opt_view(f.name) == nonblank(e.name@)
    &&& opt_view(f.desc) == nonblank(e.desc@)
    &&& opt_view(f.usage) == nonblank(e.usage@)
    &&& opt_view(f.category) == nonblank(e.category@)
    &&& crate::text::strs_view(f.tags@) == nonblank_pieces(crate::text::split_on(e.tags@, ','))
}

/// Build the sidecar fields of an edit (see [`sidecar_fields_of`]).
pub fn build_sidecar_fields(e: &EditState) -> (f: SidecarFields)
    ensures
        sidecar_fields_of(*e, f),
{
    let pieces = crate::text::split_char(&chars_of(e.tags.as_str()), ',');
    let mut tags: Vec<String> = Vec::new();
    let mut i: usize = 0;
    while i < pieces.len()
        invariant
            i <= pieces.len(),
            vecs_view(pieces@) == crate::text::split_on(e.tags@, ','),
            crate::text::strs_view(tags@) == nonblank_pieces(vecs_view(pieces@).take(i as int)),
        decreases pieces.len() - i,
    {
        proof {
            assert(vecs_view(pieces@).take(i + 1).drop_last() =~= vecs_view(pieces@).take(i as int));
            assert(vecs_view(pieces@).take(i + 1).last() == pieces@[i as int]@);
        }
        let t = crate::text::trim_str(string_of(&pieces[i]).as_str());
        if t.len() > 0 {
            let ghost before = tags@;
            tags.push(string_of(&t));
            proof {
                assert(crate::text::strs_view(tags@) =~= crate::text::strs_view(before).push(t@));
            }
        }
        i += 1;
    }
    proof {
        assert(vecs_view(pieces@).take(pieces.len() as int) =~= vecs_view(pieces@));
    }
    SidecarFields {
        name: nonblank_string(e.name.as_str()),
        desc: nonblank_string(e.desc.as_str()),
        usage: nonblank_string(e.usage.as_str()),
        category: nonblank_string(e.category.as_str()),
        tags,
    }
}

fn nonblank_string(s: &str) -> (r: Option<String>)
    ensures
        opt_view(r) == nonblank(s@),
{
    let t = crate::text::trim_str(s);
    if t.len() == 0 {
        None
    } else {
        Some(string_of(&t))
    }
}

/// Edit field `k` of `e` (0 = name, 1 = desc, 2 = tags, 3 = usage,
/// 4 = category, 5 = note).
pub open spec fn edit_field(e: EditState, k: int) -> Seq<char> {
    if k == 0 {
        e.name@
    } else if k == 1 {
        e.desc@
    } else if k == 2 {
        e.tags@
    } else if k == 3 {
        e.usage@
    } else if k == 4 {
        e.category@
    } else {
        e.note@
    }
}

/// `f` is `o` with edit field `k` set to `text`.
pub open spec fn edit_field_set(o: EditState, f: EditState, k: int, text: Seq<char>) -> bool {
    &&& f.path == o.path
    &&& f.focus == o.focus
    &&& f.playlist_picker_selected == o.playlist_picker_selected
    &&& forall|j: int| 0 <= j < 6 ==> #[trigger] edit_field(f, j) == if j == k {
        text
    } else {
        edit_field(o, j)
    }
}

/// The editor closed without saving.
pub open spec fn edit_cancelled(o: AppView) -> AppView {
    AppView { edit: EditState { path: None, ..o.edit }, mode: Mode::Search, ..o }
}

/// The sidecar file of a script path.
pub open spec fn sidecar_of(path: Seq<char>) -> Seq<char> {
    path + crate::sidecar::SIDECAR_SUFFIX@
}

/// Enter in the editor: nothing without a script; a script path with no
/// file name cannot have a sidecar (said, and the editor closes); otherwise
/// the sidecar write is asked for, the editor still open.
pub open spec fn edit_save_asked(o: AppView, f: AppView) -> bool {
    match o.edit.path {
        None => f == o,
        Some(p) => if crate::path::file_name_of(p@) is None {
            f == edit_cancelled(with_status(o, "save error: cannot derive sidecar name for "@ + p@))
        } else {
            &&& f == AppView { task: f.task, ..o }
            &&& (f.task matches Some(Task::WriteSidecar { sidecar, fields }) && sidecar@ == sidecar_of(p@)
                && sidecar_fields_of(o.edit, fields))
        },
    }
}

/// One key in the metadata editor: Esc cancels, Enter saves (see
/// [`edit_save_asked`]), Tab and BackTab cycle the focus over the six fields,
/// plain characters and Backspace edit the focused field. Every other key is
/// inert.
pub open spec fn edit_step(o: AppView, key: Key, f: AppView) -> bool {
    let c = key.code;
    let k = o.edit.focus as int;
    if c == KeyCode::Esc {
        f == edit_cancelled(o)
    } else if c == KeyCode::Enter {
        edit_save_asked(o, f)
    } else if c == KeyCode::Tab && !key.ctrl {
        f == AppView { edit: EditState { focus: ((o.edit.focus + 1) % 6) as usize, ..o.edit }, ..o }
    } else if c == KeyCode::BackTab && !key.ctrl {
        f == AppView {
            edit: EditState {
                focus: if o.edit.focus == 0 {
                    5
                } else {
                    (o.edit.focus - 1) as usize
                },
                ..o.edit
            },
            ..o
        }
    } else if c is Char && !key.ctrl && k < 6 {
        f == AppView { edit: f.edit, ..o } && edit_field_set(o.edit, f.edit, k, edit_field(o.edit, k).push(c->0))
    } else if c == KeyCode::Backspace && !key.ctrl && k < 6 {
        f == AppView { edit: f.edit, ..o } && edit_field_set(
            o.edit,
            f.edit,
            k,
            if edit_field(o.edit, k).len() == 0 {
                edit_field(o.edit, k)
            } else {
                edit_field(o.edit, k).drop_last()
            },
        )
    } else {
        f == o
    }
}

/// The playlist picker closed, its highlight cleared.
pub open spec fn picker_closed(o: AppView) -> AppView {
    AppView { mode: Mode::Search, edit: EditState { playlist_picker_selected: None, ..o.edit }, ..o }
}

/// One key in the playlist picker: with no playlists it just closes; ^C
/// closes; Esc, `c` and `q` close and clear the highlight; Enter adds the
/// selection to the highlighted playlist, then closes; up/k and down/j move
/// the highlight round the list. Every other key is inert.
pub open spec fn picker_step(o: AppView, key: Key, f: AppView) -> bool {
    let c = key.code;
    let pls = o.vault.state.playlists;
    let n = pls.len();
    let sel = o.edit.playlist_picker_selected;
    if n == 0 {
        f == with_mode(o, Mode::Search)
    } else if c == KeyCode::Char('c') && key.ctrl {
        f == with_mode(o, Mode::Search)
    } else if c == KeyCode::Esc || ((c == KeyCode::Char('c') || c == KeyCode::Char('q')) && !key.ctrl) {
        f == picker_closed(o)
    } else if c == KeyCode::Enter {
        match (o.selected_result(), sel) {
            (Some(r), Some(idx)) => if idx < n {
                f == picker_closed(
                    with_status(
                        with_vault(
                            o,
                            vault_with_state(
                                o.vault,
                                with_playlists(o.vault.state, added_to(pls, pls[idx as int].name, r@.entry.path)),
                            ),
                        ),
                        "added to '"@ + pls[idx as int].name + "'"@,
                    ),
                )
            } else {
                f == picker_closed(o)
            },
            _ => f == picker_closed(o),
        }
    } else if c == KeyCode::Up || (c == KeyCode::Char('k') && !key.ctrl) {
        f == AppView {
            edit: EditState {
                playlist_picker_selected: match sel {
                    Some(i) => Some(
                        if i == 0 {
                            (n - 1) as usize
                        } else {
                            (i - 1) as usize
                        },
                    ),
                    None => None,
                },
                ..o.edit
            },
            ..o
        }
    } else if c == KeyCode::Down || (c == KeyCode::Char('j') && !key.ctrl) {
        f == AppView {
            edit: EditState {
                playlist_picker_selected: match sel {
                    Some(i) => Some(
                        if i + 1 >= n {
                            0
                        } else {
                            (i + 1) as usize
                        },
                    ),
                    None => None,
                },
                ..o.edit
            },
            ..o
        }
    } else {
        f == o
    }
}

/// The save-search modal closed, its buffers emptied.
pub open spec fn save_cancelled(o: AppView, f: AppView) -> bool {
    &&& f == AppView { save_search: f.save_search, mode: Mode::Search, ..o }
    &&& f.save_search.name@.len() == 0
    &&& f.save_search.query@.len() == 0
    &&& f.save_search.selected == o.save_search.selected
}

/// `f` is `o` with the save-search name set to `name`.
pub open spec fn save_name_set(o: AppView, f: AppView, name: Seq<char>) -> bool {
    &&& f == AppView { save_search: f.save_search, ..o }
    &&& f.save_search.name@ == name
    &&& f.save_search.query == o.save_search.query
    &&& f.save_search.selected == o.save_search.selected
}

/// One key in the save-search modal: ^C or Esc cancel; Enter saves the
/// captured query under the trimmed name (refused when blank) and closes;
/// Backspace and plain characters edit the name. Every other key is inert.
pub open spec fn save_step(o: AppView, key: Key, f: AppView) -> bool {
    let c = key.code;
    let name = trim(o.save_search.name@);
    if (c == KeyCode::Char('c') && key.ctrl) || c == KeyCode::Esc {
        save_cancelled(o, f)
    } else if c == KeyCode::Enter {
        if name.len() == 0 {
            f == with_status(o, "name cannot be empty (Esc to cancel)"@)
        } else {
            save_cancelled(
                with_status(
                    with_vault(
                        o,
                        vault_with_state(
                            o.vault,
                            crate::vault::with_searches(
                                o.vault.state,
                                crate::vault::saved(o.vault.state.saved_searches, name, o.save_search.query@),
                            ),
                        ),
                    ),
                    "saved search as '"@ + name + "'"@,
                ),
                f,
            )
        }
    } else if c == KeyCode::Backspace && !key.ctrl {
        save_name_set(
            o,
            f,
            if o.save_search.name@.len() == 0 {
                o.save_search.name@
            } else {
                o.save_search.name@.drop_last()
            },
        )
    } else if c is Char && !key.ctrl {
        save_name_set(o, f, o.save_search.name@.push(c->0))
    } else {
        f == o
    }
}

/// The saved-search picker closed, its highlight cleared.
pub open spec fn saved_picker_closed(o: AppView) -> AppView {
    AppView { mode: Mode::Search, save_search: SaveSearchState { selected: None, ..o.save_search }, ..o }
}

/// The saved search `name` loaded: its query `q` typed into the search box
/// and refiltered, then the picker closed with a note of it.
pub open spec fn saved_loaded<F: Fn(&State, u64, &SearchResult) -> RankInput>(
    o: AppView,
    q: Seq<char>,
    name: Seq<char>,
    f: AppView,
    now: u64,
    rank: F,
) -> bool {
    let mid = AppView { status: o.status, mode: o.mode, save_search: o.save_search, ..f };
    requeried(o, q, mid, now, rank) && f == saved_picker_closed(with_status(mid, "loaded '"@ + name + "'"@))
}

/// One key in the saved-search picker: with none saved it just closes; Esc,
/// `c` and `q` close; up/k and down/j move the highlight round the list;
/// Enter loads the highlighted query into the search box (refiltering), then
/// closes; `d` deletes the highlighted search, closing when none is left and
/// otherwise keeping the highlight on the list. Every other key is inert.
pub open spec fn saved_picker_step<F: Fn(&State, u64, &SearchResult) -> RankInput>(
    o: AppView,
    key: Key,
    f: AppView,
    now: u64,
    rank: F,
) -> bool {
    let c = key.code;
    let ss = o.vault.state.saved_searches;
    let n = ss.len();
    let sel = o.save_search.selected;
    if n == 0 {
        f == saved_picker_closed(o)
    } else if c == KeyCode::Esc || ((c == KeyCode::Char('c') || c == KeyCode::Char('q')) && !key.ctrl) {
        f == saved_picker_closed(o)
    } else if c == KeyCode::Up || (c == KeyCode::Char('k') && !key.ctrl) {
        f == AppView {
            save_search: SaveSearchState {
                selected: match sel {
                    Some(i) => Some(
                        if i == 0 {
                            (n - 1) as usize
                        } else {
                            (i - 1) as usize
                        },
                    ),
                    None => None,
                },
                ..o.save_search
            },
            ..o
        }
    } else if c == KeyCode::Down || (c == KeyCode::Char('j') && !key.ctrl) {
        f == AppView {
            save_search: SaveSearchState {
                selected: match sel {
                    Some(i) => Some(
                        if i + 1 >= n {
                            0
                        } else {
                            (i + 1) as usize
                        },
                    ),
                    None => None,
                },
                ..o.save_search
            },
            ..o
        }
    } else if c == KeyCode::Enter {
        match sel {
            Some(i) => match pair_lookup(ss, ss[i as int].0) {
                Some(q) => saved_loaded(o, q, ss[i as int].0, f, now, rank),
                None => f == saved_picker_closed(o),
            },
            None => f == saved_picker_closed(o),
        }
    } else if c == KeyCode::Char('d') && !key.ctrl {
        match sel {
            Some(i) => {
                let name = ss[i as int].0;
                let left = crate::vault::unsaved(ss, name);
                let mid = with_status(
                    with_vault(o, vault_with_state(o.vault, crate::vault::with_searches(o.vault.state, left))),
                    "deleted '"@ + name + "'"@,
                );
                if left.len() == 0 {
                    f == saved_picker_closed(mid)
                } else {
                    f == AppView {
                        save_search: SaveSearchState {
                            selected: Some(
                                if i < left.len() {
                                    i
                                } else {
                                    (left.len() - 1) as usize
                                },
                            ),
                            ..mid.save_search
                        },
                        ..mid
                    }
                }
            },
            None => f == o,
        }
    } else {
        f == o
    }
}

impl App {
    /// Open the metadata editor on the selection (see [`edit_begun`]).
    pub fn begin_edit_metadata(&mut self)
        ensures
            edit_begun(old(self)@, final(self)@),
    {
        match self.selected_result() {
            None => {
                self.say("no result selected");
                proof {
                    reveal_strlit("no result selected");
                }
            },
            Some(sel) => {
                let e = &sel.entry;
                let path = e.path.clone();
                let name = e.display_name().to_string();
                let desc = match &e.meta.desc {
                    Some(d) => d.clone(),
                    None => String::new(),
                };
                let tags = string_of(&crate::text::join_strings(&e.meta.tags, ", "));
                let usage = match &e.meta.usage {
                    Some(d) => d.clone(),
                    None => String::new(),
                };
                let category = match &e.meta.category {
                    Some(d) => d.clone(),
                    None => String::new(),
                };
                let note = match self.vault.note_for(path.as_str()) {
                    Some(n) => n.to_string(),
                    None => String::new(),
                };
                self.edit.path = Some(path);
                self.edit.name = name;
                self.edit.desc = desc;
                self.edit.tags = tags;
                self.edit.usage = usage;
                self.edit.category = category;
                self.edit.note = note;
                self.edit.focus = 0;
                self.mode = Mode::EditMetadata;
            },
        }
    }

    /// Close the metadata editor without saving.
    pub fn cancel_edit_metadata(&mut self)
        ensures
            final(self)@ == edit_cancelled(old(self)@),
    {
        self.edit.path = None;
        self.mode = Mode::Search;
    }

    /// Ask for the edit to be written (see [`edit_save_asked`]).
    pub fn save_edit_metadata(&mut self)
        ensures
            edit_save_asked(old(self)@, final(self)@),
    {
        match &self.edit.path {
            None => {},
            Some(p) => {
                let pv = chars_of(p.as_str());
                if crate::path::file_name(&pv).is_none() {
                    let msg = framed("save error: cannot derive sidecar name for ", p.as_str(), "");
                    proof {
                        reveal_strlit("");
                        assert(msg@ =~= "save error: cannot derive sidecar name for "@ + p@);
                    }
                    self.set_status(msg);
                    self.cancel_edit_metadata();
                } else {
                    let sidecar = crate::sidecar::sidecar_path(p.as_str());
                    let fields = build_sidecar_fields(&self.edit);
                    self.task = Some(Task::WriteSidecar { sidecar, fields });
                }
            },
        }
    }

    fn edit_field_mut_push(&mut self, c: char)
        requires
            old(self).edit.focus < 6,
        ensures
            final(self)@ == (AppView { edit: final(self)@.edit, ..old(self)@ }),
            edit_field_set(
                old(self)@.edit,
                final(self)@.edit,
                old(self)@.edit.focus as int,
                edit_field(old(self)@.edit, old(self)@.edit.focus as int).push(c),
            ),
    {
        let k = self.edit.focus;
        if k == 0 {
            self.edit.name.push(c);
        } else if k == 1 {
            self.edit.desc.push(c);
        } else if k == 2 {
            self.edit.tags.push(c);
        } else if k == 3 {
            self.edit.usage.push(c);
        } else if k == 4 {
            self.edit.category.push(c);
        } else {
            self.edit.note.push(c);
        }
    }

    fn edit_field_pop(&mut self)
        requires
            old(self).edit.focus < 6,
        ensures
            final(self)@ == (AppView { edit: final(self)@.edit, ..old(self)@ }),
            edit_field_set(
                old(self)@.edit,
                final(self)@.edit,
                old(self)@.edit.focus as int,
                if edit_field(old(self)@.edit, old(self)@.edit.focus as int).len() == 0 {
                    edit_field(old(self)@.edit, old(self)@.edit.focus as int)
                } else {
                    edit_field(old(self)@.edit, old(self)@.edit.focus as int).drop_last()
                },
            ),
    {
        let k = self.edit.focus;
        if k == 0 {
            self.edit.name = without_last(self.edit.name.as_str());
        } else if k == 1 {
            self.edit.desc = without_last(self.edit.desc.as_str());
        } else if k == 2 {
            self.edit.tags = without_last(self.edit.tags.as_str());
        } else if k == 3 {
            self.edit.usage = without_last(self.edit.usage.as_str());
        } else if k == 4 {
            self.edit.category = without_last(self.edit.category.as_str());
        } else {
            self.edit.note = without_last(self.edit.note.as_str());
        }
    }

    /// One key in the metadata editor (see [`edit_step`]).
    fn handle_edit_key(&mut self, key: Key)
        requires
            old(self)@.wf(),
        ensures
            final(self)@.wf(),
            edit_step(old(self)@, key, final(self)@),
    {
        let c = key.code;
        if c == KeyCode::Esc {
            self.cancel_edit_metadata();
        } else if c == KeyCode::Enter {
            self.save_edit_metadata();
        } else if c == KeyCode::Tab && !key.ctrl {
            let f0 = self.edit.focus;
            self.edit.focus = (f0 % 6 + 1) % 6;
            proof {
                assert((f0 % 6 + 1) % 6 == (f0 + 1) % 6) by (nonlinear_arith);
            }
        } else if c == KeyCode::BackTab && !key.ctrl {
            self.edit.focus = if self.edit.focus == 0 {
                5
            } else {
                self.edit.focus - 1
            };
        } else if c == KeyCode::Backspace && !key.ctrl {
            if self.edit.focus < 6 {
                self.edit_field_pop();
            }
        } else {
            if let KeyCode::Char(ch) = c {
                if !key.ctrl && self.edit.focus < 6 {
                    self.edit_field_mut_push(ch);
                }
            }
        }
    }

    /// Open the playlist picker on the selection (see [`picker_entered`]).
    pub fn enter_playlist_picker(&mut self)
        ensures
            final(self)@ == picker_entered(old(self)@),
    {
        if self.selected_result().is_none() {
            self.say("no result selected");
            proof {
                reveal_strlit("no result selected");
            }
        } else if self.vault.playlists().len() == 0 {
            self.say("no playlists; use 'new playlist' first");
            proof {
                reveal_strlit("no playlists; use 'new playlist' first");
            }
        } else {
            self.edit.playlist_picker_selected = Some(0);
            self.mode = Mode::PlaylistPicker;
        }
    }

    /// One key in the playlist picker (see [`picker_step`]).
    fn handle_playlist_picker_key(&mut self, key: Key)
        requires
            old(self)@.wf(),
        ensures
            final(self)@.wf(),
            picker_step(old(self)@, key, final(self)@),
    {
        let c = key.code;
        let pls = self.vault.playlists();
        let n = pls.len();
        if n == 0 {
            self.mode = Mode::Search;
        } else if c == KeyCode::Char('c') && key.ctrl {
            self.mode = Mode::Search;
        } else if c == KeyCode::Esc || ((c == KeyCode::Char('c') || c == KeyCode::Char('q')) && !key.ctrl) {
            self.mode = Mode::Search;
            self.edit.playlist_picker_selected = None;
        } else if c == KeyCode::Enter {
            let target = match (self.selected_result(), self.edit.playlist_picker_selected) {
                (Some(sel), Some(idx)) => if idx < n {
                    Some((pls[idx].name.clone(), sel.entry.path.clone()))
                } else {
                    None
                },
                _ => None,
            };
            match target {
                Some((name, path)) => {
                    self.vault_add_to_playlist(name.as_str(), path.as_str());
                    let msg = framed("added to '", name.as_str(), "'");
                    self.set_status(msg);
                },
                None => {},
            }
            self.mode = Mode::Search;
            self.edit.playlist_picker_selected = None;
        } else if c == KeyCode::Up || (c == KeyCode::Char('k') && !key.ctrl) {
            match self.edit.playlist_picker_selected {
                Some(i) => {
                    self.edit.playlist_picker_selected = Some(if i == 0 { n - 1 } else { i - 1 });
                },
                None => {},
            }
        } else if c == KeyCode::Down || (c == KeyCode::Char('j') && !key.ctrl) {
            match self.edit.playlist_picker_selected {
                Some(i) => {
                    self.edit.playlist_picker_selected = Some(if i >= n - 1 { 0 } else { i + 1 });
                },
                None => {},
            }
        }
    }

    /// Open the save-search modal (see [`save_entered`]).
    pub fn enter_save_search(&mut self)
        ensures
            save_entered(old(self)@, final(self)@),
    {
        let q = crate::text::trim_str(self.query.as_str());
        if q.len() == 0 {
            self.say("no query to save");
            proof {
                reveal_strlit("no query to save");
            }
        } else {
            self.save_search.query = string_of(&q);
            self.save_search.name = String::new();
            self.mode = Mode::SaveSearchName;
        }
    }

    fn cancel_save_search(&mut self)
        ensures
            save_cancelled(old(self)@, final(self)@),
    {
        self.save_search.name = String::new();
        self.save_search.query = String::new();
        self.mode = Mode::Search;
    }

    /// One key in the save-search modal (see [`save_step`]).
    fn handle_save_search_key(&mut self, key: Key)
        requires
            old(self)@.wf(),
        ensures
            final(self)@.wf(),
            save_step(old(self)@, key, final(self)@),
    {
        let c = key.code;
        if (c == KeyCode::Char('c') && key.ctrl) || c == KeyCode::Esc {
            self.cancel_save_search();
        } else if c == KeyCode::Enter {
            let name = string_of(&crate::text::trim_str(self.save_search.name.as_str()));
            if name.as_str().is_empty() {
                self.say("name cannot be empty (Esc to cancel)");
                proof {
                    reveal_strlit("name cannot be empty (Esc to cancel)");
                }
            } else {
                let query = self.save_search.query.clone();
                let ghost ss = self@.vault.state.saved_searches;
                self.vault.save_search(name.as_str(), query.as_str());
                proof {
                    crate::state::lemma_first_eq_bounds(ss.map_values(|p: (Seq<char>, Seq<char>)| p.0), name@);
                    assert(crate::vault::saved(ss, name@, query@).len() >= ss.len());
                }
                self.dirty = true;
                let msg = framed("saved search as '", name.as_str(), "'");
                self.set_status(msg);
                self.cancel_save_search();
            }
        } else if c == KeyCode::Backspace && !key.ctrl {
            self.save_search.name = without_last(self.save_search.name.as_str());
        } else {
            if let KeyCode::Char(ch) = c {
                if !key.ctrl {
                    self.save_search.name = with_char(self.save_search.name.as_str(), ch);
                }
            }
        }
    }

    /// Open the saved-search picker (see [`saved_picker_entered`]).
    pub fn enter_saved_search_picker(&mut self)
        ensures
            final(self)@ == saved_picker_entered(old(self)@),
    {
        if self.vault.list_saved_searches().len() == 0 {
            self.say("no saved searches");
            proof {
                reveal_strlit("no saved searches");
            }
        } else {
            self.save_search.selected = Some(0);
            self.mode = Mode::SavedSearchPicker;
        }
    }

    /// The saved searches as (name, query) pairs, in insertion order.
    pub fn saved_searches(&self) -> (r: Vec<(String, String)>)
        ensures
            r@.len() == self@.vault.state.saved_searches.len(),
            forall|k: int|
                0 <= k < r@.len() ==> (#[trigger] r@[k]).0@ == self@.vault.state.saved_searches[k].0 && r@[k].1@
                    == or_empty(pair_lookup(self@.vault.state.saved_searches, self@.vault.state.saved_searches[k].0)),
    {
        let names = self.vault.list_saved_searches();
        let mut out: Vec<(String, String)> = Vec::new();
        let mut i: usize = 0;
        while i < names.len()
            invariant
                i <= names.len(),
                names@.len() == self@.vault.state.saved_searches.len(),
                forall|k: int| 0 <= k < names@.len() ==> #[trigger] names@[k]@ == self@.vault.state.saved_searches[k].0,
                out@.len() == i,
                forall|k: int|
                    0 <= k < i ==> (#[trigger] out@[k]).0@ == self@.vault.state.saved_searches[k].0 && out@[k].1@
                        == or_empty(pair_lookup(self@.vault.state.saved_searches, self@.vault.state.saved_searches[k].0)),
            decreases names.len() - i,
        {
            let q = match self.vault.get_saved_search(names[i]) {
                Some(q) => q.to_string(),
                None => String::new(),
            };
            out.push((names[i].to_string(), q));
            i += 1;
        }
        out
    }

    /// The names of the saved searches, owned.
    fn saved_names(&self) -> (r: Vec<String>)
        ensures
            r@.len() == self@.vault.state.saved_searches.len(),
            forall|k: int| 0 <= k < r@.len() ==> #[trigger] r@[k]@ == self@.vault.state.saved_searches[k].0,
    {
        let ns = self.vault.list_saved_searches();
        let mut v: Vec<String> = Vec::new();
        let mut i: usize = 0;
        while i < ns.len()
            invariant
                i <= ns.len(),
                ns@.len() == self@.vault.state.saved_searches.len(),
                forall|k: int| 0 <= k < ns@.len() ==> #[trigger] ns@[k]@ == self@.vault.state.saved_searches[k].0,
                v@.len() == i,
                forall|k: int| 0 <= k < i ==> #[trigger] v@[k]@ == self@.vault.state.saved_searches[k].0,
            decreases ns.len() - i,
        {
            v.push(ns[i].to_string());
            i += 1;
        }
        v
    }

    fn close_saved_search_picker(&mut self)
        ensures
            final(self)@ == saved_picker_closed(old(self)@),
    {
        self.save_search.selected = None;
        self.mode = Mode::Search;
    }

    /// Enter in the saved-search picker: load the highlighted query.
    fn saved_picker_load<F: Fn(&State, u64, &SearchResult) -> RankInput + Copy>(
        &mut self,
        names: &Vec<String>,
        now: u64,
        rank: F,
    )
        requires
            ranks_all(rank),
            names@.len() == old(self)@.vault.state.saved_searches.len(),
            forall|k: int| 0 <= k < names@.len() ==> #[trigger] names@[k]@ == old(self)@.vault.state.saved_searches[k].0,
            old(self)@.save_search.selected matches Some(i) ==> i < old(self)@.vault.state.saved_searches.len(),
        ensures
            old(self)@.save_search.selected is None ==> final(self)@ == saved_picker_closed(old(self)@),
            old(self)@.save_search.selected matches Some(i) ==> (pair_lookup(
                old(self)@.vault.state.saved_searches,
                old(self)@.vault.state.saved_searches[i as int].0,
            ) is None ==> final(self)@ == saved_picker_closed(old(self)@)),
            old(self)@.save_search.selected matches Some(i) ==> (pair_lookup(
                old(self)@.vault.state.saved_searches,
                old(self)@.vault.state.saved_searches[i as int].0,
            ) matches Some(q) ==> saved_loaded(old(self)@, q, old(self)@.vault.state.saved_searches[i as int].0, final(self)@, now, rank)),
    {
        match self.save_search.selected {
            Some(i) => {
                let q = match self.vault.get_saved_search(names[i].as_str()) {
                    Some(q) => Some(q.to_string()),
                    None => None,
                };
                match q {
                    Some(q) => {
                        let ghost qv = q@;
                        self.replace_query(q, now, rank);
                        let ghost mid = self@;
                        let msg = framed("loaded '", names[i].as_str(), "'");
                        self.set_status(msg);
                        self.close_saved_search_picker();
                        proof {
                            let ss = old(self)@.vault.state.saved_searches;
                            assert(names@[i as int]@ == ss[i as int].0);
                            assert(pair_lookup(ss, ss[i as int].0) == Some(qv));
                            assert(requeried(old(self)@, qv, mid, now, rank));
                            assert(self@ == saved_picker_closed(with_status(mid, "loaded '"@ + ss[i as int].0 + "'"@)));
                            assert(mid == (AppView { status: old(self)@.status, mode: old(self)@.mode, save_search: old(self)@.save_search, ..self@ }));
                        }
                    },
                    None => {
                        proof {
                            let ss = old(self)@.vault.state.saved_searches;
                            assert(names@[i as int]@ == ss[i as int].0);
                        }
                        self.close_saved_search_picker();
                    },
                }
            },
            None => {
                self.close_saved_search_picker();
            },
        }
    }

    /// `d` in the saved-search picker: delete the highlighted search.
    fn saved_picker_delete(&mut self, names: &Vec<String>)
        requires
            names@.len() == old(self)@.vault.state.saved_searches.len(),
            forall|k: int| 0 <= k < names@.len() ==> #[trigger] names@[k]@ == old(self)@.vault.state.saved_searches[k].0,
            old(self)@.save_search.selected matches Some(i) ==> i < old(self)@.vault.state.saved_searches.len(),
        ensures
            ({
                let o = old(self)@;
                let f = final(self)@;
                let ss = o.vault.state.saved_searches;
                match o.save_search.selected {
                    Some(i) => {
                        let name = ss[i as int].0;
                        let left = crate::vault::unsaved(ss, name);
                        let mid = with_status(
                            with_vault(o, vault_with_state(o.vault, crate::vault::with_searches(o.vault.state, left))),
                            "deleted '"@ + name + "'"@,
                        );
                        if left.len() == 0 {
                            f == saved_picker_closed(mid)
                        } else {
                            f == AppView {
                                save_search: SaveSearchState {
                                    selected: Some(
                                        if i < left.len() {
                                            i
                                        } else {
                                            (left.len() - 1) as usize
                                        },
                                    ),
                                    ..mid.save_search
                                },
                                ..mid
                            }
                        }
                    },
                    None => f == o,
                }
            }),
    {
        match self.save_search.selected {
            Some(i) => {
                self.vault.delete_saved_search(names[i].as_str());
                self.dirty = true;
                let msg = framed("deleted '", names[i].as_str(), "'");
                self.set_status(msg);
                let remaining = self.vault.list_saved_searches().len();
                if remaining == 0 {
                    self.close_saved_search_picker();
                } else {
                    self.save_search.selected = Some(if i < remaining { i } else { remaining - 1 });
                }
            },
            None => {},
        }
    }

    /// One key in the saved-search picker (see [`saved_picker_step`]).
    fn handle_saved_search_picker_key<F: Fn(&State, u64, &SearchResult) -> RankInput + Copy>(
        &mut self,
        key: Key,
        now: u64,
        rank: F,
    )
        requires
            old(self)@.wf(),
            ranks_all(rank),
        ensures
            final(self)@.wf(),
            saved_picker_step(old(self)@, key, final(self)@, now, rank),
    {
        let c = key.code;
        let names = self.saved_names();
        let n = names.len();
        if n == 0 {
            self.close_saved_search_picker();
        } else if c == KeyCode::Esc || ((c == KeyCode::Char('c') || c == KeyCode::Char('q')) && !key.ctrl) {
            self.close_saved_search_picker();
        } else if c == KeyCode::Up || (c == KeyCode::Char('k') && !key.ctrl) {
            match self.save_search.selected {
                Some(i) => {
                    self.save_search.selected = Some(if i == 0 { n - 1 } else { i - 1 });
                },
                None => {},
            }
        } else if c == KeyCode::Down || (c == KeyCode::Char('j') && !key.ctrl) {
            match self.save_search.selected {
                Some(i) => {
                    self.save_search.selected = Some(if i >= n - 1 { 0 } else { i + 1 });
                },
                None => {},
            }
        } else if c == KeyCode::Enter {
            self.saved_picker_load(&names, now, rank);
        } else if c == KeyCode::Char('d') && !key.ctrl {
            self.saved_picker_delete(&names);
        }
    }
}


// ---------------------------------------------------------------------------
// The key router
// ---------------------------------------------------------------------------

/// One key, from any screen: ^C quits from everywhere, leaving the state as
/// it was; otherwise the key goes to the current screen's handler.
pub open spec fn key_step<F: Fn(&State, u64, &SearchResult) -> RankInput>(
    o: AppView,
    key: Key,
    f: AppView,
    out: Outcome,
    now: u64,
    rank: F,
) -> bool {
    if key.ctrl && key.code == KeyCode::Char('c') {
        out == Outcome::Quit && f == o
    } else {
        match o.mode {
            Mode::Search => search_step(o, key, f, out, now, rank),
            Mode::Help => help_step(o, key, f, out),
            Mode::CommandPalette => palette_step(o, key, f, out, now, rank),
            Mode::EditMetadata => out == Outcome::Continue && edit_step(o, key, f),
            Mode::PlaylistPicker => out == Outcome::Continue && picker_step(o, key, f),
            Mode::ActionMenu => menu_step(o, key, f, out),
            Mode::ConfirmDelete => confirm_step(o, key, f, out),
            Mode::SaveSearchName => out == Outcome::Continue && save_step(o, key, f),
            Mode::SavedSearchPicker => out == Outcome::Continue && saved_picker_step(o, key, f, now, rank),
        }
    }
}

impl App {
    /// Handle one key press (see [`key_step`]); `now` and `rank` serve any
    /// refilter it causes. The invariant holds after every key.
    pub fn handle_key<F: Fn(&State, u64, &SearchResult) -> RankInput + Copy>(&mut self, key: Key, now: u64, rank: F) -> (out: Outcome)
        requires
            old(self)@.wf(),
            ranks_all(rank),
        ensures
            final(self)@.wf(),
            key_step(old(self)@, key, final(self)@, out, now, rank),
    {
        if key.ctrl && key.code == KeyCode::Char('c') {
            return Outcome::Quit;
        }
        match self.mode {
            Mode::Search => self.handle_search_key(key, now, rank),
            Mode::Help => self.handle_help_key(key),
            Mode::CommandPalette => self.handle_palette_key(key, now, rank),
            Mode::EditMetadata => {
                self.handle_edit_key(key);
                Outcome::Continue
            },
            Mode::PlaylistPicker => {
                self.handle_playlist_picker_key(key);
                Outcome::Continue
            },
            Mode::ActionMenu => self.handle_action_menu_key(key),
            Mode::ConfirmDelete => self.handle_confirm_delete_key(key),
            Mode::SaveSearchName => {
                self.handle_save_search_key(key);
                Outcome::Continue
            },
            Mode::SavedSearchPicker => {
                self.handle_saved_search_picker_key(key, now, rank);
                Outcome::Continue
            },
        }
    }
}


// ---------------------------------------------------------------------------
// Finishing outside work, runs and favorites
// ---------------------------------------------------------------------------

/// The file name of a script's sidecar (the whole sidecar path when the
/// script path has no file name).
pub open spec fn sidecar_name_of(path: Seq<char>) -> Seq<char> {
    match crate::path::file_name_of(path) {
        Some(n) => n + crate::sidecar::SIDECAR_SUFFIX@,
        None => sidecar_of(path),
    }
}

/// The rebuilt index (if the rescan worked) installed, the results
/// refiltered, and the outcome said: `reloaded` or the error for a requested
/// reload; that the metadata was saved after an edit, whatever the rescan
/// gave.
pub open spec fn reload_finished<F: Fn(&State, u64, &SearchResult) -> RankInput>(
    o: AppView,
    reason: ReloadReason,
    rebuilt: Result<crate::index::Index, String>,
    f: AppView,
    now: u64,
    rank: F,
) -> bool {
    let entries = match rebuilt {
        Ok(idx) => idx@,
        Err(_) => o.vault.entries,
    };
    let v = AppView { vault: VaultView { entries: entries, ..o.vault }, ..o };
    match (reason, rebuilt) {
        (ReloadReason::Requested, Err(e)) => f == with_status(o, "reload error: "@ + e@),
        (ReloadReason::Requested, Ok(_)) => {
            let mid = with_status(v, "reloaded"@);
            refiltered(mid, f.results, now, rank) && f == with_results(mid, f.results)
        },
        (ReloadReason::MetadataSaved(name), _) => {
            let mid = with_status(v, "saved metadata to "@ + name@);
            refiltered(mid, f.results, now, rank) && f == with_results(mid, f.results)
        },
    }
}

/// After the sidecar write: when written, the note is stored with the
/// edit, the editor closes and a rescan is asked for; otherwise the failure
/// is said and the editor closes. Nothing happens with no script in edit.
pub open spec fn sidecar_finished(o: AppView, written: bool, f: AppView) -> bool {
    match o.edit.path {
        None => f == o,
        Some(p) => if written {
            &&& f == AppView {
                vault: vault_with_state(
                    o.vault,
                    crate::vault::with_notes(o.vault.state, crate::vault::noted(o.vault.state.notes, p@, o.edit.note@)),
                ),
                dirty: true,
                edit: EditState { path: None, ..o.edit },
                mode: Mode::Search,
                task: f.task,
                ..o
            }
            &&& (f.task matches Some(Task::Reload(ReloadReason::MetadataSaved(n))) && n@ == sidecar_name_of(p@))
        } else {
            f == edit_cancelled(with_status(o, "save error: failed to write sidecar "@ + sidecar_of(p@)))
        },
    }
}

/// The snippet of a capture kept for the status line and history: the
/// combined output flattened to one line and cut to 200 characters, or
/// `(no output)`.
pub open spec fn capture_snippet(stdout: Seq<char>, stderr: Seq<char>) -> Seq<char> {
    let s = status_truncated(join(words(combined_text(stdout, stderr)), " "@), 200);
    if s.len() == 0 {
        "(no output)"@
    } else {
        s
    }
}

/// The status after a capture.
pub open spec fn capture_status(stdout: Seq<char>, stderr: Seq<char>, exit_code: Option<i32>, timed_out: bool) -> Seq<char> {
    let snippet = capture_snippet(stdout, stderr);
    if timed_out {
        "capture timed out: "@ + snippet
    } else if exit_code == Some(0i32) {
        "captured: "@ + snippet
    } else {
        "capture failed (exit "@ + match exit_code {
            Some(c) => crate::text::dec_int(c as int),
            None => "unknown"@,
        } + "): "@ + snippet
    }
}

/// The lines of `text`, tagged `stream`.
pub open spec fn tagged_as(ls: Seq<OutputLine>, text: Seq<char>, stream: OutputStream) -> bool {
    &&& ls.len() == lines(text).len()
    &&& forall|k: int| 0 <= k < ls.len() ==> (#[trigger] ls[k]).stream == stream && ls[k].text@ == lines(text)[k]
}

/// The recents after recording a run, when it can be counted.
pub open spec fn recorded_if(
    st: crate::state::StateView,
    path: Seq<char>,
    exit: Option<i32>,
    output: Option<Seq<char>>,
    now: u64,
) -> crate::state::StateView {
    if can_count(st.recents, path) {
        crate::vault::with_recents(st, recorded(st.recents, path, exit, output, now))
    } else {
        st
    }
}

/// After a capture of `path`: the output pane shown with the stdout lines
/// then the stderr lines (the newest kept), pinned to the tail; the run
/// recorded with its exit code and snippet (no snippet for blank output);
/// the results refiltered; the outcome said (see [`capture_status`]).
pub open spec fn capture_finished<F: Fn(&State, u64, &SearchResult) -> RankInput>(
    o: AppView,
    path: Seq<char>,
    stdout: Seq<char>,
    stderr: Seq<char>,
    exit_code: Option<i32>,
    timed_out: bool,
    f: AppView,
    now: u64,
    rank: F,
) -> bool {
    let stored = if trim(combined_text(stdout, stderr)).len() == 0 {
        None
    } else {
        Some(capture_snippet(stdout, stderr))
    };
    let mid = AppView {
        vault: vault_with_state(o.vault, recorded_if(o.vault.state, path, exit_code, stored, now)),
        dirty: true,
        output: f.output,
        status: capture_status(stdout, stderr, exit_code, timed_out),
        ..o
    };
    &&& refiltered(mid, f.results, now, rank)
    &&& f == with_results(mid, f.results)
    &&& f.output == OutputState { show: true, scroll: 0, lines: f.output.lines, ..o.output }
    &&& exists|outs: Seq<OutputLine>, errs: Seq<OutputLine>|
        tagged_as(outs, stdout, OutputStream::Stdout) && tagged_as(errs, stderr, OutputStream::Stderr)
            && f.output.lines@ == kept_tail(outs + errs)
}

/// Pushing onto a kept tail keeps the tail of the whole.
pub proof fn lemma_kept_tail_push<A>(s: Seq<A>, x: A)
    ensures
        kept_tail(kept_tail(s).push(x)) == kept_tail(s.push(x)),
{
    assert(kept_tail(kept_tail(s).push(x)) =~= kept_tail(s.push(x)));
}

/// The age text of a recency summary.
pub open spec fn age_text(age: u64) -> Seq<char> {
    if age < 60 {
        crate::text::dec(age as nat) + "s ago"@
    } else if age < 3600 {
        crate::text::dec((age / 60) as nat) + "m ago"@
    } else if age < 86400 {
        crate::text::dec((age / 3600) as nat) + "h ago"@
    } else {
        crate::text::dec((age / 86400) as nat) + "d ago"@
    }
}

/// A recency summary: `5m ago (12×) ✓`, the age since the last run, the run
/// count, and ` ✓` or ` ✗<code>` for a reported exit code.
pub open spec fn recency_of(r: crate::state::RecentView, now: u64) -> Seq<char> {
    age_text(crate::state::sat_sub(now, r.last_run)) + " ("@ + crate::text::dec(r.count as nat) + "×)"@ + match r.last_exit {
        Some(c) => if c == 0 {
            " ✓"@
        } else {
            " ✗"@ + crate::text::dec_int(c as int)
        },
        None => ""@,
    }
}

/// Where a click lands in the results list: the row under it, when it is
/// inside the list's column and rows (borders excluded) and on a result.
pub open spec fn clicked_row(rect: ListRect, column: u16, row: u16, n: nat) -> Option<usize> {
    let top = rect.y + 1;
    let bottom = rect.y + if rect.height == 0 {
        0
    } else {
        rect.height - 1
    };
    let right = rect.x + if rect.width == 0 {
        0
    } else {
        rect.width - 1
    };
    if column >= rect.x && column < right && row >= top && row < bottom && row - top < n {
        Some((row - top) as usize)
    } else {
        None
    }
}

impl App {
    /// Install a rebuilt index (or report the failed rescan) and refilter
    /// (see [`reload_finished`]).
    pub fn finish_reload<F: Fn(&State, u64, &SearchResult) -> RankInput + Copy>(
        &mut self,
        reason: ReloadReason,
        rebuilt: Result<crate::index::Index, String>,
        now: u64,
        rank: F,
    )
        requires
            old(self)@.wf(),
            ranks_all(rank),
        ensures
            final(self)@.wf(),
            reload_finished(old(self)@, reason, rebuilt, final(self)@, now, rank),
    {
        let ghost r0 = rebuilt;
        match reason {
            ReloadReason::Requested => match rebuilt {
                Ok(idx) => {
                    self.vault.reload_with(idx);
                    self.say("reloaded");
                    proof {
                        reveal_strlit("reloaded");
                    }
                    self.refilter(now, rank);
                },
                Err(e) => {
                    let msg = framed("reload error: ", e.as_str(), "");
                    proof {
                        reveal_strlit("");
                        assert(msg@ =~= "reload error: "@ + e@);
                    }
                    self.set_status(msg);
                },
            },
            ReloadReason::MetadataSaved(name) => {
                match rebuilt {
                    Ok(idx) => {
                        self.vault.reload_with(idx);
                    },
                    Err(_) => {},
                }
                let msg = framed("saved metadata to ", name.as_str(), "");
                proof {
                    reveal_strlit("");
                    assert(msg@ =~= "saved metadata to "@ + name@);
                }
                self.set_status(msg);
                self.refilter(now, rank);
            },
        }
    }

    /// Record whether the sidecar was written (see [`sidecar_finished`]).
    pub fn finish_sidecar_write(&mut self, written: bool)
        requires
            old(self)@.wf(),
        ensures
            final(self)@.wf(),
            sidecar_finished(old(self)@, written, final(self)@),
    {
        match &self.edit.path {
            None => {},
            Some(p) => {
                let path = p.clone();
                if written {
                    let note = self.edit.note.clone();
                    self.vault.set_note(path.as_str(), note.as_str());
                    self.dirty = true;
                    let name = match crate::path::file_name(&chars_of(path.as_str())) {
                        Some(n) => framed("", string_of(&n).as_str(), crate::sidecar::SIDECAR_SUFFIX),
                        None => crate::sidecar::sidecar_path(path.as_str()),
                    };
                    proof {
                        reveal_strlit("");
                    }
                    self.edit.path = None;
                    self.mode = Mode::Search;
                    self.task = Some(Task::Reload(ReloadReason::MetadataSaved(name)));
                } else {
                    let side = crate::sidecar::sidecar_path(path.as_str());
                    let msg = framed("save error: failed to write sidecar ", side.as_str(), "");
                    proof {
                        reveal_strlit("");
                        assert(msg@ =~= "save error: failed to write sidecar "@ + sidecar_of(path@));
                    }
                    self.set_status(msg);
                    self.cancel_edit_metadata();
                }
            },
        }
    }

    /// Say that a capture could not be run.
    pub fn capture_failed(&mut self, error: &str)
        ensures
            final(self)@ == with_status(old(self)@, "capture error: "@ + error@),
    {
        let msg = framed("capture error: ", error, "");
        proof {
            reveal_strlit("");
            assert(msg@ =~= "capture error: "@ + error@);
        }
        self.set_status(msg);
    }

    /// Append the lines of `text` to the output pane, tagged `stream`.
    fn push_text_lines(&mut self, text: &str, stream: OutputStream)
        requires
            old(self)@.output.lines.len() <= crate::tui::OUTPUT_BUFFER_LINES,
        ensures
            final(self)@ == (AppView { output: final(self)@.output, ..old(self)@ }),
            final(self)@.output == (OutputState { lines: final(self)@.output.lines, ..old(self)@.output }),
            final(self)@.output.lines.len() <= crate::tui::OUTPUT_BUFFER_LINES,
            exists|added: Seq<OutputLine>|
                tagged_as(added, text@, stream) && final(self)@.output.lines@ == kept_tail(old(self)@.output.lines@ + added),
    {
        let ls = lines_of(&chars_of(text));
        let ghost mut added: Seq<OutputLine> = seq![];
        let ghost start = self.output.lines@;
        proof {
            assert(start + added =~= start);
        }
        let mut i: usize = 0;
        while i < ls.len()
            invariant
                i <= ls.len(),
                vecs_view(ls@) == lines(text@),
                added.len() == i,
                forall|k: int| 0 <= k < i ==> (#[trigger] added[k]).stream == stream && added[k].text@ == lines(text@)[k],
                self@ == (AppView { output: self@.output, ..old(self)@ }),
                self@.output == (OutputState { lines: self@.output.lines, ..old(self)@.output }),
                start == old(self)@.output.lines@,
                start.len() <= crate::tui::OUTPUT_BUFFER_LINES,
                self.output.lines@ == kept_tail(start + added),
                self.output.lines.len() <= crate::tui::OUTPUT_BUFFER_LINES,
            decreases ls.len() - i,
        {
            let line = OutputLine { stream, text: string_of(&ls[i]) };
            proof {
                assert(ls@[i as int]@ == lines(text@)[i as int]);
                lemma_kept_tail_push(start + added, line);
                assert((start + added).push(line) =~= start + added.push(line));
            }
            self.output.push_tagged(stream, line.text);
            proof {
                added = added.push(line);
            }
            i += 1;
        }
        proof {
            assert(tagged_as(added, text@, stream));
        }
    }

    /// Record a finished capture of `path` (see [`capture_finished`]).
    pub fn finish_capture<F: Fn(&State, u64, &SearchResult) -> RankInput + Copy>(
        &mut self,
        path: &str,
        stdout: &str,
        stderr: &str,
        exit_code: Option<i32>,
        timed_out: bool,
        now: u64,
        rank: F,
    )
        requires
            old(self)@.wf(),
            ranks_all(rank),
        ensures
            final(self)@.wf(),
            capture_finished(old(self)@, path@, stdout@, stderr@, exit_code, timed_out, final(self)@, now, rank),
    {
        let combined = combined_capture_text(stdout, stderr);
        let flat = flatten_for_status(combined.as_str());
        let cut = truncate_for_status(flat.as_str(), 200);
        let snippet = if cut.as_str().is_empty() {
            "(no output)".to_string()
        } else {
            cut
        };
        proof {
            reveal_strlit("(no output)");
        }
        self.output.show = true;
        self.output.clear();
        let ghost o1 = self@;
        self.push_text_lines(stdout, OutputStream::Stdout);
        let ghost o2 = self@;
        self.push_text_lines(stderr, OutputStream::Stderr);
        proof {
            assert(o1.output.lines@ =~= Seq::<OutputLine>::empty());
            let outs = choose|a: Seq<OutputLine>|
                tagged_as(a, stdout@, OutputStream::Stdout) && o2.output.lines@ == kept_tail(o1.output.lines@ + a);
            assert(o1.output.lines@ + outs =~= Seq::<OutputLine>::empty() + outs);
            let errs = choose|a: Seq<OutputLine>|
                tagged_as(a, stderr@, OutputStream::Stderr) && self@.output.lines@ == kept_tail(o2.output.lines@ + a);
            lemma_kept_tail_concat(outs, errs);
        }
        let blank = crate::text::trim_str(combined.as_str()).len() == 0;
        let stored = if blank {
            None
        } else {
            Some(snippet.clone())
        };
        if self.vault.can_record(path) {
            self.vault.record_run_at(path, exit_code, stored, now);
        }
        self.dirty = true;
        let msg = if timed_out {
            framed("capture timed out: ", snippet.as_str(), "")
        } else if exit_code == Some(0i32) {
            framed("captured: ", snippet.as_str(), "")
        } else {
            let mut v = chars_of("capture failed (exit ");
            match exit_code {
                Some(c) => crate::text::push_dec_i32(&mut v, c),
                None => crate::text::append_lit(&mut v, "unknown"),
            }
            crate::text::append_lit(&mut v, "): ");
            let sv = chars_of(snippet.as_str());
            crate::text::append(&mut v, &sv);
            string_of(&v)
        };
        proof {
            reveal_strlit("");
            assert(msg@ =~= capture_status(stdout@, stderr@, exit_code, timed_out));
        }
        self.set_status(msg);
        self.refilter(now, rank);
    }

    /// Toggle the favorite status of `path`; returns the new status.
    pub fn toggle_favorite(&mut self, path: &str) -> (now_fav: bool)
        requires
            old(self)@.wf(),
        ensures
            final(self)@.wf(),
            now_fav == !old(self)@.vault.state.favorites.contains(path@),
            final(self)@ == with_vault(
                old(self)@,
                vault_with_state(
                    old(self)@.vault,
                    crate::vault::with_favorites(
                        old(self)@.vault.state,
                        crate::vault::toggled(old(self)@.vault.state.favorites, path@),
                    ),
                ),
            ),
    {
        let r = self.vault.toggle_favorite(path);
        self.dirty = true;
        r
    }

    /// Whether `path` is favorited.
    pub fn is_favorite(&self, path: &str) -> (r: bool)
        ensures
            r == self@.vault.state.favorites.contains(path@),
    {
        self.vault.is_favorite(path)
    }

    /// Record a run of `path` at `now` with its exit code and output (a run
    /// whose count cannot grow is left unrecorded).
    pub fn record_run_with_status(&mut self, path: &str, exit: Option<i32>, output: Option<String>, now: u64)
        requires
            old(self)@.wf(),
        ensures
            final(self)@.wf(),
            final(self)@ == with_vault(
                old(self)@,
                vault_with_state(old(self)@.vault, recorded_if(old(self)@.vault.state, path@, exit, opt_view(output), now)),
            ),
    {
        if self.vault.can_record(path) {
            self.vault.record_run_at(path, exit, output, now);
        }
        self.dirty = true;
    }

    /// The recency summary of `path` at `now`, if it was ever run (see
    /// [`recency_of`]).
    pub fn recency_summary(&self, path: &str, now: u64) -> (r: Option<String>)
        ensures
            opt_view(r) == match recent_index(self@.vault.state.recents, path@) {
                Some(i) => Some(recency_of(self@.vault.state.recents[i], now)),
                None => None,
            },
    {
        let st = self.vault.state();
        match st.recent_position_of(path) {
            None => None,
            Some(i) => {
                let r = &st.recents[i];
                let age = if now >= r.last_run {
                    now - r.last_run
                } else {
                    0
                };
                let mut v: Vec<char> = Vec::new();
                if age < 60 {
                    crate::text::push_dec(&mut v, age);
                    crate::text::append_lit(&mut v, "s ago");
                } else if age < 3600 {
                    crate::text::push_dec(&mut v, age / 60);
                    crate::text::append_lit(&mut v, "m ago");
                } else if age < 86400 {
                    crate::text::push_dec(&mut v, age / 3600);
                    crate::text::append_lit(&mut v, "h ago");
                } else {
                    crate::text::push_dec(&mut v, age / 86400);
                    crate::text::append_lit(&mut v, "d ago");
                }
                crate::text::append_lit(&mut v, " (");
                crate::text::push_dec(&mut v, r.count);
                crate::text::append_lit(&mut v, "×)");
                match r.last_exit {
                    Some(c) => {
                        if c == 0 {
                            crate::text::append_lit(&mut v, " ✓");
                        } else {
                            crate::text::append_lit(&mut v, " ✗");
                            crate::text::push_dec_i32(&mut v, c);
                        }
                    },
                    None => {},
                }
                proof {
                    reveal_strlit("");
                    assert(v@ =~= recency_of(self@.vault.state.recents[i as int], now));
                }
                Some(string_of(&v))
            },
        }
    }

    /// The editor to open scripts with: the configured one, else the
    /// environment's, else `nano`.
    pub fn editor_command(&self, env_editor: Option<String>) -> (r: String)
        ensures
            r@ == match self@.vault.config.editor {
                Some(e) => e,
                None => match opt_view(env_editor) {
                    Some(e) => e,
                    None => "nano"@,
                },
            },
    {
        match &self.vault.config().editor {
            Some(e) => e.clone(),
            None => match env_editor {
                Some(e) => e,
                None => "nano".to_string(),
            },
        }
    }

    /// Remember where the results list was drawn.
    pub fn set_list_rect(&mut self, rect: ListRect)
        ensures
            final(self)@ == (AppView { list_rect: Some(rect), ..old(self)@ }),
    {
        self.list_rect = Some(rect);
    }

    /// A mouse event: a left press on a result row selects it (see
    /// [`clicked_row`]); anything else does nothing.
    pub fn handle_mouse(&mut self, left_press: bool, column: u16, row: u16)
        requires
            old(self)@.wf(),
        ensures
            final(self)@.wf(),
            final(self)@ == (AppView {
                selected: match old(self)@.list_rect {
                    Some(rect) => if left_press {
                        match clicked_row(rect, column, row, old(self)@.results.len()) {
                            Some(i) => Some(i),
                            None => old(self)@.selected,
                        }
                    } else {
                        old(self)@.selected
                    },
                    None => old(self)@.selected,
                },
                ..old(self)@
            }),
    {
        if left_press {
            if let Some(rect) = self.list_rect {
                let top: u32 = rect.y as u32 + 1;
                let bottom: u32 = rect.y as u32 + if rect.height == 0 {
                    0
                } else {
                    rect.height as u32 - 1
                };
                let right: u32 = rect.x as u32 + if rect.width == 0 {
                    0
                } else {
                    rect.width as u32 - 1
                };
                let col = column as u32;
                let r = row as u32;
                if col >= rect.x as u32 && col < right && r >= top && r < bottom {
                    let idx = (r - top) as usize;
                    if idx < self.results.len() {
                        self.selected = Some(idx);
                    }
                }
            }
        }
    }

    /// The output pane's lines.
    pub fn output_lines(&self) -> (r: &[OutputLine])
        ensures
            r@ == self@.output.lines@,
    {
        self.output.lines.as_slice()
    }

    /// The output pane's text, lines joined by newlines (stream tags
    /// dropped).
    pub fn output_text(&self) -> (r: String)
        ensures
            r@ == join(self@.output.lines@.map_values(|l: OutputLine| l.text@), "\n"@),
    {
        let mut parts: Vec<String> = Vec::new();
        let mut i: usize = 0;
        while i < self.output.lines.len()
            invariant
                i <= self.output.lines.len(),
                crate::text::strs_view(parts@) == self.output.lines@.take(i as int).map_values(|l: OutputLine| l.text@),
            decreases self.output.lines.len() - i,
        {
            let ghost before = parts@;
            parts.push(self.output.lines[i].text.clone());
            proof {
                assert(crate::text::strs_view(parts@) =~= crate::text::strs_view(before).push(self.output.lines@[i as int].text@));
                assert(self.output.lines@.take(i + 1).map_values(|l: OutputLine| l.text@) =~= self.output.lines@.take(
                    i as int,
                ).map_values(|l: OutputLine| l.text@).push(self.output.lines@[i as int].text@));
            }
            i += 1;
        }
        proof {
            assert(self.output.lines@.take(self.output.lines.len() as int) =~= self.output.lines@);
        }
        string_of(&crate::text::join_strings(&parts, "\n"))
    }

    /// How far the output pane is scrolled up from the tail.
    pub fn output_scroll(&self) -> (r: usize)
        ensures
            r == self@.output.scroll,
    {
        self.output.scroll
    }

    /// Scroll the output pane (positive = toward older output), clamped.
    pub fn scroll_output(&mut self, delta: isize)
        ensures
            final(self)@ == with_scroll(old(self)@, delta as int),
    {
        self.output.scroll_output(delta);
    }

    /// Apply one live-run event to the output pane; the end of the run is
    /// handed back.
    pub fn apply_run_event(&mut self, event: RunEvent) -> (done: Option<RunCompletion>)
        ensures
            final(self)@ == (AppView { output: final(self)@.output, ..old(self)@ }),
            final(self)@.output == (OutputState { lines: final(self)@.output.lines, ..old(self)@.output }),
            match event {
                RunEvent::Stdout(l) => done is None && final(self)@.output.lines@ == kept_tail(
                    old(self)@.output.lines@.push(OutputLine { stream: OutputStream::Stdout, text: l }),
                ),
                RunEvent::Stderr(l) => done is None && final(self)@.output.lines@ == kept_tail(
                    old(self)@.output.lines@.push(OutputLine { stream: OutputStream::Stderr, text: l }),
                ),
                RunEvent::Done(c) => done == Some(c) && final(self)@.output.lines@ == old(self)@.output.lines@,
            },
    {
        self.output.apply_run_event(event)
    }

    /// Empty the output pane and pin it to the tail.
    pub fn clear_live_output(&mut self)
        ensures
            final(self)@ == (AppView { output: final(self)@.output, ..old(self)@ }),
            final(self)@.output == (OutputState { lines: final(self)@.output.lines, scroll: 0, ..old(self)@.output }),
            final(self)@.output.lines.len() == 0,
    {
        self.output.clear();
    }

    /// Take a pending live-run request: the path to start when no run is
    /// active; when one is, the request is dropped and that is said.
    pub fn take_live_run_request(&mut self, live_active: bool) -> (r: Option<String>)
        ensures
            r == (if live_active {
                None
            } else {
                old(self)@.output.pending_live_run
            }),
            ({
                let cleared = AppView {
                    output: OutputState { pending_live_run: None, ..old(self)@.output },
                    ..old(self)@
                };
                final(self)@ == if live_active && old(self)@.output.pending_live_run is Some {
                    with_status(cleared, "a live run is already active — wait for it to finish (^L to watch)"@)
                } else {
                    cleared
                }
            }),
    {
        let had = self.output.pending_live_run.is_some();
        let r = self.output.pending_live_run.take();
        if live_active {
            if had {
                self.say("a live run is already active — wait for it to finish (^L to watch)");
                proof {
                    reveal_strlit("a live run is already active — wait for it to finish (^L to watch)");
                }
            }
            None
        } else {
            r
        }
    }

    /// Record the path of the live run just started (or clear it); a path
    /// marks the job as running.
    pub fn set_live_run_path(&mut self, path: Option<String>)
        ensures
            final(self)@ == (AppView { output: final(self)@.output, ..old(self)@ }),
            final(self)@.output == (OutputState { live_run_path: path, job: final(self)@.output.job, ..old(self)@.output }),
            match path {
                Some(p) => final(self)@.output.job matches JobStatus::Running { name } && name@ == run_name_of(p@),
                None => final(self)@.output.job == old(self)@.output.job,
            },
    {
        self.output.set_live_run_path(path);
    }

    /// Mark the last live run finished (ok exactly for exit code 0).
    pub fn finish_job(&mut self, path: &str, exit: Option<i32>)
        ensures
            final(self)@ == (AppView { output: final(self)@.output, ..old(self)@ }),
            final(self)@.output.job matches JobStatus::Finished { name, ok } && name@ == run_name_of(path@)
                && ok == (exit == Some(0i32)),
            final(self)@.output == (OutputState { job: final(self)@.output.job, ..old(self)@.output }),
    {
        self.output.finish_job(path, exit);
    }

    /// Take the live run's path, so the run is recorded once.
    pub fn take_live_run_path(&mut self) -> (r: Option<String>)
        ensures
            r == old(self)@.output.live_run_path,
            final(self)@ == (AppView { output: OutputState { live_run_path: None, ..old(self)@.output }, ..old(self)@ }),
    {
        self.output.live_run_path.take()
    }

    /// Whether a live run is streaming.
    pub fn live_active(&self) -> (r: bool)
        ensures
            r == self@.output.live_run_path is Some,
    {
        self.output.live_active()
    }

    /// The footer's job status.
    pub fn job_status(&self) -> (r: &JobStatus)
        ensures
            *r == self@.output.job,
    {
        &self.output.job
    }

    /// The playlists.
    pub fn playlists(&self) -> (r: &[crate::state::Playlist])
        ensures
            crate::state::playlists_view(r@) == self@.vault.state.playlists,
    {
        self.vault.playlists()
    }

    /// The note of `path`, if any.
    pub fn note_for(&self, path: &str) -> (r: Option<&str>)
        ensures
            match r {
                Some(s) => pair_lookup(self@.vault.state.notes, path@) == Some(s@),
                None => pair_lookup(self@.vault.state.notes, path@) is None,
            },
    {
        self.vault.note_for(path)
    }

    /// The run-history hint of `path` at `now`, if it was ever run.
    pub fn run_hint_for(&self, path: &str, now: u64) -> (r: Option<String>)
        ensures
            opt_view(r) == match recent_index(self@.vault.state.recents, path@) {
                Some(i) => crate::state::run_hint_of(self@.vault.state.recents[i], now),
                None => None,
            },
    {
        self.vault.run_hint_for(path, now)
    }
}

/// Keeping the tail piecewise is keeping the tail of the whole.
pub proof fn lemma_kept_tail_concat<A>(a: Seq<A>, b: Seq<A>)
    ensures
        kept_tail(kept_tail(Seq::<A>::empty() + a) + b) == kept_tail(a + b),
{
    assert(Seq::<A>::empty() + a =~= a);
    assert(kept_tail(kept_tail(a) + b) =~= kept_tail(a + b));
}


// ---------------------------------------------------------------------------
// Laws
// ---------------------------------------------------------------------------

/// ^C quits from every screen and changes nothing.
pub proof fn lemma_ctrl_c_quits<F: Fn(&State, u64, &SearchResult) -> RankInput>(
    o: AppView,
    key: Key,
    f: AppView,
    out: Outcome,
    now: u64,
    rank: F,
)
    requires
        key.ctrl,
        key.code == KeyCode::Char('c'),
        key_step(o, key, f, out, now, rank),
    ensures
        out == Outcome::Quit,
        f == o,
{
}

/// The help overlay cannot be typed through: every key but `?`, Esc, `c`
/// and `q` leaves the state as it was and asks for nothing.
pub proof fn lemma_help_is_inert<F: Fn(&State, u64, &SearchResult) -> RankInput>(
    o: AppView,
    key: Key,
    f: AppView,
    out: Outcome,
    now: u64,
    rank: F,
)
    requires
        o.mode == Mode::Help,
        !(key.ctrl && key.code == KeyCode::Char('c')),
        key.code != KeyCode::Esc,
        key.code != KeyCode::Char('?'),
        key.code != KeyCode::Char('c'),
        key.code != KeyCode::Char('q'),
        key_step(o, key, f, out, now, rank),
    ensures
        out == Outcome::Continue,
        f == o,
{
}

/// No palette entry asks for a delete.
pub proof fn lemma_palette_never_deletes(t: Seq<(Seq<char>, Seq<char>, PaletteAction)>, q: Seq<char>, k: int)
    requires
        forall|j: int| 0 <= j < t.len() ==> t[j].2 != PaletteAction::Act(ActionKind::Delete),
        0 <= k < kept_actions(t, q).len(),
    ensures
        kept_actions(t, q)[k] != PaletteAction::Act(ActionKind::Delete),
    decreases t.len(),
{
    if t.len() > 0 {
        let rest = kept_actions(t.drop_last(), q);
        if k < rest.len() {
            lemma_palette_never_deletes(t.drop_last(), q, k);
        }
    }
}

/// A script is deleted only on an explicit, plain `y` on the delete
/// confirmation, with something selected: no other key on any screen asks
/// for a delete.
pub proof fn lemma_delete_needs_confirmation<F: Fn(&State, u64, &SearchResult) -> RankInput>(
    o: AppView,
    key: Key,
    f: AppView,
    out: Outcome,
    now: u64,
    rank: F,
)
    requires
        key_step(o, key, f, out, now, rank),
        out == Outcome::Act(ActionKind::Delete),
    ensures
        o.mode == Mode::ConfirmDelete,
        key.code == KeyCode::Char('y'),
        !key.ctrl,
        o.selected_result() is Some,
{
    if o.mode == Mode::CommandPalette && key.code == KeyCode::Enter && !(key.ctrl && key.code == KeyCode::Char('c')) {
        if let Some(a) = palette_choice(o) {
            let i = o.palette_selected->0;
            assert forall|j: int| 0 <= j < palette_table().len() implies palette_table()[j].2
                != PaletteAction::Act(ActionKind::Delete) by {
            }
            lemma_palette_never_deletes(palette_table(), o.palette_query, i as int);
        }
    }
}

/// The modal screens keep the search: on the help overlay, the action menu,
/// the delete confirmation, the metadata editor, the playlist picker and the
/// save-search modal, no key changes the query, the results or the
/// selection.
pub proof fn lemma_modals_keep_search<F: Fn(&State, u64, &SearchResult) -> RankInput>(
    o: AppView,
    key: Key,
    f: AppView,
    out: Outcome,
    now: u64,
    rank: F,
)
    requires
        o.mode == Mode::Help || o.mode == Mode::ActionMenu || o.mode == Mode::ConfirmDelete || o.mode
            == Mode::EditMetadata || o.mode == Mode::PlaylistPicker || o.mode == Mode::SaveSearchName,
        key_step(o, key, f, out, now, rank),
    ensures
        f.query == o.query,
        f.results == o.results,
        f.selected == o.selected,
{
}


// ---------------------------------------------------------------------------
// Accessors of the modal forms
// ---------------------------------------------------------------------------

impl App {
    /// The editor's name field.
    pub fn edit_name(&self) -> (r: &str)
        ensures
            r@ == self@.edit.name@,
    {
        self.edit.name.as_str()
    }

    /// The editor's description field.
    pub fn edit_desc(&self) -> (r: &str)
        ensures
            r@ == self@.edit.desc@,
    {
        self.edit.desc.as_str()
    }

    /// The editor's tags field (comma separated).
    pub fn edit_tags(&self) -> (r: &str)
        ensures
            r@ == self@.edit.tags@,
    {
        self.edit.tags.as_str()
    }

    /// The editor's usage field.
    pub fn edit_usage(&self) -> (r: &str)
        ensures
            r@ == self@.edit.usage@,
    {
        self.edit.usage.as_str()
    }

    /// The editor's category field.
    pub fn edit_category(&self) -> (r: &str)
        ensures
            r@ == self@.edit.category@,
    {
        self.edit.category.as_str()
    }

    /// The editor's note field.
    pub fn edit_note(&self) -> (r: &str)
        ensures
            r@ == self@.edit.note@,
    {
        self.edit.note.as_str()
    }

    /// The focused editor field (0 = name … 5 = note).
    pub fn edit_focus(&self) -> (r: usize)
        ensures
            r == self@.edit.focus,
    {
        self.edit.focus
    }

    /// The playlist picker's highlight.
    pub fn playlist_picker_selected(&self) -> (r: Option<usize>)
        ensures
            r == self@.edit.playlist_picker_selected,
    {
        self.edit.playlist_picker_selected
    }

    /// The save-search modal's name buffer.
    pub fn save_search_name(&self) -> (r: &str)
        ensures
            r@ == self@.save_search.name@,
    {
        self.save_search.name.as_str()
    }

    /// The query the save-search modal will save.
    pub fn save_search_query(&self) -> (r: &str)
        ensures
            r@ == self@.save_search.query@,
    {
        self.save_search.query.as_str()
    }

    /// The saved-search picker's highlight.
    pub fn saved_search_selected(&self) -> (r: Option<usize>)
        ensures
            r == self@.save_search.selected,
    {
        self.save_search.selected
    }

    /// Append a stdout line to the output pane (the newest kept).
    pub fn push_output_line(&mut self, line: String)
        ensures
            final(self)@ == (AppView { output: final(self)@.output, ..old(self)@ }),
            final(self)@.output == (OutputState { lines: final(self)@.output.lines, ..old(self)@.output }),
            final(self)@.output.lines@ == kept_tail(
                old(self)@.output.lines@.push(OutputLine { stream: OutputStream::Stdout, text: line }),
            ),
    {
        self.output.push_output_line(line);
    }

    /// Append a stderr line to the output pane (the newest kept).
    pub fn push_stderr_line(&mut self, line: String)
        ensures
            final(self)@ == (AppView { output: final(self)@.output, ..old(self)@ }),
            final(self)@.output == (OutputState { lines: final(self)@.output.lines, ..old(self)@.output }),
            final(self)@.output.lines@ == kept_tail(
                old(self)@.output.lines@.push(OutputLine { stream: OutputStream::Stderr, text: line }),
            ),
    {
        self.output.push_stderr_line(line);
    }
}


// ---------------------------------------------------------------------------
// Actions on the selection
// ---------------------------------------------------------------------------

/// The name a finished run is reported by: the path's file name, else
/// `script`.
pub open spec fn ran_name_of(p: Seq<char>) -> Seq<char> {
    match crate::path::file_name_of(p) {
        Some(n) => n,
        None => "script"@,
    }
}

/// The start of an action on the selection. With nothing selected: a hint,
/// no work. Printing queues the path and says so; favoriting toggles the
/// star and says which way. Copying, opening, running and deleting change
/// nothing yet and hand back the selected path for the outside work.
pub open spec fn action_started(o: AppView, kind: ActionKind, f: AppView, r: Option<Seq<char>>) -> bool {
    match o.selected_result() {
        None => r is None && f == with_status(o, no_selection_msg()),
        Some(sel) => {
            let p = sel.entry.path@;
            match kind {
                ActionKind::PrintPath => r is None && f == with_status(
                    AppView { printed: o.printed.push(p), ..o },
                    "will print on exit: "@ + p,
                ),
                ActionKind::ToggleFavorite => r is None && f == with_status(
                    with_vault(
                        o,
                        vault_with_state(
                            o.vault,
                            crate::vault::with_favorites(
                                o.vault.state,
                                crate::vault::toggled(o.vault.state.favorites, p),
                            ),
                        ),
                    ),
                    if o.vault.state.favorites.contains(p) {
                        "unfavorited: "@ + p
                    } else {
                        "★ favorited: "@ + p
                    },
                ),
                _ => r == Some(p) && f == o,
            }
        },
    }
}

/// The status after a run of `path` finished cleanly: its name, then its
/// recency summary when it has one.
pub open spec fn ran_status(st: crate::state::StateView, path: Seq<char>, now: u64) -> Seq<char> {
    match recent_index(st.recents, path) {
        Some(i) => "ran "@ + ran_name_of(path) + " — "@ + recency_of(st.recents[i], now),
        None => "ran "@ + ran_name_of(path),
    }
}

/// The end of an action's outside work on `path`, `result` being its error
/// text on failure. A copy, an editor session or a delete is reported; a
/// clean run is recorded (exit 0, no output), the results refiltered and
/// the run reported; a failed run reports its error. Printing and
/// favoriting have no outside work and change nothing here.
pub open spec fn action_finished<F: Fn(&State, u64, &SearchResult) -> RankInput>(
    o: AppView,
    kind: ActionKind,
    path: Seq<char>,
    result: Result<(), String>,
    f: AppView,
    now: u64,
    rank: F,
) -> bool {
    match kind {
        ActionKind::CopyPath => f == with_status(
            o,
            match result {
                Ok(()) => "copied: "@ + path,
                Err(e) => "clipboard error: "@ + e@,
            },
        ),
        ActionKind::OpenEditor => f == with_status(
            o,
            match result {
                Ok(()) => "opened in editor"@,
                Err(e) => e@,
            },
        ),
        ActionKind::Delete => f == with_status(
            o,
            match result {
                Ok(()) => "deleted: "@ + path,
                Err(e) => "delete failed: "@ + e@,
            },
        ),
        ActionKind::Run => match result {
            Err(e) => f == with_status(o, e@),
            Ok(()) => {
                let mid = with_vault(
                    o,
                    vault_with_state(o.vault, recorded_if(o.vault.state, path, Some(0i32), None, now)),
                );
                &&& refiltered(mid, f.results, now, rank)
                &&& f == with_status(with_results(mid, f.results), ran_status(mid.vault.state, path, now))
            },
        },
        ActionKind::PrintPath | ActionKind::ToggleFavorite => f == o,
    }
}

fn ran_name(p: &str) -> (n: String)
    ensures
        n@ == ran_name_of(p@),
{
    match crate::path::file_name(&chars_of(p)) {
        Some(n) => string_of(&n),
        None => "script".to_string(),
    }
}

impl App {
    /// Start an action on the selection (see [`action_started`]); the path
    /// handed back, if any, is what the outside work is to act on.
    pub fn start_action(&mut self, kind: ActionKind) -> (r: Option<String>)
        requires
            old(self)@.wf(),
        ensures
            final(self)@.wf(),
            action_started(old(self)@, kind, final(self)@, opt_view(r)),
    {
        proof {
            reveal_strlit("");
        }
        let path = match self.selected_result() {
            None => {
                self.say("no result selected");
                return None;
            },
            Some(sel) => sel.entry.path.clone(),
        };
        match kind {
            ActionKind::PrintPath => {
                self.record_printed_path(path.clone());
                let msg = framed("will print on exit: ", path.as_str(), "");
                self.set_status(msg);
                None
            },
            ActionKind::ToggleFavorite => {
                let now_fav = self.toggle_favorite(path.as_str());
                let msg = if now_fav {
                    framed("★ favorited: ", path.as_str(), "")
                } else {
                    framed("unfavorited: ", path.as_str(), "")
                };
                self.set_status(msg);
                None
            },
            _ => Some(path),
        }
    }

    /// Finish an action's outside work on `path` (see [`action_finished`]).
    pub fn finish_action<F: Fn(&State, u64, &SearchResult) -> RankInput + Copy>(
        &mut self,
        kind: ActionKind,
        path: &str,
        result: Result<(), String>,
        now: u64,
        rank: F,
    )
        requires
            old(self)@.wf(),
            ranks_all(rank),
        ensures
            final(self)@.wf(),
            action_finished(old(self)@, kind, path@, result, final(self)@, now, rank),
    {
        proof {
            reveal_strlit("");
        }
        match kind {
            ActionKind::CopyPath => {
                let msg = match &result {
                    Ok(()) => framed("copied: ", path, ""),
                    Err(e) => framed("clipboard error: ", e.as_str(), ""),
                };
                self.set_status(msg);
            },
            ActionKind::OpenEditor => {
                let msg = match &result {
                    Ok(()) => "opened in editor".to_string(),
                    Err(e) => e.clone(),
                };
                self.set_status(msg);
            },
            ActionKind::Delete => {
                let msg = match &result {
                    Ok(()) => framed("deleted: ", path, ""),
                    Err(e) => framed("delete failed: ", e.as_str(), ""),
                };
                self.set_status(msg);
            },
            ActionKind::Run => match &result {
                Err(e) => self.set_status(e.clone()),
                Ok(()) => {
                    self.record_run_with_status(path, Some(0), None, now);
                    self.refresh_results(now, rank);
                    let name = ran_name(path);
                    let msg = match self.recency_summary(path, now) {
                        Some(rec) => {
                            let mut v = chars_of("ran ");
                            crate::text::append_lit(&mut v, name.as_str());
                            crate::text::append_lit(&mut v, " — ");
                            crate::text::append_lit(&mut v, rec.as_str());
                            string_of(&v)
                        },
                        None => framed("ran ", name.as_str(), ""),
                    };
                    self.set_status(msg);
                },
            },
            ActionKind::PrintPath => {},
            ActionKind::ToggleFavorite => {},
        }
    }
}


// ---------------------------------------------------------------------------
// Live runs
// ---------------------------------------------------------------------------

/// The status once a live run has been recorded.
pub open spec fn live_done_status(timed_out: bool) -> Seq<char> {
    if timed_out {
        "live run timed out (recorded to history)"@
    } else {
        "live run finished (recorded to history)"@
    }
}

/// A live run's spawn reported: on success the run's path is recorded, the
/// job is running under the path's name and that is said; on failure only
/// the failure is said.
pub open spec fn live_spawned(o: AppView, path: String, result: Result<(), String>, f: AppView) -> bool {
    match result {
        Ok(()) => {
            &&& f.output.live_run_path == Some(path)
            &&& f.output.job matches JobStatus::Running { name } && name@ == run_name_of(path@)
            &&& f.output == (OutputState { live_run_path: f.output.live_run_path, job: f.output.job, ..o.output })
            &&& f == with_status(
                AppView { output: f.output, ..o },
                "live run started — output streaming to pane (^L to toggle)"@,
            )
        },
        Err(e) => f == with_status(o, "failed to spawn live capture: "@ + e@),
    }
}

/// The end of a live run, once its output has all arrived. With no run
/// recorded, nothing changes. Otherwise the run is taken (recorded once),
/// its job marked finished (ok exactly for exit 0), the run recorded with
/// its exit code and the pane's lines joined by newlines, the results
/// refiltered, and the end said. An unknown end (`None`) is an unknown exit
/// code, not a timeout.
pub open spec fn live_finished<F: Fn(&State, u64, &SearchResult) -> RankInput>(
    o: AppView,
    completion: Option<RunCompletion>,
    f: AppView,
    now: u64,
    rank: F,
) -> bool {
    match o.output.live_run_path {
        None => f == o,
        Some(p) => {
            let c = match completion {
                Some(c) => c,
                None => RunCompletion { code: None, timed_out: false },
            };
            let joined = join(o.output.lines@.map_values(|l: OutputLine| l.text@), "\n"@);
            let mid = AppView {
                vault: vault_with_state(o.vault, recorded_if(o.vault.state, p@, c.code, Some(joined), now)),
                dirty: true,
                output: f.output,
                status: live_done_status(c.timed_out),
                ..o
            };
            &&& f.output == (OutputState { live_run_path: None, job: f.output.job, ..o.output })
            &&& f.output.job matches JobStatus::Finished { name, ok } && name@ == run_name_of(p@) && ok == (c.code
                == Some(0i32))
            &&& refiltered(mid, f.results, now, rank)
            &&& f == with_results(mid, f.results)
        },
    }
}

impl App {
    /// Report the spawn of a live run of `path` (see [`live_spawned`]).
    pub fn live_run_spawned(&mut self, path: String, result: Result<(), String>)
        requires
            old(self)@.wf(),
        ensures
            final(self)@.wf(),
            live_spawned(old(self)@, path, result, final(self)@),
    {
        match result {
            Ok(()) => {
                self.set_live_run_path(Some(path));
                self.say("live run started — output streaming to pane (^L to toggle)");
            },
            Err(e) => {
                let msg = framed("failed to spawn live capture: ", e.as_str(), "");
                proof {
                    reveal_strlit("");
                }
                self.set_status(msg);
            },
        }
    }

    /// Record the end of the live run (see [`live_finished`]).
    pub fn finish_live_run<F: Fn(&State, u64, &SearchResult) -> RankInput + Copy>(
        &mut self,
        completion: Option<RunCompletion>,
        now: u64,
        rank: F,
    )
        requires
            old(self)@.wf(),
            ranks_all(rank),
        ensures
            final(self)@.wf(),
            live_finished(old(self)@, completion, final(self)@, now, rank),
    {
        match self.take_live_run_path() {
            None => {
                proof {
                    assert(self@.output == old(self)@.output);
                }
            },
            Some(p) => {
                let c = match completion {
                    Some(c) => c,
                    None => RunCompletion { code: None, timed_out: false },
                };
                self.finish_job(p.as_str(), c.code);
                let joined = self.output_text();
                self.record_run_with_status(p.as_str(), c.code, Some(joined), now);
                self.refresh_results(now, rank);
                if c.timed_out {
                    self.say("live run timed out (recorded to history)");
                } else {
                    self.say("live run finished (recorded to history)");
                }
            },
        }
    }
}

} // verus!
