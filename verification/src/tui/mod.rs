//! The interactive frontend's vocabulary and its decisions that need no
//! terminal: screens, views, action intents, the command palette's table, the
//! status-line texts, the output pane's bounded buffer and scroll, and the
//! live-run job status.

pub mod app;
pub mod panes;

use vstd::prelude::*;
use crate::model::{MatchField, ResultView, SearchResult};
use crate::text::{
    append_lit, chars_of, chars_of_string, contains, contains_chars, dec, join, push_dec, slice,
    split_whitespace, string_of, to_lowercase, unicode_lower, vecs_view, words,
};

verus! {

/// Which screen is showing.
#[derive(Debug, Clone, Copy, PartialEq, Eq, Structural)]
pub enum Mode {
    Search,
    Help,
    CommandPalette,
    EditMetadata,
    PlaylistPicker,
    /// The small menu on Enter: open/edit, run, delete, cancel.
    ActionMenu,
    /// The y/n confirmation of a pending delete.
    ConfirmDelete,
    /// Naming the current query before saving it.
    SaveSearchName,
    /// Recalling or deleting a saved search.
    SavedSearchPicker,
}

/// The browse filter of the main list.
#[derive(Debug, Clone, Copy, PartialEq, Eq, Structural)]
pub enum ViewMode {
    All,
    Favorites,
    Recents,
}

impl Default for ViewMode {
    fn default() -> (v: Self)
        ensures
            v == ViewMode::All,
    {
        ViewMode::All
    }
}

/// An action on the selected entry.
#[derive(Debug, Clone, Copy, PartialEq, Eq, Structural)]
pub enum ActionKind {
    OpenEditor,
    Run,
    CopyPath,
    PrintPath,
    ToggleFavorite,
    /// Delete the selected script file, then rebuild the index.
    Delete,
}

/// What handling a key asks of the shell.
#[derive(Debug, Clone, Copy, PartialEq, Eq, Structural)]
pub enum Outcome {
    Continue,
    Quit,
    Act(ActionKind),
}

/// A palette command that is neither an action nor a view switch.
#[derive(Debug, Clone, Copy, PartialEq, Eq, Structural)]
pub enum SpecialCmd {
    Reload,
    NewPlaylist,
    AddToPlaylist,
    ActivatePlaylist,
    DeletePlaylist,
    ClearPlaylistFilter,
    ShowLastOutput,
    SaveSearch,
    LoadSavedSearch,
    RunCapture,
    RunLive,
    ToggleOutput,
    EditMetadata,
    ClearQuery,
    Help,
    Quit,
}

/// What a palette entry does.
#[derive(Debug, Clone, Copy, PartialEq, Eq, Structural)]
pub enum PaletteAction {
    Act(ActionKind),
    SetView(ViewMode),
    Special(SpecialCmd),
}

/// One palette entry; the label is both what is shown and what is matched.
#[derive(Debug, Clone, Copy, PartialEq, Eq)]
pub struct PaletteCmd {
    pub label: &'static str,
    pub desc: &'static str,
    pub action: PaletteAction,
}

/// The palette's commands in presentation order: label, description and
/// action.
pub open spec fn palette_table() -> Seq<(Seq<char>, Seq<char>, PaletteAction)> {
    seq![
        ("run"@, "run the selected script"@, PaletteAction::Act(ActionKind::Run)),
        ("edit"@, "open in editor"@, PaletteAction::Act(ActionKind::OpenEditor)),
        ("edit metadata"@, "edit name/desc/tags/etc and notes (in-TUI form)"@, PaletteAction::Special(SpecialCmd::EditMetadata)),
        ("copy path"@, "copy path to clipboard"@, PaletteAction::Act(ActionKind::CopyPath)),
        ("print path"@, "print path on exit"@, PaletteAction::Act(ActionKind::PrintPath)),
        ("toggle fav"@, "star/unstar selected"@, PaletteAction::Act(ActionKind::ToggleFavorite)),
        ("view: all"@, "show all scripts"@, PaletteAction::SetView(ViewMode::All)),
        ("view: favorites"@, "show only ★ favorites"@, PaletteAction::SetView(ViewMode::Favorites)),
        ("view: recents"@, "show recently run"@, PaletteAction::SetView(ViewMode::Recents)),
        ("new playlist"@, "create a named group"@, PaletteAction::Special(SpecialCmd::NewPlaylist)),
        ("add to playlist"@, "add selected script to a playlist"@, PaletteAction::Special(SpecialCmd::AddToPlaylist)),
        ("activate playlist"@, "filter list to a playlist (first available)"@, PaletteAction::Special(SpecialCmd::ActivatePlaylist)),
        ("delete playlist"@, "remove a playlist (first available for demo)"@, PaletteAction::Special(SpecialCmd::DeletePlaylist)),
        ("clear playlist filter"@, "stop filtering by playlist"@, PaletteAction::Special(SpecialCmd::ClearPlaylistFilter)),
        ("show last output"@, "show captured output from last run of selected"@, PaletteAction::Special(SpecialCmd::ShowLastOutput)),
        ("save search"@, "save current query as named search"@, PaletteAction::Special(SpecialCmd::SaveSearch)),
        ("load saved search"@, "load a saved query (picker if multiple)"@, PaletteAction::Special(SpecialCmd::LoadSavedSearch)),
        ("run capture"@, "run and capture output (no live, for log)"@, PaletteAction::Special(SpecialCmd::RunCapture)),
        ("run live"@, "run (non-int) and stream output live into the pane"@, PaletteAction::Special(SpecialCmd::RunLive)),
        ("toggle output"@, "show/hide the output pane (also ^L)"@, PaletteAction::Special(SpecialCmd::ToggleOutput)),
        ("reload"@, "rescan scripts from disk"@, PaletteAction::Special(SpecialCmd::Reload)),
        ("clear query"@, "clear the search box"@, PaletteAction::Special(SpecialCmd::ClearQuery)),
        ("help"@, "show keybindings"@, PaletteAction::Special(SpecialCmd::Help)),
        ("quit"@, "exit the TUI"@, PaletteAction::Special(SpecialCmd::Quit)),
    ]
}

fn cmd(label: &'static str, desc: &'static str, action: PaletteAction) -> (c: PaletteCmd)
    ensures
        c.label == label && c.desc == desc && c.action == action,
{
    PaletteCmd { label, desc, action }
}

/// The static command palette, in presentation order (see [`palette_table`]).
pub fn palette_commands() -> (cmds: Vec<PaletteCmd>)
    ensures
        cmds.len() == palette_table().len(),
        forall|k: int|
            0 <= k < cmds.len() ==> (#[trigger] cmds@[k]).label@ == palette_table()[k].0 && cmds@[k].desc@
                == palette_table()[k].1 && cmds@[k].action == palette_table()[k].2,
{
    let mut v: Vec<PaletteCmd> = Vec::new();
    v.push(cmd("run", "run the selected script", PaletteAction::Act(ActionKind::Run)));
    v.push(cmd("edit", "open in editor", PaletteAction::Act(ActionKind::OpenEditor)));
    v.push(cmd("edit metadata", "edit name/desc/tags/etc and notes (in-TUI form)", PaletteAction::Special(SpecialCmd::EditMetadata)));
    v.push(cmd("copy path", "copy path to clipboard", PaletteAction::Act(ActionKind::CopyPath)));
    v.push(cmd("print path", "print path on exit", PaletteAction::Act(ActionKind::PrintPath)));
    v.push(cmd("toggle fav", "star/unstar selected", PaletteAction::Act(ActionKind::ToggleFavorite)));
    v.push(cmd("view: all", "show all scripts", PaletteAction::SetView(ViewMode::All)));
    v.push(cmd("view: favorites", "show only ★ favorites", PaletteAction::SetView(ViewMode::Favorites)));
    v.push(cmd("view: recents", "show recently run", PaletteAction::SetView(ViewMode::Recents)));
    v.push(cmd("new playlist", "create a named group", PaletteAction::Special(SpecialCmd::NewPlaylist)));
    v.push(cmd("add to playlist", "add selected script to a playlist", PaletteAction::Special(SpecialCmd::AddToPlaylist)));
    v.push(cmd("activate playlist", "filter list to a playlist (first available)", PaletteAction::Special(SpecialCmd::ActivatePlaylist)));
    v.push(cmd("delete playlist", "remove a playlist (first available for demo)", PaletteAction::Special(SpecialCmd::DeletePlaylist)));
    v.push(cmd("clear playlist filter", "stop filtering by playlist", PaletteAction::Special(SpecialCmd::ClearPlaylistFilter)));
    v.push(cmd("show last output", "show captured output from last run of selected", PaletteAction::Special(SpecialCmd::ShowLastOutput)));
    v.push(cmd("save search", "save current query as named search", PaletteAction::Special(SpecialCmd::SaveSearch)));
    v.push(cmd("load saved search", "load a saved query (picker if multiple)", PaletteAction::Special(SpecialCmd::LoadSavedSearch)));
    v.push(cmd("run capture", "run and capture output (no live, for log)", PaletteAction::Special(SpecialCmd::RunCapture)));
    v.push(cmd("run live", "run (non-int) and stream output live into the pane", PaletteAction::Special(SpecialCmd::RunLive)));
    v.push(cmd("toggle output", "show/hide the output pane (also ^L)", PaletteAction::Special(SpecialCmd::ToggleOutput)));
    v.push(cmd("reload", "rescan scripts from disk", PaletteAction::Special(SpecialCmd::Reload)));
    v.push(cmd("clear query", "clear the search box", PaletteAction::Special(SpecialCmd::ClearQuery)));
    v.push(cmd("help", "show keybindings", PaletteAction::Special(SpecialCmd::Help)));
    v.push(cmd("quit", "exit the TUI", PaletteAction::Special(SpecialCmd::Quit)));
    proof {
        assert forall|k: int| 0 <= k < v.len() implies (#[trigger] v@[k]).label@ == palette_table()[k].0
            && v@[k].desc@ == palette_table()[k].1 && v@[k].action == palette_table()[k].2 by {
        }
    }
    v
}

/// The palette entries whose label or description, lowercased, contains the
/// lowercased filter text; all of them for an empty filter.
pub open spec fn palette_matches(label: Seq<char>, desc: Seq<char>, filter: Seq<char>) -> bool {
    let q = unicode_lower(filter);
    q.len() == 0 || contains(unicode_lower(label), q) || contains(unicode_lower(desc), q)
}

/// Whether a palette entry is shown for a filter (see [`palette_matches`]).
pub fn palette_cmd_matches(c: &PaletteCmd, filter: &str) -> (r: bool)
    ensures
        r == palette_matches(c.label@, c.desc@, filter@),
{
    let q = chars_of_string(&to_lowercase(filter));
    if q.len() == 0 {
        return true;
    }
    let l = chars_of_string(&to_lowercase(c.label));
    let d = chars_of_string(&to_lowercase(c.desc));
    contains_chars(&l, &q) || contains_chars(&d, &q)
}

// ---------------------------------------------------------------------------
// Status texts
// ---------------------------------------------------------------------------

/// The label of a browse view.
pub open spec fn view_label_of(v: ViewMode) -> Seq<char> {
    match v {
        ViewMode::All => "All"@,
        ViewMode::Favorites => "Favorites"@,
        ViewMode::Recents => "Recents"@,
    }
}

/// The status strip on the search line: `View · Auto · count`.
pub fn status_strip_text(view: ViewMode, count: usize) -> (s: String)
    ensures
        s@ == view_label_of(view) + " · Auto · "@ + dec(count as nat),
{
    let mut v = chars_of(match view {
        ViewMode::All => "All",
        ViewMode::Favorites => "Favorites",
        ViewMode::Recents => "Recents",
    });
    append_lit(&mut v, " · Auto · ");
    push_dec(&mut v, count as u64);
    string_of(&v)
}

/// The words that mark a status message as a failure.
pub open spec fn failure_words() -> Seq<Seq<char>> {
    seq!["error"@, "failed"@, "cannot"@, "not found"@, "skipped"@, "no result"@]
}

/// A status message is a failure when its lowercase form contains one of
/// [`failure_words`].
pub fn status_is_error(msg: &str) -> (r: bool)
    ensures
        r == exists|k: int| 0 <= k < failure_words().len() && contains(unicode_lower(msg@), #[trigger] failure_words()[k]),
{
    let m = chars_of_string(&to_lowercase(msg));
    let kws = ["error", "failed", "cannot", "not found", "skipped", "no result"];
    let mut i: usize = 0;
    while i < kws.len()
        invariant
            i <= kws.len(),
            m@ == unicode_lower(msg@),
            forall|k: int| 0 <= k < 6 ==> (#[trigger] kws@[k])@ == failure_words()[k],
            forall|k: int| 0 <= k < i ==> !contains(m@, #[trigger] failure_words()[k]),
        decreases kws.len() - i,
    {
        let kw = chars_of(kws[i]);
        if contains_chars(&m, &kw) {
            proof {
                assert(contains(unicode_lower(msg@), failure_words()[i as int]));
            }
            return true;
        }
        i += 1;
    }
    false
}

/// The matched positions that apply to the displayed name: all of them for a
/// name match, for a filename match only when the filename is what is shown
/// (no explicit name), none otherwise.
pub open spec fn name_indices_of(r: ResultView) -> Seq<usize> {
    let applies = match r.matched_field {
        MatchField::Name => true,
        MatchField::Filename => r.entry.meta.name is None,
        _ => false,
    };
    if applies {
        r.matched_indices
    } else {
        seq![]
    }
}

/// The matched positions to highlight in the displayed name.
pub fn name_indices(r: &SearchResult) -> (out: &[usize])
    ensures
        out@ == name_indices_of(r@),
{
    let applies = match r.matched_field {
        MatchField::Name => true,
        MatchField::Filename => r.entry.meta.name.is_none(),
        _ => false,
    };
    if applies {
        r.matched_indices.as_slice()
    } else {
        &[]
    }
}

/// The action menu's title: `For <name>`, the name cut to 29 characters plus
/// `…` when longer than 30.
pub open spec fn menu_title_of(name: Seq<char>) -> Seq<char> {
    if name.len() <= 30 {
        "For "@ + name
    } else {
        "For "@ + name.take(29).push('…')
    }
}

/// The action menu's title (see [`menu_title_of`]).
pub fn menu_title(name: &str) -> (t: String)
    ensures
        t@ == menu_title_of(name@),
{
    let n = chars_of(name);
    let mut v = chars_of("For ");
    if n.len() <= 30 {
        crate::text::append(&mut v, &n);
    } else {
        let short = slice(&n, 0, 29);
        crate::text::append(&mut v, &short);
        v.push('…');
        proof {
            assert(v@ =~= "For "@ + name@.take(29).push('…'));
        }
    }
    string_of(&v)
}

// ---------------------------------------------------------------------------
// Captured output
// ---------------------------------------------------------------------------

/// Stdout and stderr joined for a status or history snippet: either alone, or
/// stdout, a newline if it lacks a final one, then stderr.
pub open spec fn combined_text(stdout: Seq<char>, stderr: Seq<char>) -> Seq<char> {
    if stdout.len() == 0 {
        stderr
    } else if stderr.len() == 0 {
        stdout
    } else if stdout.last() == '\n' {
        stdout + stderr
    } else {
        stdout.push('\n') + stderr
    }
}

/// Join captured stdout and stderr (see [`combined_text`]).
pub fn combined_capture_text(stdout: &str, stderr: &str) -> (s: String)
    ensures
        s@ == combined_text(stdout@, stderr@),
{
    let a = chars_of(stdout);
    let b = chars_of(stderr);
    if a.len() == 0 {
        return stderr.to_string();
    }
    if b.len() == 0 {
        return stdout.to_string();
    }
    let mut v = slice(&a, 0, a.len());
    if a[a.len() - 1] != '\n' {
        v.push('\n');
    }
    crate::text::append(&mut v, &b);
    proof {
        assert(a@ =~= stdout@);
        assert(v@ =~= combined_text(stdout@, stderr@));
    }
    string_of(&v)
}

/// The first `max` characters, with `...` appended when more followed.
pub open spec fn status_truncated(s: Seq<char>, max: nat) -> Seq<char> {
    if s.len() <= max {
        s
    } else {
        s.take(max as int) + "..."@
    }
}

/// Cut a status text on a character boundary (see [`status_truncated`]).
pub fn truncate_for_status(value: &str, max_chars: usize) -> (s: String)
    ensures
        s@ == status_truncated(value@, max_chars as nat),
{
    let v = chars_of(value);
    if v.len() <= max_chars {
        return value.to_string();
    }
    let mut out = slice(&v, 0, max_chars);
    append_lit(&mut out, "...");
    string_of(&out)
}

/// All whitespace runs collapsed to single spaces, trimmed.
pub fn flatten_for_status(value: &str) -> (s: String)
    ensures
        s@ == join(words(value@), " "@),
{
    let ws = split_whitespace(&chars_of(value));
    let j = crate::text::join_chars(&ws, " ");
    string_of(&j)
}

/// Which stream an output line came from.
#[derive(Debug, Clone, Copy, PartialEq, Eq, Structural)]
pub enum OutputStream {
    Stdout,
    Stderr,
}

/// One line of the output pane.
#[derive(Debug, Clone, PartialEq, Eq)]
pub struct OutputLine {
    pub stream: OutputStream,
    pub text: String,
}

/// The footer's job status.
#[derive(Debug, Clone, PartialEq, Eq)]
pub enum JobStatus {
    /// No live run yet.
    Idle,
    /// A live run is streaming.
    Running { name: String },
    /// The last live run finished; `ok` for a clean exit.
    Finished { name: String, ok: bool },
}

/// How a live run ended.
#[derive(Debug, Clone, Copy, PartialEq, Eq, Structural)]
pub struct RunCompletion {
    pub code: Option<i32>,
    pub timed_out: bool,
}

impl Default for RunCompletion {
    fn default() -> (c: Self)
        ensures
            c == (RunCompletion { code: None, timed_out: false }),
    {
        RunCompletion { code: None, timed_out: false }
    }
}

/// One message from a live run: a line of output, or the end.
#[derive(Debug, Clone, PartialEq, Eq)]
pub enum RunEvent {
    Stdout(String),
    Stderr(String),
    Done(RunCompletion),
}

/// Upper bound on the output pane's buffer, in lines.
pub const OUTPUT_BUFFER_LINES: usize = 256;

/// The output pane: visibility, a bounded buffer of tagged lines, how far it
/// is scrolled up from the tail, the live run in progress, a pending live-run
/// request, and the footer's job status.
#[derive(Debug, Clone, PartialEq, Eq)]
pub struct OutputState {
    pub show: bool,
    pub lines: Vec<OutputLine>,
    pub scroll: usize,
    pub live_run_path: Option<String>,
    pub pending_live_run: Option<String>,
    pub job: JobStatus,
}

/// The newest `OUTPUT_BUFFER_LINES` of a sequence of lines.
pub open spec fn kept_tail<A>(s: Seq<A>) -> Seq<A> {
    if s.len() <= OUTPUT_BUFFER_LINES {
        s
    } else {
        s.skip(s.len() - OUTPUT_BUFFER_LINES)
    }
}

/// The display name of a run: the path's file name, or the whole path.
pub open spec fn run_name_of(p: Seq<char>) -> Seq<char> {
    match crate::path::file_name_of(p) {
        Some(n) => n,
        None => p,
    }
}

fn run_name(p: &str) -> (n: String)
    ensures
        n@ == run_name_of(p@),
{
    match crate::path::file_name(&chars_of(p)) {
        Some(n) => string_of(&n),
        None => p.to_string(),
    }
}

impl Default for OutputState {
    fn default() -> (o: Self)
        ensures
            !o.show,
            o.lines.len() == 0,
            o.scroll == 0,
            o.live_run_path is None,
            o.pending_live_run is None,
            o.job == JobStatus::Idle,
    {
        OutputState {
            show: false,
            lines: Vec::new(),
            scroll: 0,
            live_run_path: None,
            pending_live_run: None,
            job: JobStatus::Idle,
        }
    }
}

impl OutputState {
    /// Append one tagged line, dropping the oldest beyond the bound.
    pub fn push_tagged(&mut self, stream: OutputStream, text: String)
        ensures
            final(self).lines@ == kept_tail(old(self).lines@.push(OutputLine { stream, text })),
            final(self).lines.len() <= OUTPUT_BUFFER_LINES,
            *final(self) == (OutputState { lines: final(self).lines, ..*old(self) }),
    {
        self.lines.push(OutputLine { stream, text });
        if self.lines.len() > OUTPUT_BUFFER_LINES {
            let excess = self.lines.len() - OUTPUT_BUFFER_LINES;
            let tail = self.lines.split_off(excess);
            self.lines = tail;
            proof {
                assert(self.lines@ =~= kept_tail(old(self).lines@.push(OutputLine { stream, text })));
            }
        }
    }

    /// Append a stdout line.
    pub fn push_output_line(&mut self, line: String)
        ensures
            *final(self) == (OutputState { lines: final(self).lines, ..*old(self) }),
            final(self).lines@ == kept_tail(old(self).lines@.push(OutputLine { stream: OutputStream::Stdout, text: line })),
            final(self).lines.len() <= OUTPUT_BUFFER_LINES,
    {
        self.push_tagged(OutputStream::Stdout, line);
    }

    /// Append a stderr line.
    pub fn push_stderr_line(&mut self, line: String)
        ensures
            *final(self) == (OutputState { lines: final(self).lines, ..*old(self) }),
            final(self).lines@ == kept_tail(old(self).lines@.push(OutputLine { stream: OutputStream::Stderr, text: line })),
            final(self).lines.len() <= OUTPUT_BUFFER_LINES,
    {
        self.push_tagged(OutputStream::Stderr, line);
    }

    /// Apply one live-run event: output lines go to the buffer; the end is
    /// handed back (it is control, never output).
    pub fn apply_run_event(&mut self, event: RunEvent) -> (done: Option<RunCompletion>)
        ensures
            *final(self) == (OutputState { lines: final(self).lines, ..*old(self) }),
            match event {
                RunEvent::Stdout(l) => done is None && final(self).lines@ == kept_tail(
                    old(self).lines@.push(OutputLine { stream: OutputStream::Stdout, text: l }),
                ),
                RunEvent::Stderr(l) => done is None && final(self).lines@ == kept_tail(
                    old(self).lines@.push(OutputLine { stream: OutputStream::Stderr, text: l }),
                ),
                RunEvent::Done(c) => done == Some(c) && final(self).lines@ == old(self).lines@,
            },
    {
        match event {
            RunEvent::Stdout(line) => {
                self.push_output_line(line);
                None
            },
            RunEvent::Stderr(line) => {
                self.push_stderr_line(line);
                None
            },
            RunEvent::Done(c) => Some(c),
        }
    }

    /// Clear the buffer and pin the pane to the tail.
    pub fn clear(&mut self)
        ensures
            final(self).lines.len() == 0,
            *final(self) == (OutputState { lines: final(self).lines, scroll: 0, ..*old(self) }),
    {
        self.lines = Vec::new();
        self.scroll = 0;
    }

    /// Scroll by `delta` lines (positive = toward older output), clamped to
    /// `[0, len - 1]` (0 for an empty buffer).
    pub fn scroll_output(&mut self, delta: isize)
        ensures
            ({
                let max: int = if old(self).lines.len() == 0 {
                    0
                } else {
                    old(self).lines.len() - 1
                };
                let want: int = old(self).scroll + delta;
                final(self).scroll == (if want < 0 {
                    0
                } else if want > max {
                    max
                } else {
                    want
                })
            }),
            *final(self) == (OutputState { scroll: final(self).scroll, ..*old(self) }),
    {
        let max: usize = if self.lines.len() == 0 {
            0
        } else {
            self.lines.len() - 1
        };
        let want: i128 = self.scroll as i128 + delta as i128;
        let next: usize = if want < 0 {
            0
        } else if want > max as i128 {
            max
        } else {
            want as usize
        };
        self.scroll = next;
    }

    /// Take a pending live-run request: `None` when there is none or a run is
    /// already active (one run at a time; the request is dropped), else the
    /// path to start.
    pub fn take_live_run_request(&mut self, live_active: bool) -> (r: Option<String>)
        ensures
            final(self).pending_live_run is None,
            r == (if live_active {
                None
            } else {
                old(self).pending_live_run
            }),
            final(self).lines@ == old(self).lines@,
    {
        let p = self.pending_live_run.take();
        if live_active {
            None
        } else {
            p
        }
    }

    /// Record the live run's path; a path also marks the job as running under
    /// the path's display name.
    pub fn set_live_run_path(&mut self, path: Option<String>)
        ensures
            *final(self) == (OutputState { live_run_path: path, job: final(self).job, ..*old(self) }),
            final(self).live_run_path == path,
            match path {
                Some(p) => final(self).job matches JobStatus::Running { name } && name@ == run_name_of(p@),
                None => final(self).job == old(self).job,
            },
    {
        match &path {
            Some(p) => {
                self.job = JobStatus::Running { name: run_name(p.as_str()) };
            },
            None => {},
        }
        self.live_run_path = path;
    }

    /// Mark the last live run finished: ok exactly for exit code 0.
    pub fn finish_job(&mut self, path: &str, exit: Option<i32>)
        ensures
            *final(self) == (OutputState { job: final(self).job, ..*old(self) }),
            final(self).job matches JobStatus::Finished { name, ok } && name@ == run_name_of(path@) && ok == (exit
                == Some(0i32)),
            final(self).lines@ == old(self).lines@,
    {
        let ok = match exit {
            Some(c) => c == 0,
            None => false,
        };
        self.job = JobStatus::Finished { name: run_name(path), ok };
    }

    /// Whether a live run is streaming.
    pub fn live_active(&self) -> (r: bool)
        ensures
            r == self.live_run_path is Some,
    {
        self.live_run_path.is_some()
    }
}

/// How long the event loop waits for input, in milliseconds: briefly while
/// a live run streams, so its output keeps flowing into the pane; an hour when
/// idle (a real event still ends the wait at once).
pub fn poll_timeout_millis(live_active: bool) -> (ms: u64)
    ensures
        ms == if live_active {
            40u64
        } else {
            3_600_000u64
        },
{
    if live_active {
        40
    } else {
        3_600_000
    }
}

/// State of the save-search and saved-search-picker modals.
#[derive(Debug, Clone, PartialEq, Eq)]
pub struct SaveSearchState {
    pub name: String,
    pub query: String,
    pub selected: Option<usize>,
}

/// State of the metadata editor and the playlist picker.
#[derive(Debug, Clone, PartialEq, Eq)]
pub struct EditState {
    pub path: Option<String>,
    pub name: String,
    pub desc: String,
    /// Comma separated.
    pub tags: String,
    pub usage: String,
    pub category: String,
    pub note: String,
    /// 0 = name, 1 = desc, 2 = tags, 3 = usage, 4 = category, 5 = note.
    pub focus: usize,
    pub playlist_picker_selected: Option<usize>,
}

/// Coarse syntax categories of the preview highlighter.
#[derive(Debug, Clone, Copy, PartialEq, Eq, Structural)]
pub enum SyntaxKind {
    Keyword,
    StringLit,
    Comment,
    Number,
    Normal,
}

} // verus!
