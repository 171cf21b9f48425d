//! The library's facade: the loaded configuration, the index of scripts and
//! the user's state, with the search engine and the state's operations over
//! them. Scanning the disk and persisting the state are the caller's: it
//! builds the index and hands it in, and saves [`ScriptVault::state`] after a
//! change.

use vstd::prelude::*;
use crate::config::{Config, ConfigView};
use crate::index::{all_hits, name_path_key, search_hits, tier_key, Index};
use crate::model::{entries_view, results_view, EntryView, ResultView, ScriptEntry, SearchResult};
use crate::order::arranged;
use crate::query::engine::{ran_as, run, RankInput};
use crate::query::{Query, QueryView, Sort, ViewSpec};
use crate::state::{
    can_count, first_eq, pair_index, pair_lookup, playlist_index, recent_index, recorded,
    run_hint_of, without_key, Playlist, PlaylistView, RecentEntry, State, StateView,
};
use crate::text::{opt_view, trim, words};

verus! {

/// Owns the configuration, the index and the state.
pub struct ScriptVault {
    config: Config,
    index: Index,
    state: State,
}

/// The mathematical view of a [`ScriptVault`].
pub struct VaultView {
    pub config: ConfigView,
    pub entries: Seq<EntryView>,
    pub state: StateView,
}

impl View for ScriptVault {
    type V = VaultView;

    closed spec fn view(&self) -> VaultView {
        VaultView { config: self.config@, entries: self.index@, state: self.state@ }
    }
}

/// The empty query: all entries, no filter, automatic order, no limit.
pub open spec fn browse_query() -> QueryView {
    QueryView { text: seq![], filters: seq![], view: ViewSpec::All, sort: Sort::Auto, limit: None }
}

/// `st` with its favorites replaced.
pub open spec fn with_favorites(st: StateView, f: Seq<Seq<char>>) -> StateView {
    StateView { favorites: f, ..st }
}

/// `st` with its playlists replaced.
pub open spec fn with_playlists(st: StateView, p: Seq<PlaylistView>) -> StateView {
    StateView { playlists: p, ..st }
}

/// `st` with its notes replaced.
pub open spec fn with_notes(st: StateView, n: Seq<(Seq<char>, Seq<char>)>) -> StateView {
    StateView { notes: n, ..st }
}

/// `st` with its saved searches replaced.
pub open spec fn with_searches(st: StateView, s: Seq<(Seq<char>, Seq<char>)>) -> StateView {
    StateView { saved_searches: s, ..st }
}

/// `st` with its recents replaced.
pub open spec fn with_recents(st: StateView, r: Seq<crate::state::RecentView>) -> StateView {
    StateView { recents: r, ..st }
}

/// The favorites after toggling `path`.
pub open spec fn toggled(f: Seq<Seq<char>>, path: Seq<char>) -> Seq<Seq<char>> {
    match first_eq(f, path) {
        Some(i) => f.remove(i),
        None => f.push(path),
    }
}

/// The playlists after adding `path` to the one named `name`, if any.
pub open spec fn added_to(ps: Seq<PlaylistView>, name: Seq<char>, path: Seq<char>) -> Seq<PlaylistView> {
    match playlist_index(ps, name) {
        Some(i) => ps.update(
            i,
            PlaylistView {
                name: ps[i].name,
                paths: if ps[i].paths.contains(path) {
                    ps[i].paths
                } else {
                    ps[i].paths.push(path)
                },
            },
        ),
        None => ps,
    }
}

/// The playlists after removing `path` from the one named `name`, if any.
pub open spec fn removed_from(ps: Seq<PlaylistView>, name: Seq<char>, path: Seq<char>) -> Seq<PlaylistView> {
    match playlist_index(ps, name) {
        Some(i) => ps.update(
            i,
            PlaylistView {
                name: ps[i].name,
                paths: match first_eq(ps[i].paths, path) {
                    Some(k) => ps[i].paths.remove(k),
                    None => ps[i].paths,
                },
            },
        ),
        None => ps,
    }
}

/// The names of playlists.
pub open spec fn playlist_names(ps: Seq<PlaylistView>) -> Seq<Seq<char>> {
    ps.map_values(|p: PlaylistView| p.name)
}

/// Adding a path to a playlist or removing one keeps every playlist's name
/// where it was.
pub proof fn lemma_membership_keeps_names(ps: Seq<PlaylistView>, name: Seq<char>, path: Seq<char>)
    ensures
        playlist_names(added_to(ps, name, path)) == playlist_names(ps),
        playlist_names(removed_from(ps, name, path)) == playlist_names(ps),
        playlist_index(added_to(ps, name, path), name) == playlist_index(ps, name),
        playlist_index(removed_from(ps, name, path), name) == playlist_index(ps, name),
{
    crate::state::lemma_first_eq_bounds(playlist_names(ps), name);
    if let Some(i) = playlist_index(ps, name) {
        assert(ps[i].name == playlist_names(ps)[i]);
    }
    assert(playlist_names(added_to(ps, name, path)) =~= playlist_names(ps));
    assert(playlist_names(removed_from(ps, name, path)) =~= playlist_names(ps));
}

/// Adding a path to a playlist twice is adding it once; and adding a path
/// the playlist did not hold, then removing it, gives the playlists back as
/// they were.
pub proof fn lemma_playlist_add_remove(ps: Seq<PlaylistView>, name: Seq<char>, path: Seq<char>)
    ensures
        added_to(added_to(ps, name, path), name, path) == added_to(ps, name, path),
        (playlist_index(ps, name) matches Some(i) && !ps[i].paths.contains(path)) ==> removed_from(
            added_to(ps, name, path),
            name,
            path,
        ) == ps,
{
    lemma_membership_keeps_names(ps, name, path);
    lemma_membership_keeps_names(added_to(ps, name, path), name, path);
    crate::state::lemma_first_eq_bounds(playlist_names(ps), name);
    match playlist_index(ps, name) {
        Some(i) => {
            let a = added_to(ps, name, path);
            let old_paths = ps[i].paths;
            assert(a[i].paths.contains(path)) by {
                if !old_paths.contains(path) {
                    assert(a[i].paths[old_paths.len() as int] == path);
                }
            }
            assert(added_to(a, name, path) =~= a);
            if !old_paths.contains(path) {
                let pushed = old_paths.push(path);
                assert(forall|j: int| 0 <= j < old_paths.len() ==> pushed[j] != path) by {
                    assert forall|j: int| 0 <= j < old_paths.len() implies pushed[j] != path by {
                        assert(pushed[j] == old_paths[j]);
                    }
                }
                crate::state::lemma_first_eq(pushed, path, old_paths.len() as int);
                assert(pushed.remove(old_paths.len() as int) =~= old_paths);
                assert(removed_from(a, name, path) =~= ps);
            }
        },
        None => {},
    }
}

/// Playlist names stay unique: creating one only when the name is free,
/// deleting one, and changing a playlist's paths all keep every name once.
pub proof fn lemma_playlist_names_stay_unique(ps: Seq<PlaylistView>, name: Seq<char>, path: Seq<char>)
    requires
        playlist_names(ps).no_duplicates(),
    ensures
        playlist_index(ps, name) is None ==> playlist_names(ps.push(PlaylistView { name, paths: seq![] })).no_duplicates(),
        playlist_index(ps, name) matches Some(i) ==> playlist_names(ps.remove(i)).no_duplicates(),
        playlist_names(added_to(ps, name, path)).no_duplicates(),
        playlist_names(removed_from(ps, name, path)).no_duplicates(),
{
    lemma_membership_keeps_names(ps, name, path);
    crate::state::lemma_first_eq_bounds(playlist_names(ps), name);
    let ns = playlist_names(ps);
    if playlist_index(ps, name) is None {
        let grown = playlist_names(ps.push(PlaylistView { name, paths: seq![] }));
        assert(grown =~= ns.push(name));
        assert forall|a: int, b: int| 0 <= a < b < grown.len() implies grown[a] != grown[b] by {
            if b == ns.len() {
                assert(grown[a] == ns[a]);
            } else {
                assert(grown[a] == ns[a]);
                assert(grown[b] == ns[b]);
            }
        }
    }
    if let Some(i) = playlist_index(ps, name) {
        let shrunk = playlist_names(ps.remove(i));
        assert(shrunk =~= ns.remove(i));
        assert forall|a: int, b: int| 0 <= a < b < shrunk.len() implies shrunk[a] != shrunk[b] by {
            let a2 = if a < i { a } else { a + 1 };
            let b2 = if b < i { b } else { b + 1 };
            assert(shrunk[a] == ns[a2]);
            assert(shrunk[b] == ns[b2]);
        }
    }
}

/// The notes after setting `note` for `path` (a blank note clears it).
pub open spec fn noted(n: Seq<(Seq<char>, Seq<char>)>, path: Seq<char>, note: Seq<char>) -> Seq<(Seq<char>, Seq<char>)> {
    if trim(note).len() == 0 {
        without_key(n, path)
    } else {
        without_key(n, path).push((path, note))
    }
}

/// The saved searches after saving `query` under `name`.
pub open spec fn saved(s: Seq<(Seq<char>, Seq<char>)>, name: Seq<char>, query: Seq<char>) -> Seq<(Seq<char>, Seq<char>)> {
    match pair_index(s, name) {
        Some(i) => s.update(i, (name, query)),
        None => s.push((name, query)),
    }
}

/// The saved searches after deleting the one named `name`.
pub open spec fn unsaved(s: Seq<(Seq<char>, Seq<char>)>, name: Seq<char>) -> Seq<(Seq<char>, Seq<char>)> {
    match pair_index(s, name) {
        Some(i) => s.remove(i),
        None => s,
    }
}

impl ScriptVault {
    /// Assemble a vault from a configuration, an index built from its roots,
    /// and the user's state.
    pub fn from_parts(config: Config, index: Index, state: State) -> (v: Self)
        ensures
            v@ == (VaultView { config: config@, entries: index@, state: state@ }),
    {
        ScriptVault { config, index, state }
    }

    /// Fuzzy-search the index (see [`Index::search`]).
    pub fn search(&self, query: &str) -> (r: Vec<SearchResult>)
        ensures
            trim(query@).len() == 0 ==> arranged(
                results_view(r@),
                all_hits(self@.entries),
                all_hits(self@.entries).map_values(|h: ResultView| name_path_key(h)),
            ),
            trim(query@).len() > 0 ==> arranged(
                results_view(r@),
                search_hits(self@.entries, trim(query@)),
                search_hits(self@.entries, trim(query@)).map_values(|h: ResultView| tier_key(h)),
            ),
    {
        self.index.search(query)
    }

    /// All indexed entries.
    pub fn all(&self) -> (r: &[ScriptEntry])
        ensures
            entries_view(r@) == self@.entries,
    {
        self.index.entries()
    }

    /// The index.
    pub fn index(&self) -> (r: &Index)
        ensures
            r@ == self@.entries,
    {
        &self.index
    }

    /// Replace the index with one rebuilt from the roots.
    pub fn reload_with(&mut self, index: Index)
        ensures
            final(self)@ == (VaultView { entries: index@, ..old(self)@ }),
    {
        self.index = index;
    }

    /// The configuration.
    pub fn config(&self) -> (r: &Config)
        ensures
            r@ == self@.config,
    {
        &self.config
    }

    /// The state, for persisting it.
    pub fn state(&self) -> (r: &State)
        ensures
            r@ == self@.state,
    {
        &self.state
    }

    /// Run a structured query (see [`run`]).
    pub fn query<F: Fn(&State, u64, &SearchResult) -> RankInput>(&self, query: &Query, now: u64, rank_input: F) -> (r: Vec<SearchResult>)
        requires
            words(query@.text).len() <= 0x1_0000_0000,
            forall|st: &State, t: u64, res: &SearchResult| rank_input.requires((st, t, res)),
        ensures
            exists|idx: &Index, st: &State|
                idx@ == self@.entries && st@ == self@.state && #[trigger] ran_as(r@, idx, query@, st, now, rank_input),
    {
        run(&self.index, &self.state, query, now, rank_input)
    }

    /// The browse view: the empty query.
    pub fn browse<F: Fn(&State, u64, &SearchResult) -> RankInput>(&self, now: u64, rank_input: F) -> (r: Vec<SearchResult>)
        requires
            forall|st: &State, t: u64, res: &SearchResult| rank_input.requires((st, t, res)),
        ensures
            exists|idx: &Index, st: &State|
                idx@ == self@.entries && st@ == self@.state && #[trigger] ran_as(r@, idx, browse_query(), st, now, rank_input),
    {
        let q = Query::default();
        proof {
            crate::text::lemma_words_empty(q@.text);
        }
        run(&self.index, &self.state, &q, now, rank_input)
    }

    /// Whether `path` is favorited.
    pub fn is_favorite(&self, path: &str) -> (r: bool)
        ensures
            r == self@.state.favorites.contains(path@),
    {
        self.state.is_favorite(path)
    }

    /// Toggle a favorite; returns the new status.
    pub fn toggle_favorite(&mut self, path: &str) -> (now_fav: bool)
        ensures
            now_fav == !old(self)@.state.favorites.contains(path@),
            final(self)@ == (VaultView {
                state: with_favorites(old(self)@.state, toggled(old(self)@.state.favorites, path@)),
                ..old(self)@
            }),
    {
        self.state.toggle_favorite(path)
    }

    /// Recently run scripts, newest first.
    pub fn recents(&self) -> (r: &[RecentEntry])
        ensures
            crate::state::recents_view(r@) == self@.state.recents,
    {
        self.state.recents.as_slice()
    }

    /// The run-history hint of `path` at time `now`, if it was ever run.
    pub fn run_hint_for(&self, path: &str, now: u64) -> (r: Option<String>)
        ensures
            opt_view(r) == match recent_index(self@.state.recents, path@) {
                Some(i) => run_hint_of(self@.state.recents[i], now),
                None => None,
            },
    {
        match self.state.recent_position_of(path) {
            Some(i) => self.state.recents[i].run_hint(now),
            None => None,
        }
    }

    /// All playlists.
    pub fn playlists(&self) -> (r: &[Playlist])
        ensures
            crate::state::playlists_view(r@) == self@.state.playlists,
    {
        self.state.playlists.as_slice()
    }

    /// The playlist named `name`.
    pub fn playlist_named(&self, name: &str) -> (r: Option<&Playlist>)
        ensures
            match playlist_index(self@.state.playlists, name@) {
                Some(i) => r matches Some(p) && p@ == self@.state.playlists[i],
                None => r is None,
            },
    {
        self.state.playlist_named(name)
    }

    /// Create an empty playlist unless one has the name; true if created.
    pub fn create_playlist(&mut self, name: &str) -> (created: bool)
        ensures
            created == (playlist_index(old(self)@.state.playlists, name@) is None),
            final(self)@ == (VaultView {
                state: with_playlists(
                    old(self)@.state,
                    if created {
                        old(self)@.state.playlists.push(PlaylistView { name: name@, paths: seq![] })
                    } else {
                        old(self)@.state.playlists
                    },
                ),
                ..old(self)@
            }),
    {
        self.state.create_playlist(name)
    }

    /// Delete the playlist named `name`; true if there was one.
    pub fn delete_playlist(&mut self, name: &str) -> (removed: bool)
        ensures
            removed == (playlist_index(old(self)@.state.playlists, name@) is Some),
            final(self)@ == (VaultView {
                state: with_playlists(
                    old(self)@.state,
                    match playlist_index(old(self)@.state.playlists, name@) {
                        Some(i) => old(self)@.state.playlists.remove(i),
                        None => old(self)@.state.playlists,
                    },
                ),
                ..old(self)@
            }),
    {
        self.state.delete_playlist(name)
    }

    /// Add `path` to the playlist named `name`; true if there is one.
    pub fn add_to_playlist(&mut self, name: &str, path: &str) -> (found: bool)
        ensures
            found == (playlist_index(old(self)@.state.playlists, name@) is Some),
            final(self)@ == (VaultView {
                state: with_playlists(old(self)@.state, added_to(old(self)@.state.playlists, name@, path@)),
                ..old(self)@
            }),
    {
        self.state.add_to_playlist(name, path)
    }

    /// Remove `path` from the playlist named `name`; true if there is one.
    pub fn remove_from_playlist(&mut self, name: &str, path: &str) -> (found: bool)
        ensures
            found == (playlist_index(old(self)@.state.playlists, name@) is Some),
            final(self)@ == (VaultView {
                state: with_playlists(old(self)@.state, removed_from(old(self)@.state.playlists, name@, path@)),
                ..old(self)@
            }),
    {
        self.state.remove_from_playlist(name, path)
    }

    /// The note of `path`, if any.
    pub fn note_for(&self, path: &str) -> (r: Option<&str>)
        ensures
            match r {
                Some(s) => pair_lookup(self@.state.notes, path@) == Some(s@),
                None => pair_lookup(self@.state.notes, path@) is None,
            },
    {
        self.state.note_for(path)
    }

    /// Set the note of `path`; a blank note clears it.
    pub fn set_note(&mut self, path: &str, note: &str)
        ensures
            final(self)@ == (VaultView {
                state: with_notes(old(self)@.state, noted(old(self)@.state.notes, path@, note@)),
                ..old(self)@
            }),
    {
        self.state.set_note(path, note)
    }

    /// Whether a run of `path` can be counted.
    pub fn can_record(&self, path: &str) -> (r: bool)
        ensures
            r == can_count(self@.state.recents, path@),
    {
        self.state.can_record(path)
    }

    /// Record a run of `path` at time `now`.
    pub fn record_run_at(&mut self, path: &str, exit: Option<i32>, output: Option<String>, now: u64)
        requires
            can_count(old(self)@.state.recents, path@),
        ensures
            final(self)@ == (VaultView {
                state: with_recents(
                    old(self)@.state,
                    recorded(old(self)@.state.recents, path@, exit, opt_view(output), now),
                ),
                ..old(self)@
            }),
    {
        self.state.record_run_at(path, exit, output, now)
    }

    /// Record a run of `path` now, with no exit code or output.
    pub fn record_run(&mut self, path: &str)
        requires
            can_count(old(self)@.state.recents, path@),
        ensures
            exists|now: u64|
                final(self)@ == (VaultView {
                    state: with_recents(old(self)@.state, #[trigger] recorded(old(self)@.state.recents, path@, None, None, now)),
                    ..old(self)@
                }),
    {
        self.state.record_run(path)
    }

    /// Record a run of `path` now, with its exit code and output.
    pub fn record_run_with_status(&mut self, path: &str, exit: Option<i32>, output: Option<String>)
        requires
            can_count(old(self)@.state.recents, path@),
        ensures
            exists|now: u64|
                final(self)@ == (VaultView {
                    state: with_recents(
                        old(self)@.state,
                        #[trigger] recorded(old(self)@.state.recents, path@, exit, opt_view(output), now),
                    ),
                    ..old(self)@
                }),
    {
        self.state.record_run_with_status(path, exit, output)
    }

    /// Save `query` under `name`, replacing a search of that name.
    pub fn save_search(&mut self, name: &str, query: &str)
        ensures
            final(self)@ == (VaultView {
                state: with_searches(old(self)@.state, saved(old(self)@.state.saved_searches, name@, query@)),
                ..old(self)@
            }),
    {
        self.state.save_search(name, query)
    }

    /// The names of the saved searches, in insertion order.
    pub fn list_saved_searches(&self) -> (names: Vec<&str>)
        ensures
            names@.len() == self@.state.saved_searches.len(),
            forall|k: int| 0 <= k < names@.len() ==> #[trigger] names@[k]@ == self@.state.saved_searches[k].0,
    {
        self.state.list_saved_searches()
    }

    /// The query saved under `name`.
    pub fn get_saved_search(&self, name: &str) -> (r: Option<&str>)
        ensures
            match r {
                Some(q) => pair_lookup(self@.state.saved_searches, name@) == Some(q@),
                None => pair_lookup(self@.state.saved_searches, name@) is None,
            },
    {
        self.state.get_saved_search(name)
    }

    /// Delete the search saved under `name`; true if there was one.
    pub fn delete_saved_search(&mut self, name: &str) -> (removed: bool)
        ensures
            removed == (pair_index(old(self)@.state.saved_searches, name@) is Some),
            final(self)@ == (VaultView {
                state: with_searches(old(self)@.state, unsaved(old(self)@.state.saved_searches, name@)),
                ..old(self)@
            }),
    {
        self.state.delete_saved_search(name)
    }
}

} // verus!
