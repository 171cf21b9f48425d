//! Persisted user state: favorites, recents, playlists, notes and saved
//! searches. Mutators change the in-memory value only; persisting it is the
//! caller's job.

use vstd::prelude::*;
use core::time::Duration;
use std::time::{SystemTime, SystemTimeError};
use crate::actions::duration_secs;
use crate::text::{
    append, append_lit, chars_of, chars_of_string, copy_opt_string, copy_string, dec, dec_int,
    opt_view, push_dec, push_dec_i32, str_eq, string_of, strs_view, trim_str, trim,
};

verus! {

/// Cap on a stored output snippet, in UTF-8 bytes.
pub const MAX_OUTPUT_BYTES: usize = 4096;

/// Cap on how many recent entries are retained, newest first.
pub const MAX_RECENTS: usize = 200;

/// Index of the first element of `s` equal to `x`.
pub open spec fn first_eq<A>(s: Seq<A>, x: A) -> Option<int>
    decreases s.len(),
{
    if s.len() == 0 {
        None
    } else if s[0] == x {
        Some(0)
    } else {
        match first_eq(s.drop_first(), x) {
            Some(i) => Some(i + 1),
            None => None,
        }
    }
}

pub proof fn lemma_first_eq<A>(s: Seq<A>, x: A, k: int)
    requires
        0 <= k <= s.len(),
        forall|j: int| 0 <= j < k ==> s[j] != x,
    ensures
        k < s.len() && s[k] == x ==> first_eq(s, x) == Some(k),
        k == s.len() ==> first_eq(s, x) is None,
    decreases k,
{
    if k > 0 {
        let t = s.drop_first();
        assert forall|j: int| 0 <= j < k - 1 implies t[j] != x by {
            assert(t[j] == s[j + 1]);
        }
        if k < s.len() {
            assert(t[k - 1] == s[k]);
        }
        lemma_first_eq(t, x, k - 1);
    }
}

pub proof fn lemma_first_eq_bounds<A>(s: Seq<A>, x: A)
    ensures
        first_eq(s, x) matches Some(i) ==> 0 <= i < s.len() && s[i] == x && forall|j: int|
            0 <= j < i ==> s[j] != x,
        first_eq(s, x) is None ==> !s.contains(x),
    decreases s.len(),
{
    if s.len() > 0 {
        lemma_first_eq_bounds(s.drop_first(), x);
        if s[0] != x {
            if let Some(i) = first_eq(s.drop_first(), x) {
                assert forall|j: int| 0 <= j < i + 1 implies s[j] != x by {
                    if j > 0 {
                        assert(s[j] == s.drop_first()[j - 1]);
                    }
                }
            }
            if first_eq(s.drop_first(), x) is None {
                if s.contains(x) {
                    let k = choose|k: int| 0 <= k < s.len() && s[k] == x;
                    assert(s.drop_first()[k - 1] == x);
                }
            }
        }
    }
}

/// Position of `p` among `v`, by text.
pub fn position_of(v: &Vec<String>, p: &str) -> (r: Option<usize>)
    ensures
        match r {
            Some(i) => first_eq(strs_view(v@), p@) == Some(i as int) && i < v.len(),
            None => first_eq(strs_view(v@), p@) is None,
        },
{
    let mut i: usize = 0;
    while i < v.len()
        invariant
            i <= v.len(),
            forall|j: int| 0 <= j < i ==> strs_view(v@)[j] != p@,
        decreases v.len() - i,
    {
        if str_eq(v[i].as_str(), p) {
            proof {
                lemma_first_eq(strs_view(v@), p@, i as int);
            }
            return Some(i);
        }
        i += 1;
    }
    proof {
        lemma_first_eq(strs_view(v@), p@, i as int);
    }
    None
}

// ---------------------------------------------------------------------------
// Views
// ---------------------------------------------------------------------------

/// One recently run script.
#[derive(Debug, Clone, PartialEq, Eq)]
pub struct RecentEntry {
    pub path: String,
    /// How many times it has been run.
    pub count: u64,
    /// Last run time, Unix epoch seconds.
    pub last_run: u64,
    /// Exit code of the last run, if reported.
    pub last_exit: Option<i32>,
    /// Bounded output of the last run, if captured.
    pub last_output: Option<String>,
}

/// The mathematical view of a [`RecentEntry`].
pub struct RecentView {
    pub path: Seq<char>,
    pub count: u64,
    pub last_run: u64,
    pub last_exit: Option<i32>,
    pub last_output: Option<Seq<char>>,
}

impl View for RecentEntry {
    type V = RecentView;

    open spec fn view(&self) -> RecentView {
        RecentView {
            path: self.path@,
            count: self.count,
            last_run: self.last_run,
            last_exit: self.last_exit,
            last_output: opt_view(self.last_output),
        }
    }
}

/// A named group of script paths.
#[derive(Debug, Clone, PartialEq, Eq)]
pub struct Playlist {
    pub name: String,
    pub paths: Vec<String>,
}

/// The mathematical view of a [`Playlist`].
pub struct PlaylistView {
    pub name: Seq<char>,
    pub paths: Seq<Seq<char>>,
}

impl View for Playlist {
    type V = PlaylistView;

    open spec fn view(&self) -> PlaylistView {
        PlaylistView { name: self.name@, paths: strs_view(self.paths@) }
    }
}

/// The persisted user state.
#[derive(Debug, Clone, PartialEq, Eq)]
pub struct State {
    /// Favorited script paths.
    pub favorites: Vec<String>,
    /// Recently run scripts, newest first.
    pub recents: Vec<RecentEntry>,
    /// User playlists; names are unique.
    pub playlists: Vec<Playlist>,
    /// Personal notes, as (path, note) pairs; the first pair for a path counts.
    pub notes: Vec<(String, String)>,
    /// Saved searches, as (name, query) pairs in insertion order.
    pub saved_searches: Vec<(String, String)>,
}

/// The mathematical view of a [`State`].
pub struct StateView {
    pub favorites: Seq<Seq<char>>,
    pub recents: Seq<RecentView>,
    pub playlists: Seq<PlaylistView>,
    pub notes: Seq<(Seq<char>, Seq<char>)>,
    pub saved_searches: Seq<(Seq<char>, Seq<char>)>,
}

/// The views of string pairs.
pub open spec fn pairs_view(v: Seq<(String, String)>) -> Seq<(Seq<char>, Seq<char>)> {
    v.map_values(|p: (String, String)| (p.0@, p.1@))
}

/// The views of recent entries.
pub open spec fn recents_view(v: Seq<RecentEntry>) -> Seq<RecentView> {
    v.map_values(|r: RecentEntry| r@)
}

/// The views of playlists.
pub open spec fn playlists_view(v: Seq<Playlist>) -> Seq<PlaylistView> {
    v.map_values(|p: Playlist| p@)
}

impl View for State {
    type V = StateView;

    open spec fn view(&self) -> StateView {
        StateView {
            favorites: strs_view(self.favorites@),
            recents: recents_view(self.recents@),
            playlists: playlists_view(self.playlists@),
            notes: pairs_view(self.notes@),
            saved_searches: pairs_view(self.saved_searches@),
        }
    }
}

impl Default for State {
    fn default() -> (s: Self)
        ensures
            s@.favorites.len() == 0,
            s@.recents.len() == 0,
            s@.playlists.len() == 0,
            s@.notes.len() == 0,
            s@.saved_searches.len() == 0,
    {
        State {
            favorites: Vec::new(),
            recents: Vec::new(),
            playlists: Vec::new(),
            notes: Vec::new(),
            saved_searches: Vec::new(),
        }
    }
}

// ---------------------------------------------------------------------------
// Favorites
// ---------------------------------------------------------------------------

impl State {
    /// True if `path` is currently favorited.
    pub fn is_favorite(&self, path: &str) -> (r: bool)
        ensures
            r == self@.favorites.contains(path@),
    {
        let r = position_of(&self.favorites, path);
        proof {
            lemma_first_eq_bounds(strs_view(self.favorites@), path@);
        }
        r.is_some()
    }

    /// Toggle favorite status; returns the new status. A favorited path is
    /// removed (its first occurrence); otherwise it is appended.
    pub fn toggle_favorite(&mut self, path: &str) -> (now_fav: bool)
        ensures
            now_fav == !old(self)@.favorites.contains(path@),
            match first_eq(old(self)@.favorites, path@) {
                Some(i) => final(self)@.favorites == old(self)@.favorites.remove(i),
                None => final(self)@.favorites == old(self)@.favorites.push(path@),
            },
            final(self)@.recents == old(self)@.recents,
            final(self)@.playlists == old(self)@.playlists,
            final(self)@.notes == old(self)@.notes,
            final(self)@.saved_searches == old(self)@.saved_searches,
    {
        proof {
            lemma_first_eq_bounds(strs_view(self.favorites@), path@);
        }
        match position_of(&self.favorites, path) {
            Some(pos) => {
                let ghost before = self.favorites@;
                self.favorites.remove(pos);
                proof {
                    assert(strs_view(self.favorites@) =~= strs_view(before).remove(pos as int));
                }
                false
            },
            None => {
                let ghost before = self.favorites@;
                self.favorites.push(path.to_string());
                proof {
                    assert(strs_view(self.favorites@) =~= strs_view(before).push(path@));
                }
                true
            },
        }
    }
}

/// Favoriting is a toggle: after one toggle the status of the path is the
/// opposite of what it was.
pub proof fn lemma_toggle_flips(before: StateView, after: StateView, p: Seq<char>)
    requires
        match first_eq(before.favorites, p) {
            Some(i) => after.favorites == before.favorites.remove(i),
            None => after.favorites == before.favorites.push(p),
        },
        before.favorites.no_duplicates(),
    ensures
        after.favorites.contains(p) == !before.favorites.contains(p),
        after.favorites.no_duplicates(),
{
    lemma_first_eq_bounds(before.favorites, p);
    match first_eq(before.favorites, p) {
        Some(i) => {
            if after.favorites.contains(p) {
                let k = choose|k: int| 0 <= k < after.favorites.len() && after.favorites[k] == p;
                if k < i {
                    assert(before.favorites[k] == p);
                } else {
                    assert(before.favorites[k + 1] == p);
                }
            }
            assert forall|a: int, b: int|
                0 <= a < b < after.favorites.len() implies after.favorites[a] != after.favorites[b] by {
                let a2 = if a < i { a } else { a + 1 };
                let b2 = if b < i { b } else { b + 1 };
                assert(after.favorites[a] == before.favorites[a2]);
                assert(after.favorites[b] == before.favorites[b2]);
            }
        },
        None => {
            assert(after.favorites[before.favorites.len() as int] == p);
            assert forall|a: int, b: int|
                0 <= a < b < after.favorites.len() implies after.favorites[a] != after.favorites[b] by {
                if b == before.favorites.len() {
                    assert(before.favorites[a] != p);
                }
            }
        },
    }
}

// ---------------------------------------------------------------------------
// Recents
// ---------------------------------------------------------------------------

/// The number of UTF-8 bytes a character takes.
pub open spec fn char_width(c: char) -> nat {
    vstd::utf8::encode_scalar(c as u32).len()
}

fn char_width_of(c: char) -> (w: usize)
    ensures
        w == char_width(c),
        1 <= w <= 4,
{
    proof {
        vstd::utf8::char_is_scalar(c);
    }
    let v = c as u32;
    if v <= 0x7F {
        1
    } else if v <= 0x7FF {
        2
    } else if v <= 0xFFFF {
        3
    } else {
        4
    }
}

/// Encoding one more character adds its width.
pub proof fn lemma_encode_push(s: Seq<char>, c: char)
    ensures
        vstd::utf8::encode_utf8(s.push(c)) == vstd::utf8::encode_utf8(s) + vstd::utf8::encode_scalar(c as u32),
    decreases s.len(),
{
    if s.len() == 0 {
        let e = Seq::<char>::empty();
        assert(s.push(c).drop_first() =~= e);
        assert(s.push(c)[0] == c);
        assert(vstd::utf8::encode_utf8(e) == Seq::<u8>::empty());
        assert(vstd::utf8::encode_utf8(s) == Seq::<u8>::empty());
        assert(vstd::utf8::encode_utf8(s.push(c)) == vstd::utf8::encode_scalar(c as u32) + vstd::utf8::encode_utf8(e));
        assert(vstd::utf8::encode_utf8(s.push(c)) =~= vstd::utf8::encode_utf8(s) + vstd::utf8::encode_scalar(c as u32));
    } else {
        lemma_encode_push(s.drop_first(), c);
        assert(s.push(c).drop_first() =~= s.drop_first().push(c));
        assert(s.push(c)[0] == s[0]);
        assert(vstd::utf8::encode_utf8(s.push(c)) =~= vstd::utf8::encode_utf8(s) + vstd::utf8::encode_scalar(c as u32));
    }
}

/// The UTF-8 size of the first `k` characters.
pub open spec fn prefix_bytes(o: Seq<char>, k: int) -> nat {
    vstd::utf8::encode_utf8(o.take(k)).len()
}

/// A longer prefix never encodes shorter.
pub proof fn lemma_prefix_bytes_monotonic(o: Seq<char>, i: int, j: int)
    requires
        0 <= i <= j <= o.len(),
    ensures
        prefix_bytes(o, i) <= prefix_bytes(o, j),
    decreases j - i,
{
    if i < j {
        lemma_prefix_bytes_monotonic(o, i, j - 1);
        lemma_encode_push(o.take(j - 1), o[j - 1]);
        assert(o.take(j - 1).push(o[j - 1]) =~= o.take(j));
    }
}

/// The length of the longest character prefix of `o` that fits in
/// [`MAX_OUTPUT_BYTES`] bytes, when all of `o` does not.
pub open spec fn kept_chars(o: Seq<char>) -> int {
    choose|k: int| 0 <= k < o.len() && #[trigger] prefix_bytes(o, k) <= MAX_OUTPUT_BYTES && prefix_bytes(o, k + 1) > MAX_OUTPUT_BYTES
}

/// An output snippet bounded to [`MAX_OUTPUT_BYTES`] UTF-8 bytes: longer text
/// is cut on a character boundary to its longest prefix that fits in the cap,
/// then a marker is added.
pub open spec fn bounded_output(o: Seq<char>) -> Seq<char> {
    if vstd::utf8::encode_utf8(o).len() <= MAX_OUTPUT_BYTES {
        o
    } else {
        o.take(kept_chars(o)) + "… [truncated]"@
    }
}

/// Truncate an output snippet (see [`bounded_output`]).
pub fn bound_output(o: &str) -> (out: String)
    ensures
        out@ == bounded_output(o@),
{
    let nbytes = o.as_bytes().len();
    if nbytes <= MAX_OUTPUT_BYTES {
        return o.to_string();
    }
    let v = chars_of(o);
    let mut used: usize = 0;
    let mut i: usize = 0;
    proof {
        assert(v@.take(0) =~= Seq::<char>::empty());
    }
    while i < v.len() && used + char_width_of(v[i]) <= MAX_OUTPUT_BYTES
        invariant
            i <= v.len(),
            v@ == o@,
            used == prefix_bytes(v@, i as int),
            used <= MAX_OUTPUT_BYTES,
        decreases v.len() - i,
    {
        proof {
            lemma_encode_push(v@.take(i as int), v@[i as int]);
            assert(v@.take(i as int).push(v@[i as int]) =~= v@.take(i + 1));
        }
        used = used + char_width_of(v[i]);
        i += 1;
    }
    proof {
        assert(v@.take(v.len() as int) =~= v@);
        if i < v.len() {
            lemma_encode_push(v@.take(i as int), v@[i as int]);
            assert(v@.take(i as int).push(v@[i as int]) =~= v@.take(i + 1));
        }
        let k = i as int;
        assert(0 <= k < o@.len() && prefix_bytes(o@, k) <= MAX_OUTPUT_BYTES && prefix_bytes(o@, k + 1) > MAX_OUTPUT_BYTES);
        let c = kept_chars(o@);
        if c < k {
            lemma_prefix_bytes_monotonic(o@, c + 1, k);
        } else if c > k {
            lemma_prefix_bytes_monotonic(o@, k + 1, c);
        }
        assert(c == k);
    }
    let mut s = crate::text::slice(&v, 0, i);
    append_lit(&mut s, "… [truncated]");
    proof {
        assert(s@ =~= o@.take(i as int) + "… [truncated]"@);
    }
    string_of(&s)
}

/// Index of the first recent entry for `path`.
pub open spec fn recent_index(rs: Seq<RecentView>, path: Seq<char>) -> Option<int> {
    first_eq(rs.map_values(|r: RecentView| r.path), path)
}

/// The recents after recording a run of `path` at time `now`: any existing
/// entry for the path is removed (its count carried and incremented), the new
/// entry goes to the front, and only the newest [`MAX_RECENTS`] are kept.
pub open spec fn recorded(
    rs: Seq<RecentView>,
    path: Seq<char>,
    exit: Option<i32>,
    output: Option<Seq<char>>,
    now: u64,
) -> Seq<RecentView> {
    let (rest, count) = match recent_index(rs, path) {
        Some(i) => (rs.remove(i), (rs[i].count + 1) as u64),
        None => (rs, 1u64),
    };
    let entry = RecentView {
        path,
        count,
        last_run: now,
        last_exit: exit,
        last_output: match output {
            Some(o) => Some(bounded_output(o)),
            None => None,
        },
    };
    let all = seq![entry] + rest;
    if all.len() > MAX_RECENTS {
        all.take(MAX_RECENTS as int)
    } else {
        all
    }
}

/// Whether a run of `path` can be counted without overflowing its count.
pub open spec fn can_count(rs: Seq<RecentView>, path: Seq<char>) -> bool {
    match recent_index(rs, path) {
        Some(i) => rs[i].count < u64::MAX,
        None => true,
    }
}

/// A point in time read from the system clock.
#[verifier::external_type_specification]
#[verifier::external_body]
pub struct ExSystemTime(SystemTime);

/// The error of a clock reading that lies before the Unix epoch.
#[verifier::external_type_specification]
#[verifier::external_body]
pub struct ExSystemTimeError(SystemTimeError);

/// `SystemTime::now`: the clock's current reading. Nothing is claimed of it.
#[verifier::external_body]
fn system_now() -> SystemTime {
    SystemTime::now()
}

/// `SystemTime::duration_since(UNIX_EPOCH)`: how far `t` lies after the Unix
/// epoch, or an error when it lies before it. Nothing is claimed of the
/// value: a clock reading is opaque here.
#[verifier::external_body]
fn since_epoch(t: &SystemTime) -> Result<Duration, SystemTimeError> {
    t.duration_since(std::time::UNIX_EPOCH)
}

/// The current time, as Unix epoch seconds; 0 when the clock reads before
/// the epoch.
pub(crate) fn now_secs() -> u64 {
    let t = system_now();
    match since_epoch(&t) {
        Ok(d) => duration_secs(&d),
        Err(_) => 0,
    }
}

fn recent_position(rs: &Vec<RecentEntry>, path: &str) -> (r: Option<usize>)
    ensures
        match r {
            Some(i) => recent_index(recents_view(rs@), path@) == Some(i as int),
            None => recent_index(recents_view(rs@), path@) is None,
        },
{
    let ghost ps = recents_view(rs@).map_values(|r: RecentView| r.path);
    let mut i: usize = 0;
    while i < rs.len()
        invariant
            i <= rs.len(),
            ps == recents_view(rs@).map_values(|r: RecentView| r.path),
            forall|j: int| 0 <= j < i ==> ps[j] != path@,
        decreases rs.len() - i,
    {
        proof {
            assert(ps[i as int] == rs@[i as int].path@);
        }
        if str_eq(rs[i].path.as_str(), path) {
            proof {
                lemma_first_eq(ps, path@, i as int);
            }
            return Some(i);
        }
        i += 1;
    }
    proof {
        lemma_first_eq(ps, path@, i as int);
    }
    None
}

impl State {
    /// Index of the recent entry for `path`, if it was ever run.
    pub fn recent_position_of(&self, path: &str) -> (r: Option<usize>)
        ensures
            match r {
                Some(i) => recent_index(self@.recents, path@) == Some(i as int) && i < self.recents.len(),
                None => recent_index(self@.recents, path@) is None,
            },
    {
        let r = recent_position(&self.recents, path);
        proof {
            if let Some(i) = r {
                lemma_first_eq_bounds(self@.recents.map_values(|x: RecentView| x.path), path@);
            }
        }
        r
    }

    /// Whether a run of `path` can be counted without overflow.
    pub fn can_record(&self, path: &str) -> (r: bool)
        ensures
            r == can_count(self@.recents, path@),
    {
        match self.recent_position_of(path) {
            Some(i) => self.recents[i].count < u64::MAX,
            None => true,
        }
    }
}

impl State {
    /// Record a run at time `now` with an optional exit code and output
    /// snippet (see [`recorded`]).
    pub fn record_run_at(&mut self, path: &str, exit: Option<i32>, output: Option<String>, now: u64)
        requires
            can_count(old(self)@.recents, path@),
        ensures
            final(self)@.recents == recorded(old(self)@.recents, path@, exit, opt_view(output), now),
            final(self)@.favorites == old(self)@.favorites,
            final(self)@.playlists == old(self)@.playlists,
            final(self)@.notes == old(self)@.notes,
            final(self)@.saved_searches == old(self)@.saved_searches,
    {
        let ghost rs = recents_view(self.recents@);
        let count = match recent_position(&self.recents, path) {
            Some(pos) => {
                proof {
                    lemma_first_eq_bounds(rs.map_values(|r: RecentView| r.path), path@);
                }
                let old_entry = self.recents.remove(pos);
                proof {
                    assert(recents_view(self.recents@) =~= rs.remove(pos as int));
                }
                old_entry.count + 1
            },
            None => 1,
        };
        let bounded = match &output {
            Some(o) => Some(bound_output(o.as_str())),
            None => None,
        };
        let entry = RecentEntry { path: path.to_string(), count, last_run: now, last_exit: exit, last_output: bounded };
        let ghost rest = recents_view(self.recents@);
        self.recents.insert(0, entry);
        proof {
            assert(recents_view(self.recents@) =~= seq![entry@] + rest);
        }
        self.recents.truncate(MAX_RECENTS);
        proof {
            let all = seq![entry@] + rest;
            if all.len() > MAX_RECENTS {
                assert(recents_view(self.recents@) =~= all.take(MAX_RECENTS as int));
            } else {
                assert(recents_view(self.recents@) =~= all);
            }
        }
    }

    /// Record a run now, with an optional exit code and bounded output. The
    /// time comes from the system clock, so only the shape is stated.
    pub fn record_run_with_status(&mut self, path: &str, exit: Option<i32>, output: Option<String>)
        requires
            can_count(old(self)@.recents, path@),
        ensures
            exists|now: u64| final(self)@.recents == recorded(old(self)@.recents, path@, exit, opt_view(output), now),
            final(self)@.favorites == old(self)@.favorites,
            final(self)@.playlists == old(self)@.playlists,
            final(self)@.notes == old(self)@.notes,
            final(self)@.saved_searches == old(self)@.saved_searches,
    {
        let now = now_secs();
        self.record_run_at(path, exit, output, now);
    }

    /// Record a run now, with no exit code or output.
    pub fn record_run(&mut self, path: &str)
        requires
            can_count(old(self)@.recents, path@),
        ensures
            exists|now: u64| final(self)@.recents == recorded(old(self)@.recents, path@, None, None, now),
            final(self)@.favorites == old(self)@.favorites,
            final(self)@.playlists == old(self)@.playlists,
            final(self)@.notes == old(self)@.notes,
            final(self)@.saved_searches == old(self)@.saved_searches,
    {
        self.record_run_with_status(path, None, None);
    }
}

/// Recording a run puts the script first with its count carried forward, and
/// never lets the list grow past [`MAX_RECENTS`].
pub proof fn lemma_record_run_front(
    rs: Seq<RecentView>,
    path: Seq<char>,
    exit: Option<i32>,
    output: Option<Seq<char>>,
    now: u64,
)
    requires
        rs.len() <= MAX_RECENTS,
        can_count(rs, path),
    ensures
        recorded(rs, path, exit, output, now).len() <= MAX_RECENTS,
        recorded(rs, path, exit, output, now).len() >= 1,
        recorded(rs, path, exit, output, now)[0].path == path,
        recorded(rs, path, exit, output, now)[0].last_run == now,
        recorded(rs, path, exit, output, now)[0].count == match recent_index(rs, path) {
            Some(i) => rs[i].count + 1,
            None => 1,
        },
        recent_index(rs, path) is Some ==> recorded(rs, path, exit, output, now).len() == rs.len(),
{
    lemma_first_eq_bounds(rs.map_values(|r: RecentView| r.path), path);
}

/// The paths of recent entries.
pub open spec fn recent_paths(rs: Seq<RecentView>) -> Seq<Seq<char>> {
    rs.map_values(|r: RecentView| r.path)
}

/// Recording a run never lists a script twice: when every path occurs once
/// before, every path occurs once after.
pub proof fn lemma_recents_stay_distinct(
    rs: Seq<RecentView>,
    path: Seq<char>,
    exit: Option<i32>,
    output: Option<Seq<char>>,
    now: u64,
)
    requires
        recent_paths(rs).no_duplicates(),
    ensures
        recent_paths(recorded(rs, path, exit, output, now)).no_duplicates(),
{
    let ps = recent_paths(rs);
    lemma_first_eq_bounds(ps, path);
    let out = recorded(rs, path, exit, output, now);
    let rest = match recent_index(rs, path) {
        Some(i) => rs.remove(i),
        None => rs,
    };
    let all_paths = seq![path] + recent_paths(rest);
    assert forall|k: int| 0 <= k < recent_paths(rest).len() implies #[trigger] recent_paths(rest)[k] != path by {
        match recent_index(rs, path) {
            Some(i) => {
                let j = if k < i { k } else { k + 1 };
                assert(recent_paths(rest)[k] == ps[j]);
                assert(ps[i] == path);
            },
            None => {
                assert(recent_paths(rest)[k] == ps[k]);
            },
        }
    }
    assert forall|a: int, b: int| 0 <= a < b < recent_paths(rest).len() implies recent_paths(rest)[a]
        != recent_paths(rest)[b] by {
        match recent_index(rs, path) {
            Some(i) => {
                let a2 = if a < i { a } else { a + 1 };
                let b2 = if b < i { b } else { b + 1 };
                assert(recent_paths(rest)[a] == ps[a2]);
                assert(recent_paths(rest)[b] == ps[b2]);
            },
            None => {},
        }
    }
    assert(all_paths.no_duplicates()) by {
        assert forall|a: int, b: int| 0 <= a < b < all_paths.len() implies all_paths[a] != all_paths[b] by {
            if a == 0 {
                assert(all_paths[b] == recent_paths(rest)[b - 1]);
            } else {
                assert(all_paths[a] == recent_paths(rest)[a - 1]);
                assert(all_paths[b] == recent_paths(rest)[b - 1]);
            }
        }
    }
    assert forall|a: int, b: int| 0 <= a < b < recent_paths(out).len() implies recent_paths(out)[a]
        != recent_paths(out)[b] by {
        assert(recent_paths(out)[a] == all_paths[a]);
        assert(recent_paths(out)[b] == all_paths[b]);
    }
}

/// Render an age in seconds as a coarse single-unit string.
pub open spec fn humanized_age(secs: u64) -> Seq<char> {
    if secs <= 4 {
        "now"@
    } else if secs <= 59 {
        dec(secs as nat) + "s"@
    } else if secs < 3600 {
        dec((secs / 60) as nat) + "m"@
    } else if secs < 86400 {
        dec((secs / 3600) as nat) + "h"@
    } else if secs < 604800 {
        dec((secs / 86400) as nat) + "d"@
    } else {
        dec((secs / 604800) as nat) + "w"@
    }
}

/// Render an age in seconds as a coarse single-unit string (`now`, `9s`, `5m`,
/// `2h`, `3d`, `4w`).
pub fn humanize_age(secs: u64) -> (out: Vec<char>)
    ensures
        out@ == humanized_age(secs),
{
    if secs <= 4 {
        return chars_of("now");
    }
    let mut out: Vec<char> = Vec::new();
    if secs <= 59 {
        push_dec(&mut out, secs);
        append_lit(&mut out, "s");
    } else if secs < 3600 {
        push_dec(&mut out, secs / 60);
        append_lit(&mut out, "m");
    } else if secs < 86400 {
        push_dec(&mut out, secs / 3600);
        append_lit(&mut out, "h");
    } else if secs < 604800 {
        push_dec(&mut out, secs / 86400);
        append_lit(&mut out, "d");
    } else {
        push_dec(&mut out, secs / 604800);
        append_lit(&mut out, "w");
    }
    proof {
        assert(Seq::<char>::empty() + dec((secs) as nat) =~= dec(secs as nat));
    }
    out
}

/// `a - b`, or 0 when `b > a`.
pub open spec fn sat_sub(a: u64, b: u64) -> u64 {
    if a >= b {
        (a - b) as u64
    } else {
        0
    }
}

/// The run-history hint of a recent entry at time `now`.
pub open spec fn run_hint_of(r: RecentView, now: u64) -> Option<Seq<char>> {
    if r.count == 0 {
        None
    } else {
        Some("▲"@ + dec(r.count as nat) + "× "@ + humanized_age(sat_sub(now, r.last_run)) + match r.last_exit {
            Some(c) => if c == 0 {
                " ✓"@
            } else {
                " ✗"@
            },
            None => ""@,
        })
    }
}

impl RecentEntry {
    /// A compact run-history hint, e.g. `▲12× 2h ✓` (count, age, status);
    /// `None` with no run history.
    pub fn run_hint(&self, now: u64) -> (r: Option<String>)
        ensures
            opt_view(r) == run_hint_of(self@, now),
    {
        if self.count == 0 {
            return None;
        }
        let age_secs = if now >= self.last_run {
            now - self.last_run
        } else {
            0
        };
        let mut out = chars_of("▲");
        push_dec(&mut out, self.count);
        append_lit(&mut out, "× ");
        let age = humanize_age(age_secs);
        append(&mut out, &age);
        match self.last_exit {
            Some(c) => {
                if c == 0 {
                    append_lit(&mut out, " ✓");
                } else {
                    append_lit(&mut out, " ✗");
                }
            },
            None => {
                append_lit(&mut out, "");
            },
        }
        Some(string_of(&out))
    }
}

// ---------------------------------------------------------------------------
// Playlists
// ---------------------------------------------------------------------------

/// Index of the first playlist named `name`.
pub open spec fn playlist_index(ps: Seq<PlaylistView>, name: Seq<char>) -> Option<int> {
    first_eq(ps.map_values(|p: PlaylistView| p.name), name)
}

fn playlist_position(ps: &Vec<Playlist>, name: &str) -> (r: Option<usize>)
    ensures
        match r {
            Some(i) => playlist_index(playlists_view(ps@), name@) == Some(i as int) && i < ps.len(),
            None => playlist_index(playlists_view(ps@), name@) is None,
        },
{
    let ghost ns = playlists_view(ps@).map_values(|p: PlaylistView| p.name);
    let mut i: usize = 0;
    while i < ps.len()
        invariant
            i <= ps.len(),
            ns == playlists_view(ps@).map_values(|p: PlaylistView| p.name),
            forall|j: int| 0 <= j < i ==> ns[j] != name@,
        decreases ps.len() - i,
    {
        proof {
            assert(ns[i as int] == ps@[i as int].name@);
        }
        if str_eq(ps[i].name.as_str(), name) {
            proof {
                lemma_first_eq(ns, name@, i as int);
            }
            return Some(i);
        }
        i += 1;
    }
    proof {
        lemma_first_eq(ns, name@, i as int);
    }
    None
}

impl State {
    /// Create an empty playlist; `false` (and no change) if the name exists.
    pub fn create_playlist(&mut self, name: &str) -> (created: bool)
        ensures
            created == (playlist_index(old(self)@.playlists, name@) is None),
            created ==> final(self)@.playlists == old(self)@.playlists.push(
                PlaylistView { name: name@, paths: seq![] },
            ),
            !created ==> final(self)@.playlists == old(self)@.playlists,
            final(self)@.favorites == old(self)@.favorites,
            final(self)@.recents == old(self)@.recents,
            final(self)@.notes == old(self)@.notes,
            final(self)@.saved_searches == old(self)@.saved_searches,
    {
        if playlist_position(&self.playlists, name).is_some() {
            return false;
        }
        let p = Playlist { name: name.to_string(), paths: Vec::new() };
        let ghost before = playlists_view(self.playlists@);
        self.playlists.push(p);
        proof {
            assert(p@.paths =~= Seq::<Seq<char>>::empty());
            assert(playlists_view(self.playlists@) =~= before.push(p@));
        }
        true
    }

    /// Delete a playlist by name; `true` if one was removed.
    pub fn delete_playlist(&mut self, name: &str) -> (removed: bool)
        ensures
            removed == (playlist_index(old(self)@.playlists, name@) is Some),
            match playlist_index(old(self)@.playlists, name@) {
                Some(i) => final(self)@.playlists == old(self)@.playlists.remove(i),
                None => final(self)@.playlists == old(self)@.playlists,
            },
            final(self)@.favorites == old(self)@.favorites,
            final(self)@.recents == old(self)@.recents,
            final(self)@.notes == old(self)@.notes,
            final(self)@.saved_searches == old(self)@.saved_searches,
    {
        match playlist_position(&self.playlists, name) {
            Some(pos) => {
                let ghost before = playlists_view(self.playlists@);
                self.playlists.remove(pos);
                proof {
                    assert(playlists_view(self.playlists@) =~= before.remove(pos as int));
                }
                true
            },
            None => false,
        }
    }

    /// Add a path to a playlist (idempotent); `true` if the playlist exists.
    pub fn add_to_playlist(&mut self, name: &str, path: &str) -> (found: bool)
        ensures
            found == (playlist_index(old(self)@.playlists, name@) is Some),
            match playlist_index(old(self)@.playlists, name@) {
                Some(i) => final(self)@.playlists == old(self)@.playlists.update(
                    i,
                    PlaylistView {
                        name: old(self)@.playlists[i].name,
                        paths: if old(self)@.playlists[i].paths.contains(path@) {
                            old(self)@.playlists[i].paths
                        } else {
                            old(self)@.playlists[i].paths.push(path@)
                        },
                    },
                ),
                None => final(self)@.playlists == old(self)@.playlists,
            },
            final(self)@.favorites == old(self)@.favorites,
            final(self)@.recents == old(self)@.recents,
            final(self)@.notes == old(self)@.notes,
            final(self)@.saved_searches == old(self)@.saved_searches,
    {
        match playlist_position(&self.playlists, name) {
            Some(pos) => {
                let ghost before = playlists_view(self.playlists@);
                let mut pl = self.playlists.remove(pos);
                let found = position_of(&pl.paths, path);
                proof {
                    lemma_first_eq_bounds(strs_view(pl.paths@), path@);
                }
                if found.is_none() {
                    let ghost bp = strs_view(pl.paths@);
                    pl.paths.push(path.to_string());
                    proof {
                        assert(strs_view(pl.paths@) =~= bp.push(path@));
                    }
                }
                self.playlists.insert(pos, pl);
                proof {
                    assert(playlists_view(self.playlists@) =~= before.update(pos as int, pl@));
                }
                true
            },
            None => false,
        }
    }

    /// Remove a path from a playlist (its first occurrence, if present);
    /// `true` if the playlist exists.
    pub fn remove_from_playlist(&mut self, name: &str, path: &str) -> (found: bool)
        ensures
            found == (playlist_index(old(self)@.playlists, name@) is Some),
            match playlist_index(old(self)@.playlists, name@) {
                Some(i) => final(self)@.playlists == old(self)@.playlists.update(
                    i,
                    PlaylistView {
                        name: old(self)@.playlists[i].name,
                        paths: match first_eq(old(self)@.playlists[i].paths, path@) {
                            Some(k) => old(self)@.playlists[i].paths.remove(k),
                            None => old(self)@.playlists[i].paths,
                        },
                    },
                ),
                None => final(self)@.playlists == old(self)@.playlists,
            },
            final(self)@.favorites == old(self)@.favorites,
            final(self)@.recents == old(self)@.recents,
            final(self)@.notes == old(self)@.notes,
            final(self)@.saved_searches == old(self)@.saved_searches,
    {
        match playlist_position(&self.playlists, name) {
            Some(pos) => {
                let ghost before = playlists_view(self.playlists@);
                let mut pl = self.playlists.remove(pos);
                match position_of(&pl.paths, path) {
                    Some(k) => {
                        let ghost bp = strs_view(pl.paths@);
                        pl.paths.remove(k);
                        proof {
                            assert(strs_view(pl.paths@) =~= bp.remove(k as int));
                        }
                    },
                    None => {},
                }
                self.playlists.insert(pos, pl);
                proof {
                    assert(playlists_view(self.playlists@) =~= before.update(pos as int, pl@));
                }
                true
            },
            None => false,
        }
    }

    /// The playlist named `name`, if any.
    pub fn playlist_named(&self, name: &str) -> (r: Option<&Playlist>)
        ensures
            match playlist_index(self@.playlists, name@) {
                Some(i) => r matches Some(p) && p@ == self@.playlists[i],
                None => r is None,
            },
    {
        match playlist_position(&self.playlists, name) {
            Some(i) => Some(&self.playlists[i]),
            None => None,
        }
    }
}

// ---------------------------------------------------------------------------
// Notes
// ---------------------------------------------------------------------------

/// Index of the first pair whose key is `k`.
pub open spec fn pair_index(v: Seq<(Seq<char>, Seq<char>)>, k: Seq<char>) -> Option<int> {
    first_eq(v.map_values(|p: (Seq<char>, Seq<char>)| p.0), k)
}

/// The value of the first pair keyed `k`.
pub open spec fn pair_lookup(v: Seq<(Seq<char>, Seq<char>)>, k: Seq<char>) -> Option<Seq<char>> {
    match pair_index(v, k) {
        Some(i) => Some(v[i].1),
        None => None,
    }
}

/// The pairs not keyed `k`, in order.
pub open spec fn without_key(v: Seq<(Seq<char>, Seq<char>)>, k: Seq<char>) -> Seq<(Seq<char>, Seq<char>)>
    decreases v.len(),
{
    if v.len() == 0 {
        seq![]
    } else {
        let prev = without_key(v.drop_last(), k);
        if v.last().0 == k {
            prev
        } else {
            prev.push(v.last())
        }
    }
}

fn pair_position(v: &Vec<(String, String)>, k: &str) -> (r: Option<usize>)
    ensures
        match r {
            Some(i) => pair_index(pairs_view(v@), k@) == Some(i as int) && i < v.len(),
            None => pair_index(pairs_view(v@), k@) is None,
        },
{
    let ghost ks = pairs_view(v@).map_values(|p: (Seq<char>, Seq<char>)| p.0);
    let mut i: usize = 0;
    while i < v.len()
        invariant
            i <= v.len(),
            ks == pairs_view(v@).map_values(|p: (Seq<char>, Seq<char>)| p.0),
            forall|j: int| 0 <= j < i ==> ks[j] != k@,
        decreases v.len() - i,
    {
        proof {
            assert(ks[i as int] == v@[i as int].0@);
        }
        if str_eq(v[i].0.as_str(), k) {
            proof {
                lemma_first_eq(ks, k@, i as int);
            }
            return Some(i);
        }
        i += 1;
    }
    proof {
        lemma_first_eq(ks, k@, i as int);
    }
    None
}

impl State {
    /// Set a personal note for a path, replacing any earlier one; a blank note
    /// clears it.
    pub fn set_note(&mut self, path: &str, note: &str)
        ensures
            final(self)@.notes == if trim(note@).len() == 0 {
                without_key(old(self)@.notes, path@)
            } else {
                without_key(old(self)@.notes, path@).push((path@, note@))
            },
            final(self)@.favorites == old(self)@.favorites,
            final(self)@.recents == old(self)@.recents,
            final(self)@.playlists == old(self)@.playlists,
            final(self)@.saved_searches == old(self)@.saved_searches,
    {
        let mut kept: Vec<(String, String)> = Vec::new();
        let mut i: usize = 0;
        while i < self.notes.len()
            invariant
                i <= self.notes.len(),
                self.notes == old(self).notes,
                pairs_view(kept@) == without_key(pairs_view(self.notes@).take(i as int), path@),
            decreases self.notes.len() - i,
        {
            proof {
                assert(pairs_view(self.notes@).take(i + 1).drop_last() =~= pairs_view(self.notes@).take(i as int));
                assert(pairs_view(self.notes@).take(i + 1).last() == (self.notes@[i as int].0@, self.notes@[i as int].1@));
            }
            if !str_eq(self.notes[i].0.as_str(), path) {
                let pair = (copy_string(&self.notes[i].0), copy_string(&self.notes[i].1));
                let ghost before = pairs_view(kept@);
                kept.push(pair);
                proof {
                    assert(pairs_view(kept@) =~= before.push((pair.0@, pair.1@)));
                }
            }
            i += 1;
        }
        proof {
            assert(pairs_view(self.notes@).take(self.notes.len() as int) =~= pairs_view(self.notes@));
        }
        let t = trim_str(note);
        if t.len() > 0 {
            let ghost before = pairs_view(kept@);
            kept.push((path.to_string(), note.to_string()));
            proof {
                assert(pairs_view(kept@) =~= before.push((path@, note@)));
            }
        }
        self.notes = kept;
    }

    /// The note for a path, if any.
    pub fn note_for(&self, path: &str) -> (r: Option<&str>)
        ensures
            match r {
                Some(s) => pair_lookup(self@.notes, path@) == Some(s@),
                None => pair_lookup(self@.notes, path@) is None,
            },
    {
        match pair_position(&self.notes, path) {
            Some(i) => Some(self.notes[i].1.as_str()),
            None => None,
        }
    }
}

/// Every pair left by `without_key` has a different key, and the pairs with
/// other keys are unaffected for lookup.
pub proof fn lemma_without_key(v: Seq<(Seq<char>, Seq<char>)>, k: Seq<char>, j: Seq<char>)
    ensures
        pair_lookup(without_key(v, k), k) is None,
        j != k ==> pair_lookup(without_key(v, k), j) == pair_lookup(v, j),
    decreases v.len(),
{
    let w = without_key(v, k);
    let ks = w.map_values(|p: (Seq<char>, Seq<char>)| p.0);
    if v.len() == 0 {
        lemma_first_eq(ks, k, 0);
        lemma_first_eq(ks, j, 0);
        lemma_first_eq(v.map_values(|p: (Seq<char>, Seq<char>)| p.0), j, 0);
    } else {
        lemma_without_key(v.drop_last(), k, j);
        let prev = without_key(v.drop_last(), k);
        let pks = prev.map_values(|p: (Seq<char>, Seq<char>)| p.0);
        lemma_first_eq_bounds(pks, k);
        lemma_first_eq_bounds(ks, k);
        if v.last().0 != k {
            assert(ks =~= pks.push(v.last().0));
            if ks.contains(k) {
                let i = choose|i: int| 0 <= i < ks.len() && ks[i] == k;
                if i < pks.len() {
                    assert(pks[i] == k);
                }
            }
        }
        if j != k {
            lemma_lookup_push_drop(v, j);
            if v.last().0 != k {
                assert(w.drop_last() =~= prev);
                lemma_lookup_push_drop(w, j);
            }
        }
    }
}

/// Lookup in `v` from lookup in `v` without its last pair.
pub proof fn lemma_lookup_push_drop(v: Seq<(Seq<char>, Seq<char>)>, j: Seq<char>)
    requires
        v.len() > 0,
    ensures
        pair_lookup(v, j) == match pair_lookup(v.drop_last(), j) {
            Some(x) => Some(x),
            None => if v.last().0 == j {
                Some(v.last().1)
            } else {
                None
            },
        },
{
    let ks = v.map_values(|p: (Seq<char>, Seq<char>)| p.0);
    let pks = v.drop_last().map_values(|p: (Seq<char>, Seq<char>)| p.0);
    assert(pks =~= ks.drop_last());
    lemma_first_eq_bounds(pks, j);
    lemma_first_eq_bounds(ks, j);
    match first_eq(pks, j) {
        Some(i) => {
            assert forall|x: int| 0 <= x < i implies ks[x] != j by {
                assert(ks[x] == pks[x]);
            }
            lemma_first_eq(ks, j, i);
        },
        None => {
            assert forall|x: int| 0 <= x < pks.len() implies ks[x] != j by {
                assert(ks[x] == pks[x]);
                assert(!pks.contains(j));
            }
            lemma_first_eq(ks, j, pks.len() as int);
        },
    }
}

/// A note set for a path is what `note_for` reads back; a blank note clears
/// it; notes of other paths are untouched.
pub proof fn lemma_note_set_get(v: Seq<(Seq<char>, Seq<char>)>, p: Seq<char>, note: Seq<char>, q: Seq<char>)
    ensures
        trim(note).len() != 0 ==> pair_lookup(without_key(v, p).push((p, note)), p) == Some(note),
        trim(note).len() == 0 ==> pair_lookup(without_key(v, p), p) is None,
        q != p ==> pair_lookup(without_key(v, p).push((p, note)), q) == pair_lookup(v, q),
        q != p ==> pair_lookup(without_key(v, p), q) == pair_lookup(v, q),
{
    lemma_without_key(v, p, q);
    let w = without_key(v, p);
    assert(w.push((p, note)).drop_last() =~= w);
    lemma_lookup_push_drop(w.push((p, note)), p);
    lemma_lookup_push_drop(w.push((p, note)), q);
}

// ---------------------------------------------------------------------------
// Saved searches
// ---------------------------------------------------------------------------

impl State {
    /// Save a query under a name, overwriting an existing entry of that name
    /// in place, else appending.
    pub fn save_search(&mut self, name: &str, query: &str)
        ensures
            final(self)@.saved_searches == match pair_index(old(self)@.saved_searches, name@) {
                Some(i) => old(self)@.saved_searches.update(i, (name@, query@)),
                None => old(self)@.saved_searches.push((name@, query@)),
            },
            final(self)@.favorites == old(self)@.favorites,
            final(self)@.recents == old(self)@.recents,
            final(self)@.playlists == old(self)@.playlists,
            final(self)@.notes == old(self)@.notes,
    {
        let pair = (name.to_string(), query.to_string());
        let ghost before = pairs_view(self.saved_searches@);
        match pair_position(&self.saved_searches, name) {
            Some(pos) => {
                self.saved_searches.set(pos, pair);
                proof {
                    assert(pairs_view(self.saved_searches@) =~= before.update(pos as int, (name@, query@)));
                }
            },
            None => {
                self.saved_searches.push(pair);
                proof {
                    assert(pairs_view(self.saved_searches@) =~= before.push((name@, query@)));
                }
            },
        }
    }

    /// Saved-search names in insertion order.
    pub fn list_saved_searches(&self) -> (names: Vec<&str>)
        ensures
            names@.len() == self@.saved_searches.len(),
            forall|k: int| 0 <= k < names@.len() ==> #[trigger] names@[k]@ == self@.saved_searches[k].0,
    {
        let mut names: Vec<&str> = Vec::new();
        let mut i: usize = 0;
        while i < self.saved_searches.len()
            invariant
                i <= self.saved_searches.len(),
                names@.len() == i,
                forall|k: int| 0 <= k < i ==> #[trigger] names@[k]@ == self@.saved_searches[k].0,
            decreases self.saved_searches.len() - i,
        {
            names.push(self.saved_searches[i].0.as_str());
            i += 1;
        }
        names
    }

    /// The query saved under a name.
    pub fn get_saved_search(&self, name: &str) -> (r: Option<&str>)
        ensures
            match r {
                Some(q) => pair_lookup(self@.saved_searches, name@) == Some(q@),
                None => pair_lookup(self@.saved_searches, name@) is None,
            },
    {
        match pair_position(&self.saved_searches, name) {
            Some(i) => Some(self.saved_searches[i].1.as_str()),
            None => None,
        }
    }

    /// Delete a saved search by name; `true` if one was removed.
    pub fn delete_saved_search(&mut self, name: &str) -> (removed: bool)
        ensures
            removed == (pair_index(old(self)@.saved_searches, name@) is Some),
            final(self)@.saved_searches == match pair_index(old(self)@.saved_searches, name@) {
                Some(i) => old(self)@.saved_searches.remove(i),
                None => old(self)@.saved_searches,
            },
            final(self)@.favorites == old(self)@.favorites,
            final(self)@.recents == old(self)@.recents,
            final(self)@.playlists == old(self)@.playlists,
            final(self)@.notes == old(self)@.notes,
    {
        match pair_position(&self.saved_searches, name) {
            Some(pos) => {
                let ghost before = pairs_view(self.saved_searches@);
                self.saved_searches.remove(pos);
                proof {
                    assert(pairs_view(self.saved_searches@) =~= before.remove(pos as int));
                }
                true
            },
            None => false,
        }
    }
}

/// A saved search reads back what was saved under its name.
pub proof fn lemma_saved_search_read_back(v: Seq<(Seq<char>, Seq<char>)>, name: Seq<char>, query: Seq<char>)
    ensures
        pair_lookup(
            match pair_index(v, name) {
                Some(i) => v.update(i, (name, query)),
                None => v.push((name, query)),
            },
            name,
        ) == Some(query),
{
    let ks = v.map_values(|p: (Seq<char>, Seq<char>)| p.0);
    lemma_first_eq_bounds(ks, name);
    match pair_index(v, name) {
        Some(i) => {
            let w = v.update(i, (name, query));
            let wks = w.map_values(|p: (Seq<char>, Seq<char>)| p.0);
            assert forall|j: int| 0 <= j < i implies wks[j] != name by {
                assert(wks[j] == ks[j]);
            }
            lemma_first_eq(wks, name, i);
        },
        None => {
            let w = v.push((name, query));
            let wks = w.map_values(|p: (Seq<char>, Seq<char>)| p.0);
            assert forall|j: int| 0 <= j < v.len() implies wks[j] != name by {
                assert(wks[j] == ks[j]);
            }
            lemma_first_eq(wks, name, v.len() as int);
        },
    }
}

} // verus!
