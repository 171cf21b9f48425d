//! The versioned feed envelope another tool ingests: every indexed script with
//! a stable id, plus the ids of favorites and recents. Serializing it and
//! stamping the time are done by the caller.

use vstd::prelude::*;
use crate::model::{display_name_of, entries_view, EntryView, ScriptEntry};
use crate::path::{file_name, file_name_of, stem, stem_of_name};
use crate::state::{recents_view, RecentView, State};
use crate::text::{chars_of_string, copy_opt_string, copy_string, opt_view, string_of, strs_view, str_eq, trim, trim_chars};

verus! {

/// The envelope's schema version.
pub const SCHEMA_VERSION: i64 = 1;

/// One script in the envelope.
#[derive(Debug, Clone, PartialEq, Eq)]
pub struct FeedScript {
    pub id: String,
    pub name: String,
    /// Absent rather than empty when the script has no description.
    pub description: Option<String>,
}

/// The feed envelope.
#[derive(Debug, Clone, PartialEq, Eq)]
pub struct Feed {
    pub schema_version: i64,
    pub source_tool: String,
    pub generated_at: String,
    pub scripts: Vec<FeedScript>,
    pub favorites: Vec<String>,
    pub recents: Vec<String>,
}

/// A script's stable id: its path's file stem, or the whole path when the
/// path has no file name or the stem is blank — never blank for a non-blank
/// path.
pub open spec fn script_id_of(p: Seq<char>) -> Seq<char> {
    match file_name_of(p) {
        Some(n) => if trim(stem_of_name(n)).len() > 0 {
            stem_of_name(n)
        } else {
            p
        },
        None => p,
    }
}

/// The id of a script path (see [`script_id_of`]).
pub fn script_id(path: &str) -> (id: String)
    ensures
        id@ == script_id_of(path@),
{
    let v = crate::text::chars_of(path);
    match file_name(&v) {
        Some(n) => {
            let s = stem(&n);
            let t = trim_chars(&s);
            if t.len() > 0 {
                string_of(&s)
            } else {
                path.to_string()
            }
        },
        None => path.to_string(),
    }
}

/// The ids of the favorited entries, in index order.
pub open spec fn favorite_ids(es: Seq<EntryView>, favs: Seq<Seq<char>>) -> Seq<Seq<char>>
    decreases es.len(),
{
    if es.len() == 0 {
        seq![]
    } else if favs.contains(es.last().path) {
        favorite_ids(es.drop_last(), favs).push(script_id_of(es.last().path))
    } else {
        favorite_ids(es.drop_last(), favs)
    }
}

/// The ids of the recents (newest first) that name an indexed script.
pub open spec fn recent_ids(rs: Seq<RecentView>, known: Seq<Seq<char>>) -> Seq<Seq<char>>
    decreases rs.len(),
{
    if rs.len() == 0 {
        seq![]
    } else if known.contains(script_id_of(rs.last().path)) {
        recent_ids(rs.drop_last(), known).push(script_id_of(rs.last().path))
    } else {
        recent_ids(rs.drop_last(), known)
    }
}

/// The ids of the indexed scripts.
pub open spec fn known_ids(es: Seq<EntryView>) -> Seq<Seq<char>> {
    es.map_values(|e: EntryView| script_id_of(e.path))
}

/// Every recent the feed lists names an indexed script: a stale recent to a
/// deleted file is dropped, never reported.
pub proof fn lemma_feed_recents_are_known(rs: Seq<RecentView>, known: Seq<Seq<char>>)
    ensures
        forall|k: int| 0 <= k < recent_ids(rs, known).len() ==> known.contains(#[trigger] recent_ids(rs, known)[k]),
    decreases rs.len(),
{
    if rs.len() > 0 {
        lemma_feed_recents_are_known(rs.drop_last(), known);
        let prev = recent_ids(rs.drop_last(), known);
        assert forall|k: int| 0 <= k < recent_ids(rs, known).len() implies known.contains(
            #[trigger] recent_ids(rs, known)[k],
        ) by {
            if k < prev.len() {
                assert(recent_ids(rs, known)[k] == prev[k]);
            }
        }
    }
}

/// Every favorite the feed lists is the id of an indexed script.
pub proof fn lemma_feed_favorites_are_indexed(es: Seq<EntryView>, favs: Seq<Seq<char>>)
    ensures
        forall|k: int|
            0 <= k < favorite_ids(es, favs).len() ==> known_ids(es).contains(#[trigger] favorite_ids(es, favs)[k]),
    decreases es.len(),
{
    if es.len() > 0 {
        lemma_feed_favorites_are_indexed(es.drop_last(), favs);
        let prev = favorite_ids(es.drop_last(), favs);
        assert(known_ids(es.drop_last()) =~= known_ids(es).drop_last());
        assert forall|k: int| 0 <= k < favorite_ids(es, favs).len() implies known_ids(es).contains(
            #[trigger] favorite_ids(es, favs)[k],
        ) by {
            if k < prev.len() {
                assert(favorite_ids(es, favs)[k] == prev[k]);
                let j = choose|j: int| 0 <= j < known_ids(es.drop_last()).len() && known_ids(es.drop_last())[j]
                    == prev[k];
                assert(known_ids(es)[j] == prev[k]);
            } else {
                assert(known_ids(es)[es.len() - 1] == script_id_of(es.last().path));
            }
        }
    }
}

fn contains_id(ids: &Vec<String>, id: &str) -> (r: bool)
    ensures
        r == strs_view(ids@).contains(id@),
{
    let mut i: usize = 0;
    while i < ids.len()
        invariant
            i <= ids.len(),
            forall|k: int| 0 <= k < i ==> strs_view(ids@)[k] != id@,
        decreases ids.len() - i,
    {
        if str_eq(ids[i].as_str(), id) {
            proof {
                assert(strs_view(ids@)[i as int] == id@);
            }
            return true;
        }
        i += 1;
    }
    false
}

/// Build the feed from the indexed entries and the user state: every entry
/// with its id, display name and description; the ids of favorited entries;
/// the ids of recents that name an indexed script, newest first.
pub fn build_feed(entries: &[ScriptEntry], state: &State, generated_at: String) -> (f: Feed)
    ensures
        f.schema_version == SCHEMA_VERSION,
        f.source_tool@ == "scriptvault"@,
        f.generated_at@ == generated_at@,
        f.scripts.len() == entries.len(),
        forall|k: int|
            0 <= k < entries.len() ==> (#[trigger] f.scripts@[k]).id@ == script_id_of(entries@[k]@.path)
                && f.scripts@[k].name@ == display_name_of(entries@[k]@) && opt_view(f.scripts@[k].description)
                == entries@[k]@.meta.desc,
        strs_view(f.favorites@) == favorite_ids(entries_view(entries@), state@.favorites),
        strs_view(f.recents@) == recent_ids(state@.recents, known_ids(entries_view(entries@))),
{
    let ghost es = entries_view(entries@);
    let mut scripts: Vec<FeedScript> = Vec::new();
    let mut known: Vec<String> = Vec::new();
    let mut favorites: Vec<String> = Vec::new();
    let mut i: usize = 0;
    while i < entries.len()
        invariant
            i <= entries.len(),
            es == entries_view(entries@),
            scripts.len() == i,
            forall|k: int|
                0 <= k < i ==> (#[trigger] scripts@[k]).id@ == script_id_of(entries@[k]@.path)
                    && scripts@[k].name@ == display_name_of(entries@[k]@) && opt_view(scripts@[k].description)
                    == entries@[k]@.meta.desc,
            strs_view(known@) == known_ids(es).take(i as int),
            strs_view(favorites@) == favorite_ids(es.take(i as int), state@.favorites),
        decreases entries.len() - i,
    {
        let e = &entries[i];
        let id = script_id(e.path.as_str());
        proof {
            assert(es.take(i + 1).drop_last() =~= es.take(i as int));
            assert(es.take(i + 1).last() == e@);
        }
        if state.is_favorite(e.path.as_str()) {
            let ghost before = favorites@;
            let fid = copy_string(&id);
            favorites.push(fid);
            proof {
                assert(strs_view(favorites@) =~= strs_view(before).push(fid@));
            }
        }
        let ghost kb = known@;
        let kid = copy_string(&id);
        known.push(kid);
        proof {
            assert(strs_view(known@) =~= strs_view(kb).push(kid@));
            assert(known_ids(es).take(i + 1) =~= known_ids(es).take(i as int).push(script_id_of(es[i as int].path)));
        }
        scripts.push(FeedScript {
            id,
            name: e.display_name().to_string(),
            description: copy_opt_string(&e.meta.desc),
        });
        i += 1;
    }
    proof {
        assert(es.take(entries.len() as int) =~= es);
        assert(known_ids(es).take(entries.len() as int) =~= known_ids(es));
    }
    let ghost rs = state@.recents;
    let mut recents: Vec<String> = Vec::new();
    let mut j: usize = 0;
    while j < state.recents.len()
        invariant
            j <= state.recents.len(),
            rs == state@.recents,
            strs_view(known@) == known_ids(es),
            strs_view(recents@) == recent_ids(rs.take(j as int), known_ids(es)),
        decreases state.recents.len() - j,
    {
        let id = script_id(state.recents[j].path.as_str());
        proof {
            assert(rs.take(j + 1).drop_last() =~= rs.take(j as int));
            assert(rs.take(j + 1).last() == state.recents@[j as int]@);
        }
        if contains_id(&known, id.as_str()) {
            let ghost before = recents@;
            recents.push(id);
            proof {
                assert(strs_view(recents@) =~= strs_view(before).push(id@));
            }
        }
        j += 1;
    }
    proof {
        assert(rs.take(state.recents.len() as int) =~= rs);
    }
    Feed {
        schema_version: SCHEMA_VERSION,
        source_tool: "scriptvault".to_string(),
        generated_at,
        scripts,
        favorites,
        recents,
    }
}

} // verus!
