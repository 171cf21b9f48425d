//! The run-history inputs of ranking, assembled from the recents list.
//!
//! How those inputs become a hybrid score (fuzzy quality plus a capped
//! frecency boost plus a favourite bonus) is floating-point arithmetic and is
//! computed by the frontend; what reaches the ranking here is the integer
//! history of each entry.

use vstd::prelude::*;
use crate::state::{sat_sub, RecentEntry, RecentView, recents_view};
use crate::text::str_eq;

verus! {

/// The run-history inputs ranking needs about one entry.
#[derive(Debug, Clone, Copy, PartialEq, Eq, Structural)]
pub struct Frecency {
    /// How many times the entry has been run.
    pub count: u64,
    /// Seconds since it was last run; `None` = never run.
    pub age_secs: Option<u64>,
    /// Whether the last run exited nonzero.
    pub last_failed: bool,
}

impl Frecency {
    /// The "never run, not failed" baseline.
    pub fn none() -> (f: Frecency)
        ensures
            f == (Frecency { count: 0, age_secs: None, last_failed: false }),
    {
        Frecency { count: 0, age_secs: None, last_failed: false }
    }
}

/// Index of the last recent entry for `path` (a later entry for the same path
/// overrides an earlier one, as when the list is collected into a map).
pub open spec fn last_recent(rs: Seq<RecentView>, path: Seq<char>) -> Option<int>
    decreases rs.len(),
{
    if rs.len() == 0 {
        None
    } else if rs.last().path == path {
        Some(rs.len() - 1)
    } else {
        last_recent(rs.drop_last(), path)
    }
}

/// A found index is in range and names the path.
pub proof fn lemma_last_recent(rs: Seq<RecentView>, path: Seq<char>)
    ensures
        last_recent(rs, path) matches Some(i) ==> 0 <= i < rs.len() && rs[i].path == path,
        last_recent(rs, path) is None ==> forall|k: int| 0 <= k < rs.len() ==> #[trigger] rs[k].path != path,
    decreases rs.len(),
{
    if rs.len() > 0 {
        lemma_last_recent(rs.drop_last(), path);
        if rs.last().path != path {
            assert forall|k: int| 0 <= k < rs.len() && last_recent(rs, path) is None implies #[trigger] rs[k].path != path by {
                if k < rs.len() - 1 {
                    assert(rs[k] == rs.drop_last()[k]);
                }
            }
        }
    }
}

/// The frecency inputs of `path` at time `now`.
pub open spec fn frecency_of(rs: Seq<RecentView>, path: Seq<char>, now: u64) -> Frecency {
    match last_recent(rs, path) {
        Some(i) => Frecency {
            count: rs[i].count,
            age_secs: Some(sat_sub(now, rs[i].last_run)),
            last_failed: match rs[i].last_exit {
                Some(c) => c != 0,
                None => false,
            },
        },
        None => Frecency { count: 0, age_secs: None, last_failed: false },
    }
}

/// Seconds since `path` last ran, or `u64::MAX` when it never ran (so it sorts
/// last among "recently run").
pub open spec fn run_age_of(rs: Seq<RecentView>, path: Seq<char>, now: u64) -> u64 {
    match last_recent(rs, path) {
        Some(i) => sat_sub(now, rs[i].last_run),
        None => u64::MAX,
    }
}

/// Position of the last recent entry for `path`.
fn last_recent_position(rs: &Vec<RecentEntry>, path: &str) -> (r: Option<usize>)
    ensures
        match r {
            Some(i) => last_recent(recents_view(rs@), path@) == Some(i as int) && i < rs.len(),
            None => last_recent(recents_view(rs@), path@) is None,
        },
{
    let ghost all = recents_view(rs@);
    let mut n = rs.len();
    proof {
        assert(all.take(n as int) =~= all);
    }
    while n > 0
        invariant
            n <= rs.len(),
            all == recents_view(rs@),
            last_recent(all, path@) == last_recent(all.take(n as int), path@),
        decreases n,
    {
        let ghost pre = all.take(n as int);
        proof {
            assert(pre.drop_last() =~= all.take(n - 1));
            assert(pre.last() == rs@[n - 1]@);
        }
        if str_eq(rs[n - 1].path.as_str(), path) {
            return Some(n - 1);
        }
        n -= 1;
    }
    proof {
        assert(all.take(0) =~= Seq::<RecentView>::empty());
    }
    None
}

/// The frecency inputs of `path` from the recents list at time `now`.
pub fn frecency_for(recents: &Vec<RecentEntry>, path: &str, now: u64) -> (f: Frecency)
    ensures
        f == frecency_of(recents_view(recents@), path@, now),
{
    proof {
        lemma_last_recent(recents_view(recents@), path@);
    }
    match last_recent_position(recents, path) {
        Some(i) => {
            let r = &recents[i];
            Frecency {
                count: r.count,
                age_secs: Some(now.saturating_sub(r.last_run)),
                last_failed: match r.last_exit {
                    Some(c) => c != 0,
                    None => false,
                },
            }
        },
        None => Frecency::none(),
    }
}

/// Seconds since `path` last ran at time `now`, `u64::MAX` if never.
pub fn run_age(recents: &Vec<RecentEntry>, path: &str, now: u64) -> (a: u64)
    ensures
        a == run_age_of(recents_view(recents@), path@, now),
{
    match last_recent_position(recents, path) {
        Some(i) => now.saturating_sub(recents[i].last_run),
        None => u64::MAX,
    }
}

} // verus!
