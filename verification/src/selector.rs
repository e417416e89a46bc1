//! The original selector: picks the surviving file within a group under a
//! configured strategy, over fixed-precision integer timestamps.

use vstd::prelude::*;
use crate::config::OriginalToKeep;
use crate::entry::FileEntry;

verus! {

/// Nanoseconds per second, the resolution every timestamp is scaled to.
pub const NANOS_PER_SECOND: i128 = 1_000_000_000;

/// The timestamp the selector compares for one entry: the live filesystem
/// timestamp where one was obtainable, else the recorded scan-time
/// `modified_date`, scaled to nanoseconds.
pub open spec fn effective_ts(e: FileEntry, live_mtime_nanos: Option<i128>) -> int {
    match live_mtime_nanos {
        Option::Some(t) => t as int,
        Option::None => e.modified_date * (NANOS_PER_SECOND as int),
    }
}

/// Computes [`effective_ts`].
pub fn effective_timestamp(entry: &FileEntry, live_mtime_nanos: Option<i128>) -> (r: i128)
    ensures
        r == effective_ts(*entry, live_mtime_nanos),
{
    match live_mtime_nanos {
        Option::Some(t) => t,
        Option::None => {
            proof {
                assert(entry.modified_date * (NANOS_PER_SECOND as int) <= i128::MAX
                    && entry.modified_date * (NANOS_PER_SECOND as int) >= i128::MIN)
                    by (nonlinear_arith)
                    requires
                        i64::MIN <= entry.modified_date <= i64::MAX,
                ;
            }
            (entry.modified_date as i128) * NANOS_PER_SECOND
        },
    }
}

/// `r` is the index `select_by_mtime` must return for `ts`: it carries the
/// extreme timestamp, and on ties the earliest-positioned candidate wins.
pub open spec fn is_selected(ts: Seq<i128>, newest: bool, r: int) -> bool {
    &&& 0 <= r < ts.len()
    &&& forall|j: int|
        0 <= j < ts.len() ==> (if newest {
            #[trigger] ts[j] <= ts[r]
        } else {
            ts[r] <= #[trigger] ts[j]
        })
    &&& forall|j: int|
        0 <= j < r ==> (if newest {
            #[trigger] ts[j] < ts[r]
        } else {
            ts[r] < #[trigger] ts[j]
        })
}

/// At most one index satisfies [`is_selected`]: the selector is a function
/// of its input, never of scheduling or iteration order.
pub proof fn lemma_selected_unique(ts: Seq<i128>, newest: bool, r1: int, r2: int)
    requires
        is_selected(ts, newest, r1),
        is_selected(ts, newest, r2),
    ensures
        r1 == r2,
{
    if r1 < r2 {
        assert(ts[r1] < ts[r2] || ts[r2] < ts[r1]);
    }
    if r2 < r1 {
        assert(ts[r1] < ts[r2] || ts[r2] < ts[r1]);
    }
}

/// Scans the timestamps once, keeping the current best and replacing it only
/// on strict improvement, so equal timestamps keep the earlier candidate.
pub fn select_by_mtime(ts: &Vec<i128>, newest: bool) -> (r: usize)
    requires
        ts.len() >= 1,
    ensures
        is_selected(ts@, newest, r as int),
{
    let mut best: usize = 0;
    let mut best_time: i128 = ts[0];
    let mut i: usize = 1;
    while i < ts.len()
        invariant
            1 <= i <= ts.len(),
            0 <= best < i,
            best_time == ts@[best as int],
            forall|j: int|
                0 <= j < i ==> (if newest {
                    #[trigger] ts@[j] <= ts@[best as int]
                } else {
                    ts@[best as int] <= #[trigger] ts@[j]
                }),
            forall|j: int|
                0 <= j < best ==> (if newest {
                    #[trigger] ts@[j] < ts@[best as int]
                } else {
                    ts@[best as int] < #[trigger] ts@[j]
                }),
        decreases ts.len() - i,
    {
        let candidate_time = ts[i];
        let should_replace = if newest {
            best_time < candidate_time
        } else {
            candidate_time < best_time
        };
        if should_replace {
            best = i;
            best_time = candidate_time;
        }
        i = i + 1;
    }
    best
}

/// The index `choose_original_file` must return for a strategy.
pub open spec fn is_chosen_original(
    strategy: OriginalToKeep,
    ts: Seq<i128>,
    r: int,
) -> bool {
    match strategy {
        OriginalToKeep::First => r == 0,
        OriginalToKeep::Last => r == ts.len() - 1,
        OriginalToKeep::Newest => is_selected(ts, true, r),
        OriginalToKeep::Oldest => is_selected(ts, false, r),
    }
}

/// At most one index is the chosen original for a given group and strategy:
/// `choose_original_file` is deterministic, and for `Newest`/`Oldest` equal
/// timestamps always favor the earlier-positioned member.
pub proof fn lemma_choose_original_deterministic(
    strategy: OriginalToKeep,
    ts: Seq<i128>,
    r1: int,
    r2: int,
)
    requires
        is_chosen_original(strategy, ts, r1),
        is_chosen_original(strategy, ts, r2),
    ensures
        r1 == r2,
{
    match strategy {
        OriginalToKeep::Newest => lemma_selected_unique(ts, true, r1, r2),
        OriginalToKeep::Oldest => lemma_selected_unique(ts, false, r1, r2),
        _ => {},
    }
}

/// Picks the surviving member of a group: positional for `First`/`Last`,
/// by effective timestamp with an earliest-on-tie policy for
/// `Newest`/`Oldest`. `ts` holds one effective timestamp per member, in
/// group order.
pub fn choose_original_file(strategy: OriginalToKeep, ts: &Vec<i128>) -> (r: usize)
    requires
        ts.len() >= 1,
    ensures
        is_chosen_original(strategy, ts@, r as int),
        r < ts.len(),
{
    match strategy {
        OriginalToKeep::First => 0,
        OriginalToKeep::Last => ts.len() - 1,
        OriginalToKeep::Newest => select_by_mtime(ts, true),
        OriginalToKeep::Oldest => select_by_mtime(ts, false),
    }
}

} // verus!
