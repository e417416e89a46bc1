//! The group resolver: validation, sandbox filtering, survivor selection,
//! and the plan of replacements for one duplicate group.
//!
//! Resolution is split from the filesystem: the caller gathers one
//! [`MemberFacts`] per group member (does the path exist, what does it
//! canonicalize to, what is its live timestamp) and [`plan_group`] computes,
//! purely, everything the run will do to that group. Every safety decision —
//! hash consistency, the missing/existing partition, the sandbox filter, the
//! survivor choice — is made and proved here.

use vstd::prelude::*;
use crate::config::OriginalToKeep;
use crate::entry::{all_hashes_equal, confirm_hashes_match, eq_strings, FileEntry};
use crate::errors::ResolveError;
use crate::sandbox::{ensure_path_within_roots, in_sandbox};
use crate::selector::{
    choose_original_file, effective_timestamp, effective_ts, is_chosen_original,
    lemma_choose_original_deterministic,
};

verus! {

/// What the filesystem reports about one group member at resolution time.
#[derive(Debug)]
pub struct MemberFacts {
    /// Whether the recorded path currently exists on disk.
    pub exists: bool,
    /// The canonicalized path (symlinks and relative segments resolved), or
    /// `None` when the path could not be canonicalized.
    pub canonical: Option<String>,
    /// The live modification timestamp in nanoseconds since the epoch, or
    /// `None` when it could not be read.
    pub mtime_nanos: Option<i128>,
}

/// Member `i` may be mutated: it exists, resolved, and lies in the sandbox.
pub open spec fn member_allowed(facts: Seq<MemberFacts>, roots: Seq<String>, i: int) -> bool {
    &&& facts[i].exists
    &&& facts[i].canonical is Some
    &&& in_sandbox(facts[i].canonical->0@, roots)
}

/// The indices below `n` whose member is absent from disk, ascending.
pub open spec fn missing_upto(facts: Seq<MemberFacts>, n: int) -> Seq<usize>
    decreases n,
{
    if n <= 0 {
        Seq::empty()
    } else if !facts[n - 1].exists {
        missing_upto(facts, n - 1).push((n - 1) as usize)
    } else {
        missing_upto(facts, n - 1)
    }
}

/// The indices below `n` whose member exists on disk, ascending.
pub open spec fn existing_upto(facts: Seq<MemberFacts>, n: int) -> Seq<usize>
    decreases n,
{
    if n <= 0 {
        Seq::empty()
    } else if facts[n - 1].exists {
        existing_upto(facts, n - 1).push((n - 1) as usize)
    } else {
        existing_upto(facts, n - 1)
    }
}

/// The indices below `n` of existing members that fail the sandbox check,
/// ascending.
pub open spec fn violations_upto(facts: Seq<MemberFacts>, roots: Seq<String>, n: int) -> Seq<
    usize,
>
    decreases n,
{
    if n <= 0 {
        Seq::empty()
    } else if facts[n - 1].exists && !member_allowed(facts, roots, n - 1) {
        violations_upto(facts, roots, n - 1).push((n - 1) as usize)
    } else {
        violations_upto(facts, roots, n - 1)
    }
}

/// The indices below `n` of members that may be mutated, ascending.
pub open spec fn allowed_upto(facts: Seq<MemberFacts>, roots: Seq<String>, n: int) -> Seq<usize>
    decreases n,
{
    if n <= 0 {
        Seq::empty()
    } else if member_allowed(facts, roots, n - 1) {
        allowed_upto(facts, roots, n - 1).push((n - 1) as usize)
    } else {
        allowed_upto(facts, roots, n - 1)
    }
}

/// The effective timestamps of the members listed in `idxs`, in order.
pub open spec fn timestamps_of(
    g: Seq<FileEntry>,
    facts: Seq<MemberFacts>,
    idxs: Seq<usize>,
) -> Seq<i128> {
    Seq::new(idxs.len(), |k: int| effective_ts(g[idxs[k] as int], facts[idxs[k] as int].mtime_nanos) as i128)
}

/// Among the first `m` allowed members, those whose path differs from the
/// survivor's path: exactly the members the run will replace, ascending.
pub open spec fn replacements_from_allowed(
    g: Seq<FileEntry>,
    allow: Seq<usize>,
    orig: int,
    m: int,
) -> Seq<usize>
    decreases m,
{
    if m <= 0 {
        Seq::empty()
    } else if g[allow[m - 1] as int].path@ != g[orig].path@ {
        replacements_from_allowed(g, allow, orig, m - 1).push(allow[m - 1])
    } else {
        replacements_from_allowed(g, allow, orig, m - 1)
    }
}

/// Everything a run will do to one duplicate group.
///
/// Indices refer to positions in the group. An empty `replacements` list
/// means the group is left untouched.
#[derive(Debug)]
pub struct GroupPlan {
    /// The group's members disagree on their hash; nothing is touched.
    pub hash_mismatch: bool,
    /// Members absent from disk (reported; the group continues without
    /// them).
    pub missing: Vec<usize>,
    /// Every member is absent; nothing is left to deduplicate.
    pub no_files_remain: bool,
    /// Existing members that are unresolvable or escape the sandbox; any
    /// entry here aborts the whole group.
    pub violations: Vec<usize>,
    /// The member that survives as a regular file.
    pub original: Option<usize>,
    /// The members to be replaced by symbolic links to the survivor.
    pub replacements: Vec<usize>,
}

/// The survivor and replacement part of a correct plan: some allowed member
/// is the chosen original under the configured strategy, and the
/// replacements are exactly the other allowed members (all allowed members
/// whose path differs from the survivor's).
pub open spec fn plan_selection_matches(
    g: Seq<FileEntry>,
    facts: Seq<MemberFacts>,
    roots: Seq<String>,
    strategy: OriginalToKeep,
    p: GroupPlan,
) -> bool {
    let allow = allowed_upto(facts, roots, g.len() as int);
    let ts = timestamps_of(g, facts, allow);
    exists|k: int|
        {
            &&& 0 <= k < allow.len()
            &&& #[trigger] is_chosen_original(strategy, ts, k)
            &&& p.original == Option::Some(allow[k])
            &&& p.replacements@ == replacements_from_allowed(
                g,
                allow,
                allow[k] as int,
                allow.len() as int,
            )
        }
}

/// The full contract of [`plan_group`]: what a correct plan for a group
/// looks like, stage by stage of the per-group state machine.
pub open spec fn plan_matches(
    g: Seq<FileEntry>,
    facts: Seq<MemberFacts>,
    roots: Seq<String>,
    strategy: OriginalToKeep,
    p: GroupPlan,
) -> bool {
    let n = g.len() as int;
    let checked = n >= 2 && all_hashes_equal(g);
    let exist = existing_upto(facts, n);
    let viol = violations_upto(facts, roots, n);
    let allow = allowed_upto(facts, roots, n);
    &&& facts.len() == g.len()
    &&& p.hash_mismatch == (n >= 2 && !all_hashes_equal(g))
    &&& p.missing@ == (if checked {
        missing_upto(facts, n)
    } else {
        Seq::<usize>::empty()
    })
    &&& p.no_files_remain == (checked && exist.len() == 0)
    &&& p.violations@ == (if checked {
        viol
    } else {
        Seq::<usize>::empty()
    })
    &&& (if checked && exist.len() > 0 && viol.len() == 0 && allow.len() >= 2 {
        plan_selection_matches(g, facts, roots, strategy, p)
    } else {
        p.original is None && p.replacements@ == Seq::<usize>::empty()
    })
}

/// Resolves one duplicate group into a plan.
///
/// The stages, in order: a group of fewer than two members is a no-op; a
/// hash disagreement aborts the group untouched; missing members are set
/// aside (reported, not fatal); if nothing exists the group is aborted; any
/// existing member outside the sandbox aborts the whole group; fewer than
/// two allowed members leave nothing to deduplicate; otherwise the survivor
/// is chosen and every other allowed member is scheduled for replacement.
pub fn plan_group(
    group: &Vec<FileEntry>,
    facts: &Vec<MemberFacts>,
    roots: &Vec<String>,
    strategy: OriginalToKeep,
) -> (p: GroupPlan)
    requires
        facts@.len() == group@.len(),
    ensures
        plan_matches(group@, facts@, roots@, strategy, p),
{
    let n = group.len();
    if n < 2 {
        return GroupPlan {
            hash_mismatch: false,
            missing: Vec::new(),
            no_files_remain: false,
            violations: Vec::new(),
            original: Option::None,
            replacements: Vec::new(),
        };
    }
    if !confirm_hashes_match(group) {
        return GroupPlan {
            hash_mismatch: true,
            missing: Vec::new(),
            no_files_remain: false,
            violations: Vec::new(),
            original: Option::None,
            replacements: Vec::new(),
        };
    }

    let mut missing: Vec<usize> = Vec::new();
    let mut existing_count: usize = 0;
    let mut i: usize = 0;
    while i < n
        invariant
            0 <= i <= n,
            n == group@.len(),
            facts@.len() == n,
            missing@ == missing_upto(facts@, i as int),
            existing_count <= i,
            existing_count == existing_upto(facts@, i as int).len(),
        decreases n - i,
    {
        if facts[i].exists {
            existing_count = existing_count + 1;
        } else {
            missing.push(i);
        }
        i = i + 1;
    }

    if existing_count == 0 {
        proof {
            lemma_existing_empty_means_allowed_empty(facts@, roots@, n as int);
            assert(Seq::<usize>::empty() =~= violations_upto(facts@, roots@, n as int));
        }
        return GroupPlan {
            hash_mismatch: false,
            missing,
            no_files_remain: true,
            violations: Vec::new(),
            original: Option::None,
            replacements: Vec::new(),
        };
    }

    let mut violations: Vec<usize> = Vec::new();
    let mut allowed: Vec<usize> = Vec::new();
    let mut i: usize = 0;
    while i < n
        invariant
            0 <= i <= n,
            n == group@.len(),
            facts@.len() == n,
            violations@ == violations_upto(facts@, roots@, i as int),
            allowed@ == allowed_upto(facts@, roots@, i as int),
        decreases n - i,
    {
        if facts[i].exists {
            let in_roots = match &facts[i].canonical {
                Option::Some(c) => ensure_path_within_roots(c, roots),
                Option::None => false,
            };
            if in_roots {
                allowed.push(i);
            } else {
                violations.push(i);
            }
        }
        i = i + 1;
    }

    if violations.len() > 0 {
        return GroupPlan {
            hash_mismatch: false,
            missing,
            no_files_remain: false,
            violations,
            original: Option::None,
            replacements: Vec::new(),
        };
    }

    if allowed.len() < 2 {
        return GroupPlan {
            hash_mismatch: false,
            missing,
            no_files_remain: false,
            violations,
            original: Option::None,
            replacements: Vec::new(),
        };
    }

    proof {
        lemma_allowed_upto_props(facts@, roots@, n as int);
    }

    let mut ts: Vec<i128> = Vec::new();
    let mut k: usize = 0;
    while k < allowed.len()
        invariant
            0 <= k <= allowed.len(),
            n == group@.len(),
            facts@.len() == n,
            allowed@ == allowed_upto(facts@, roots@, n as int),
            forall|j: int|
                0 <= j < allowed@.len() ==> 0 <= #[trigger] allowed@[j] < n,
            ts@.len() == k,
            forall|j: int|
                0 <= j < k ==> #[trigger] ts@[j] == timestamps_of(group@, facts@, allowed@)[j],
        decreases allowed.len() - k,
    {
        let idx = allowed[k];
        let t = effective_timestamp(&group[idx], facts[idx].mtime_nanos);
        ts.push(t);
        k = k + 1;
    }
    proof {
        assert(ts@ =~= timestamps_of(group@, facts@, allowed@));
    }

    let chosen = choose_original_file(strategy, &ts);
    let orig = allowed[chosen];

    let mut replacements: Vec<usize> = Vec::new();
    let mut j: usize = 0;
    while j < allowed.len()
        invariant
            0 <= j <= allowed.len(),
            n == group@.len(),
            facts@.len() == n,
            allowed@ == allowed_upto(facts@, roots@, n as int),
            forall|t: int|
                0 <= t < allowed@.len() ==> 0 <= #[trigger] allowed@[t] < n,
            orig < n,
            chosen < allowed@.len(),
            orig == allowed@[chosen as int],
            replacements@ == replacements_from_allowed(group@, allowed@, orig as int, j as int),
        decreases allowed.len() - j,
    {
        let idx = allowed[j];
        if !eq_strings(&group[idx].path, &group[orig].path) {
            replacements.push(idx);
        }
        j = j + 1;
    }

    let p = GroupPlan {
        hash_mismatch: false,
        missing,
        no_files_remain: false,
        violations,
        original: Option::Some(orig),
        replacements,
    };
    proof {
        let allow = allowed_upto(facts@, roots@, n as int);
        let tss = timestamps_of(group@, facts@, allow);
        let kk = chosen as int;
        assert(0 <= kk < allow.len() && is_chosen_original(strategy, tss, kk) && p.original
            == Option::Some(allow[kk]) && p.replacements@ == replacements_from_allowed(
            group@,
            allow,
            allow[kk] as int,
            allow.len() as int,
        ));
        assert(plan_selection_matches(group@, facts@, roots@, strategy, p));
    }
    p
}

/// Every listed allowed index is a real, allowed group position, the list is
/// ascending, and it lists every allowed position.
pub proof fn lemma_allowed_upto_props(facts: Seq<MemberFacts>, roots: Seq<String>, n: int)
    requires
        n <= usize::MAX,
    ensures
        forall|k: int|
            0 <= k < allowed_upto(facts, roots, n).len() ==> 0 <= #[trigger] allowed_upto(
                facts,
                roots,
                n,
            )[k] < n && member_allowed(facts, roots, allowed_upto(facts, roots, n)[k] as int),
        forall|i: int|
            0 <= i < n && member_allowed(facts, roots, i) ==> allowed_upto(
                facts,
                roots,
                n,
            ).contains(i as usize),
        forall|k1: int, k2: int|
            0 <= k1 < k2 < allowed_upto(facts, roots, n).len() ==> #[trigger] allowed_upto(
                facts,
                roots,
                n,
            )[k1] < #[trigger] allowed_upto(facts, roots, n)[k2],
    decreases n,
{
    if n > 0 {
        lemma_allowed_upto_props(facts, roots, n - 1);
        let prev = allowed_upto(facts, roots, n - 1);
        let cur = allowed_upto(facts, roots, n);
        assert forall|i: int|
            0 <= i < n && member_allowed(facts, roots, i) implies cur.contains(i as usize) by {
            if i < n - 1 {
                let w = choose|w: int| 0 <= w < prev.len() && prev[w] == i as usize;
                assert(cur[w] == i as usize);
            } else {
                assert(cur.last() == i as usize);
            }
        }
        if member_allowed(facts, roots, n - 1) {
            assert(cur == prev.push((n - 1) as usize));
            assert((n - 1) as usize == n - 1);
            assert forall|k: int|
                0 <= k < cur.len() implies 0 <= #[trigger] cur[k] < n && member_allowed(
                facts,
                roots,
                cur[k] as int,
            ) by {
                if k < prev.len() {
                    assert(cur[k] == prev[k]);
                    assert(0 <= prev[k] < n - 1);
                } else {
                    assert(cur[k] == (n - 1) as usize);
                }
            }
            assert forall|k1: int, k2: int|
                0 <= k1 < k2 < cur.len() implies #[trigger] cur[k1] < #[trigger] cur[k2] by {
                if k2 == cur.len() - 1 {
                    assert(cur[k2] == (n - 1) as usize);
                    assert(cur[k1] == prev[k1]);
                    assert(0 <= prev[k1] < n - 1);
                } else {
                    assert(cur[k1] == prev[k1] && cur[k2] == prev[k2]);
                }
            }
        } else {
            assert(cur == prev);
        }
    }
}

/// `e` is the error record for a group whose members disagree on their
/// hash: it names every member's path.
pub open spec fn is_hash_mismatch_record(e: ResolveError, g: Seq<FileEntry>) -> bool {
    match e {
        ResolveError::HashMismatch { paths } => paths@.len() == g.len() && forall|j: int|
            0 <= j < g.len() ==> #[trigger] paths@[j]@ == g[j].path@,
        _ => false,
    }
}

/// `e` is the record for the members listed in `miss` being absent from
/// disk: it carries the group hash and each missing path.
pub open spec fn is_missing_record(e: ResolveError, g: Seq<FileEntry>, miss: Seq<usize>) -> bool {
    match e {
        ResolveError::MissingFiles { hash, paths } => hash@ == g[0].hash@ && paths@.len()
            == miss.len() && forall|j: int|
            0 <= j < miss.len() ==> #[trigger] paths@[j]@ == g[miss[j] as int].path@,
        _ => false,
    }
}

/// `e` is the record for a group with no member left on disk.
pub open spec fn is_no_files_record(e: ResolveError, g: Seq<FileEntry>) -> bool {
    match e {
        ResolveError::NoFilesRemain { hash } => hash@ == g[0].hash@,
        _ => false,
    }
}

/// `e` is the record for member `i` failing the sandbox check: a path that
/// could not be canonicalized, or one that resolves outside every root.
pub open spec fn is_violation_record(
    e: ResolveError,
    g: Seq<FileEntry>,
    facts: Seq<MemberFacts>,
    roots: Seq<String>,
    i: int,
) -> bool {
    if facts[i].canonical is None {
        match e {
            ResolveError::PathUnresolvable { path } => path@ == g[i].path@,
            _ => false,
        }
    } else {
        match e {
            ResolveError::SandboxViolation { path, roots: rs } => path@ == g[i].path@ && rs@.len()
                == roots.len() && forall|j: int|
                0 <= j < roots.len() ==> #[trigger] rs@[j]@ == roots[j]@,
            _ => false,
        }
    }
}

/// An explicit element-by-element copy of a list of paths.
fn clone_string_vec(v: &Vec<String>) -> (r: Vec<String>)
    ensures
        r@ == v@,
{
    let mut r: Vec<String> = Vec::new();
    let mut i: usize = 0;
    while i < v.len()
        invariant
            0 <= i <= v@.len(),
            r@.len() == i,
            forall|j: int| 0 <= j < i ==> #[trigger] r@[j] == v@[j],
        decreases v.len() - i,
    {
        r.push(v[i].clone());
        i = i + 1;
    }
    proof {
        assert(r@ =~= v@);
    }
    r
}

/// Turns a plan's findings into the error records the run's sink collects:
/// one record for a hash mismatch; else one for the missing members (if
/// any), one when no file remains, and one per sandbox violation, in group
/// order.
pub fn plan_group_errors(
    group: &Vec<FileEntry>,
    facts: &Vec<MemberFacts>,
    roots: &Vec<String>,
    p: &GroupPlan,
) -> (errs: Vec<ResolveError>)
    requires
        facts@.len() == group@.len(),
        forall|k: int| 0 <= k < p.missing@.len() ==> #[trigger] p.missing@[k] < group@.len(),
        forall|k: int|
            0 <= k < p.violations@.len() ==> #[trigger] p.violations@[k] < group@.len(),
        (p.missing@.len() > 0 || p.no_files_remain) ==> group@.len() > 0,
    ensures
        p.hash_mismatch ==> errs@.len() == 1 && is_hash_mismatch_record(errs@[0], group@),
        !p.hash_mismatch ==> {
            let m: int = if p.missing@.len() > 0 {
                1
            } else {
                0
            };
            let nf: int = if p.no_files_remain {
                1
            } else {
                0
            };
            &&& errs@.len() == m + nf + p.violations@.len()
            &&& (p.missing@.len() > 0 ==> is_missing_record(errs@[0], group@, p.missing@))
            &&& (p.no_files_remain ==> is_no_files_record(errs@[m], group@))
            &&& forall|k: int|
                0 <= k < p.violations@.len() ==> is_violation_record(
                    #[trigger] errs@[m + nf + k],
                    group@,
                    facts@,
                    roots@,
                    p.violations@[k] as int,
                )
        },
{
    let mut errs: Vec<ResolveError> = Vec::new();
    if p.hash_mismatch {
        let mut paths: Vec<String> = Vec::new();
        let mut i: usize = 0;
        while i < group.len()
            invariant
                0 <= i <= group@.len(),
                paths@.len() == i,
                forall|j: int| 0 <= j < i ==> #[trigger] paths@[j] == group@[j].path,
            decreases group.len() - i,
        {
            paths.push(group[i].path.clone());
            i = i + 1;
        }
        errs.push(ResolveError::HashMismatch { paths });
        return errs;
    }
    if p.missing.len() > 0 {
        let mut paths: Vec<String> = Vec::new();
        let mut k: usize = 0;
        while k < p.missing.len()
            invariant
                0 <= k <= p.missing@.len(),
                group@.len() > 0,
                forall|t: int|
                    0 <= t < p.missing@.len() ==> #[trigger] p.missing@[t] < group@.len(),
                paths@.len() == k,
                forall|j: int|
                    0 <= j < k ==> #[trigger] paths@[j] == group@[p.missing@[j] as int].path,
            decreases p.missing.len() - k,
        {
            let idx = p.missing[k];
            paths.push(group[idx].path.clone());
            k = k + 1;
        }
        errs.push(ResolveError::MissingFiles { hash: group[0].hash.clone(), paths });
    }
    if p.no_files_remain {
        errs.push(ResolveError::NoFilesRemain { hash: group[0].hash.clone() });
    }
    let ghost m: int = if p.missing@.len() > 0 {
        1
    } else {
        0
    };
    let ghost nf: int = if p.no_files_remain {
        1
    } else {
        0
    };
    let ghost head = errs@;
    let mut k: usize = 0;
    while k < p.violations.len()
        invariant
            0 <= k <= p.violations@.len(),
            facts@.len() == group@.len(),
            forall|t: int|
                0 <= t < p.violations@.len() ==> #[trigger] p.violations@[t] < group@.len(),
            head.len() == m + nf,
            errs@.len() == m + nf + k,
            errs@.subrange(0, m + nf) == head,
            forall|t: int|
                0 <= t < k ==> is_violation_record(
                    #[trigger] errs@[m + nf + t],
                    group@,
                    facts@,
                    roots@,
                    p.violations@[t] as int,
                ),
        decreases p.violations.len() - k,
    {
        let idx = p.violations[k];
        match &facts[idx].canonical {
            Option::None => {
                errs.push(ResolveError::PathUnresolvable { path: group[idx].path.clone() });
            },
            Option::Some(c) => {
                errs.push(
                    ResolveError::SandboxViolation {
                        path: group[idx].path.clone(),
                        roots: clone_string_vec(roots),
                    },
                );
            },
        }
        proof {
            assert(errs@.subrange(0, m + nf) =~= head);
        }
        k = k + 1;
    }
    proof {
        if p.missing@.len() > 0 {
            assert(errs@[0] == head[0]);
        }
        if p.no_files_remain {
            assert(errs@[m] == head[m]);
        }
    }
    errs
}

/// The indices a plan lists are positions inside the group; a verified
/// caller uses this to hand a plan to [`plan_group_errors`].
pub proof fn lemma_plan_indices_in_bounds(
    g: Seq<FileEntry>,
    facts: Seq<MemberFacts>,
    roots: Seq<String>,
    strategy: OriginalToKeep,
    p: GroupPlan,
)
    requires
        plan_matches(g, facts, roots, strategy, p),
        g.len() <= usize::MAX,
    ensures
        forall|k: int| 0 <= k < p.missing@.len() ==> #[trigger] p.missing@[k] < g.len(),
        forall|k: int| 0 <= k < p.violations@.len() ==> #[trigger] p.violations@[k] < g.len(),
        (p.missing@.len() > 0 || p.no_files_remain) ==> g.len() > 0,
{
    lemma_missing_upto_bounds(facts, g.len() as int);
    lemma_violations_upto_bounds(facts, roots, g.len() as int);
}

/// Every index in the missing list is a position below `n`.
pub proof fn lemma_missing_upto_bounds(facts: Seq<MemberFacts>, n: int)
    requires
        n <= usize::MAX,
    ensures
        forall|k: int|
            0 <= k < missing_upto(facts, n).len() ==> #[trigger] missing_upto(facts, n)[k] < n,
    decreases n,
{
    if n > 0 {
        lemma_missing_upto_bounds(facts, n - 1);
        let prev = missing_upto(facts, n - 1);
        let cur = missing_upto(facts, n);
        assert forall|k: int| 0 <= k < cur.len() implies #[trigger] cur[k] < n by {
            if k < prev.len() {
                assert(cur[k] == prev[k]);
            }
        }
    }
}

/// Every index in the violation list is a position below `n`.
pub proof fn lemma_violations_upto_bounds(facts: Seq<MemberFacts>, roots: Seq<String>, n: int)
    requires
        n <= usize::MAX,
    ensures
        forall|k: int|
            0 <= k < violations_upto(facts, roots, n).len() ==> #[trigger] violations_upto(
                facts,
                roots,
                n,
            )[k] < n,
    decreases n,
{
    if n > 0 {
        lemma_violations_upto_bounds(facts, roots, n - 1);
        let prev = violations_upto(facts, roots, n - 1);
        let cur = violations_upto(facts, roots, n);
        assert forall|k: int| 0 <= k < cur.len() implies #[trigger] cur[k] < n by {
            if k < prev.len() {
                assert(cur[k] == prev[k]);
            }
        }
    }
}

/// Each planned replacement is one of the first `m` allowed members and
/// carries a path different from the survivor's; and every such member is
/// planned.
pub proof fn lemma_replacements_membership(g: Seq<FileEntry>, allow: Seq<usize>, orig: int, m: int)
    requires
        0 <= m <= allow.len(),
    ensures
        forall|k: int|
            0 <= k < replacements_from_allowed(g, allow, orig, m).len() ==> (exists|j: int|
                0 <= j < m && allow[j] == #[trigger] replacements_from_allowed(
                    g,
                    allow,
                    orig,
                    m,
                )[k]) && g[replacements_from_allowed(g, allow, orig, m)[k] as int].path@
                != g[orig].path@,
        forall|j: int|
            0 <= j < m && g[#[trigger] allow[j] as int].path@ != g[orig].path@
                ==> replacements_from_allowed(g, allow, orig, m).contains(allow[j]),
    decreases m,
{
    if m > 0 {
        lemma_replacements_membership(g, allow, orig, m - 1);
        let prev = replacements_from_allowed(g, allow, orig, m - 1);
        let cur = replacements_from_allowed(g, allow, orig, m);
        assert forall|j: int|
            0 <= j < m && g[#[trigger] allow[j] as int].path@ != g[orig].path@ implies cur.contains(
            allow[j],
        ) by {
            if j < m - 1 {
                let w = choose|w: int| 0 <= w < prev.len() && prev[w] == allow[j];
                assert(cur[w] == allow[j]);
            } else {
                assert(cur.last() == allow[j]);
            }
        }
        if g[allow[m - 1] as int].path@ != g[orig].path@ {
            assert forall|k: int|
                0 <= k < cur.len() implies (exists|j: int|
                0 <= j < m && allow[j] == #[trigger] cur[k]) && g[cur[k] as int].path@
                != g[orig].path@ by {
                if k < prev.len() {
                    assert(cur[k] == prev[k]);
                    let j = choose|j: int| 0 <= j < m - 1 && allow[j] == prev[k];
                    assert(allow[j] == cur[k]);
                } else {
                    assert(cur[k] == allow[m - 1]);
                }
            }
        } else {
            assert(cur == prev);
            assert forall|k: int|
                0 <= k < cur.len() implies (exists|j: int|
                0 <= j < m && allow[j] == #[trigger] cur[k]) && g[cur[k] as int].path@
                != g[orig].path@ by {
                let j = choose|j: int| 0 <= j < m - 1 && allow[j] == prev[k];
                assert(allow[j] == cur[k]);
            }
        }
    }
}

/// An existing member that fails the sandbox check appears in the violation
/// list, so the list is not empty.
pub proof fn lemma_violations_upto_contains(
    facts: Seq<MemberFacts>,
    roots: Seq<String>,
    n: int,
    i: int,
)
    requires
        0 <= i < n <= usize::MAX,
        facts[i].exists,
        !member_allowed(facts, roots, i),
    ensures
        violations_upto(facts, roots, n).contains(i as usize),
        violations_upto(facts, roots, n).len() > 0,
    decreases n,
{
    let cur = violations_upto(facts, roots, n);
    let prev = violations_upto(facts, roots, n - 1);
    if i == n - 1 {
        assert(cur.last() == i as usize);
    } else {
        lemma_violations_upto_contains(facts, roots, n - 1, i);
        let w = choose|w: int| 0 <= w < prev.len() && prev[w] == i as usize;
        assert(cur[w] == i as usize);
    }
}

/// Hash-consistency invariant: for a group whose members do not all report
/// an equal hash, the plan touches nothing — no member is staged, linked,
/// or otherwise mutated, and no survivor is chosen.
pub proof fn lemma_hash_mismatch_untouched(
    g: Seq<FileEntry>,
    facts: Seq<MemberFacts>,
    roots: Seq<String>,
    strategy: OriginalToKeep,
    p: GroupPlan,
)
    requires
        plan_matches(g, facts, roots, strategy, p),
        !all_hashes_equal(g),
    ensures
        p.replacements@.len() == 0,
        p.original is None,
{
}

/// Sandbox invariant: every planned mutation target exists and resolves
/// under a configured root, and a group holding any existing member that
/// does not is skipped entirely — no survivor, no replacements.
pub proof fn lemma_sandbox_invariant(
    g: Seq<FileEntry>,
    facts: Seq<MemberFacts>,
    roots: Seq<String>,
    strategy: OriginalToKeep,
    p: GroupPlan,
)
    requires
        plan_matches(g, facts, roots, strategy, p),
        g.len() <= usize::MAX,
    ensures
        forall|k: int|
            0 <= k < p.replacements@.len() ==> member_allowed(
                facts,
                roots,
                #[trigger] p.replacements@[k] as int,
            ),
        (exists|i: int|
            0 <= i < g.len() && facts[i].exists && !(#[trigger] member_allowed(facts, roots, i)))
            ==> p.replacements@.len() == 0 && p.original is None,
{
    let n = g.len() as int;
    let allow = allowed_upto(facts, roots, n);
    let viol = violations_upto(facts, roots, n);
    lemma_allowed_upto_props(facts, roots, n);
    if exists|i: int|
        0 <= i < g.len() && facts[i].exists && !(#[trigger] member_allowed(facts, roots, i)) {
        let i = choose|i: int|
            0 <= i < g.len() && facts[i].exists && !(#[trigger] member_allowed(facts, roots, i));
        lemma_violations_upto_contains(facts, roots, n, i);
        assert(viol.len() > 0);
    }
    if p.replacements@.len() > 0 {
        let checked = n >= 2 && all_hashes_equal(g);
        assert(checked && existing_upto(facts, n).len() > 0 && viol.len() == 0 && allow.len()
            >= 2);
        let k = choose|k: int|
            {
                &&& 0 <= k < allow.len()
                &&& #[trigger] is_chosen_original(strategy, timestamps_of(g, facts, allow), k)
                &&& p.original == Option::Some(allow[k])
                &&& p.replacements@ == replacements_from_allowed(
                    g,
                    allow,
                    allow[k] as int,
                    allow.len() as int,
                )
            };
        lemma_replacements_membership(g, allow, allow[k] as int, allow.len() as int);
        assert forall|t: int|
            0 <= t < p.replacements@.len() implies member_allowed(
            facts,
            roots,
            #[trigger] p.replacements@[t] as int,
        ) by {
            let j = choose|j: int| 0 <= j < allow.len() && allow[j] == p.replacements@[t];
            assert(member_allowed(facts, roots, allow[j] as int));
        }
    }
}

/// Survivor invariant: the chosen original exists, resolves under a root,
/// and is never itself replaced; and the replacements are exactly the other
/// allowed, existing members — each becomes a symbolic link to the
/// survivor, which alone remains a regular file.
pub proof fn lemma_survivor_invariant(
    g: Seq<FileEntry>,
    facts: Seq<MemberFacts>,
    roots: Seq<String>,
    strategy: OriginalToKeep,
    p: GroupPlan,
    o: usize,
)
    requires
        plan_matches(g, facts, roots, strategy, p),
        g.len() <= usize::MAX,
        p.original == Option::Some(o),
    ensures
        o < g.len(),
        member_allowed(facts, roots, o as int),
        forall|k: int|
            0 <= k < p.replacements@.len() ==> g[#[trigger] p.replacements@[k] as int].path@ != g[
                o as int
            ].path@,
        !p.replacements@.contains(o),
        forall|i: int|
            0 <= i < g.len() && #[trigger] member_allowed(facts, roots, i) && g[i].path@ != g[
                o as int
            ].path@ ==> p.replacements@.contains(i as usize),
{
    let n = g.len() as int;
    let allow = allowed_upto(facts, roots, n);
    lemma_allowed_upto_props(facts, roots, n);
    let k = choose|k: int|
        {
            &&& 0 <= k < allow.len()
            &&& #[trigger] is_chosen_original(strategy, timestamps_of(g, facts, allow), k)
            &&& p.original == Option::Some(allow[k])
            &&& p.replacements@ == replacements_from_allowed(
                g,
                allow,
                allow[k] as int,
                allow.len() as int,
            )
        };
    assert(o == allow[k]);
    lemma_replacements_membership(g, allow, o as int, allow.len() as int);
    if p.replacements@.contains(o) {
        let t = choose|t: int| 0 <= t < p.replacements@.len() && p.replacements@[t] == o;
        assert(g[p.replacements@[t] as int].path@ != g[o as int].path@);
    }
    assert forall|i: int|
        0 <= i < g.len() && #[trigger] member_allowed(facts, roots, i) && g[i].path@ != g[
            o as int
        ].path@ implies p.replacements@.contains(i as usize) by {
        assert(allow.contains(i as usize));
        let j = choose|j: int| 0 <= j < allow.len() && allow[j] == i as usize;
        assert(p.replacements@.contains(allow[j]));
    }
}

/// Two correct plans for the same group, facts, roots and strategy agree on
/// every field: resolution is a function of its inputs, never of timing,
/// scheduling, or iteration order.
pub proof fn lemma_plan_deterministic(
    g: Seq<FileEntry>,
    facts: Seq<MemberFacts>,
    roots: Seq<String>,
    strategy: OriginalToKeep,
    p1: GroupPlan,
    p2: GroupPlan,
)
    requires
        plan_matches(g, facts, roots, strategy, p1),
        plan_matches(g, facts, roots, strategy, p2),
    ensures
        p1.hash_mismatch == p2.hash_mismatch,
        p1.missing@ == p2.missing@,
        p1.no_files_remain == p2.no_files_remain,
        p1.violations@ == p2.violations@,
        p1.original == p2.original,
        p1.replacements@ == p2.replacements@,
{
    let n = g.len() as int;
    let checked = n >= 2 && all_hashes_equal(g);
    let exist = existing_upto(facts, n);
    let viol = violations_upto(facts, roots, n);
    let allow = allowed_upto(facts, roots, n);
    if checked && exist.len() > 0 && viol.len() == 0 && allow.len() >= 2 {
        let ts = timestamps_of(g, facts, allow);
        let k1 = choose|k: int|
            {
                &&& 0 <= k < allow.len()
                &&& #[trigger] is_chosen_original(strategy, ts, k)
                &&& p1.original == Option::Some(allow[k])
                &&& p1.replacements@ == replacements_from_allowed(
                    g,
                    allow,
                    allow[k] as int,
                    allow.len() as int,
                )
            };
        let k2 = choose|k: int|
            {
                &&& 0 <= k < allow.len()
                &&& #[trigger] is_chosen_original(strategy, ts, k)
                &&& p2.original == Option::Some(allow[k])
                &&& p2.replacements@ == replacements_from_allowed(
                    g,
                    allow,
                    allow[k] as int,
                    allow.len() as int,
                )
            };
        lemma_choose_original_deterministic(strategy, ts, k1, k2);
    }
}

/// With no existing member there is no allowed member either.
pub proof fn lemma_existing_empty_means_allowed_empty(
    facts: Seq<MemberFacts>,
    roots: Seq<String>,
    n: int,
)
    requires
        existing_upto(facts, n).len() == 0,
    ensures
        allowed_upto(facts, roots, n).len() == 0,
        violations_upto(facts, roots, n).len() == 0,
    decreases n,
{
    if n > 0 {
        lemma_existing_empty_means_allowed_empty(facts, roots, n - 1);
    }
}

} // verus!
