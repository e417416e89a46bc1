//! Duplicate reports: groups of file entries keyed by byte size, and the
//! flattening of many reports into one stream of independent groups.

use vstd::prelude::*;
use crate::entry::{clone_entry, FileEntry};

verus! {

/// All duplicate groups of one byte size inside one report.
#[derive(Debug)]
pub struct SizeBucket {
    /// The byte size every file in these groups was recorded with.
    pub size_key: u64,
    /// The duplicate groups, in report document order.
    pub groups: Vec<Vec<FileEntry>>,
}

/// One parsed input document: duplicate groups keyed by file size.
#[derive(Debug)]
pub struct DuplicateReport {
    pub groups_by_size: Vec<SizeBucket>,
}

/// The groups of one report's buckets, concatenated in bucket order.
pub open spec fn bucket_groups(buckets: Seq<SizeBucket>) -> Seq<Vec<FileEntry>>
    decreases buckets.len(),
{
    if buckets.len() == 0 {
        Seq::empty()
    } else {
        bucket_groups(buckets.drop_last()) + buckets.last().groups@
    }
}

/// The groups of every report, concatenated in report order.
pub open spec fn report_groups(reports: Seq<DuplicateReport>) -> Seq<Vec<FileEntry>>
    decreases reports.len(),
{
    if reports.len() == 0 {
        Seq::empty()
    } else {
        report_groups(reports.drop_last()) + bucket_groups(reports.last().groups_by_size@)
    }
}

/// An explicit element-by-element copy of a group.
fn clone_group(g: &Vec<FileEntry>) -> (r: Vec<FileEntry>)
    ensures
        r@ == g@,
{
    let mut r: Vec<FileEntry> = Vec::new();
    let mut i: usize = 0;
    while i < g.len()
        invariant
            0 <= i <= g@.len(),
            r@.len() == i,
            forall|j: int| 0 <= j < i ==> #[trigger] r@[j] == g@[j],
        decreases g.len() - i,
    {
        r.push(clone_entry(&g[i]));
        i = i + 1;
    }
    proof {
        assert(r@ =~= g@);
    }
    r
}

/// `out` holds, group for group and entry for entry, the same contents as
/// the spec-level concatenation `full`.
pub open spec fn same_groups(out: Seq<Vec<FileEntry>>, full: Seq<Vec<FileEntry>>) -> bool {
    &&& out.len() == full.len()
    &&& forall|k: int| 0 <= k < full.len() ==> #[trigger] out[k]@ == full[k]@
}

/// Flattens every report into one stream of independent duplicate groups.
///
/// The size key plays no further role: each group already knows its
/// members, and groups are resolved in total isolation from one another.
pub fn flatten_reports(reports: &Vec<DuplicateReport>) -> (groups: Vec<Vec<FileEntry>>)
    ensures
        same_groups(groups@, report_groups(reports@)),
{
    let mut groups: Vec<Vec<FileEntry>> = Vec::new();
    let mut i: usize = 0;
    while i < reports.len()
        invariant
            0 <= i <= reports@.len(),
            same_groups(groups@, report_groups(reports@.subrange(0, i as int))),
        decreases reports.len() - i,
    {
        let buckets = &reports[i].groups_by_size;
        let mut b: usize = 0;
        while b < buckets.len()
            invariant
                0 <= b <= buckets@.len(),
                0 <= i < reports@.len(),
                buckets@ == reports@[i as int].groups_by_size@,
                same_groups(
                    groups@,
                    report_groups(reports@.subrange(0, i as int)) + bucket_groups(
                        buckets@.subrange(0, b as int),
                    ),
                ),
            decreases buckets.len() - b,
        {
            let bucket_group_list = &buckets[b].groups;
            let mut t: usize = 0;
            while t < bucket_group_list.len()
                invariant
                    0 <= t <= bucket_group_list@.len(),
                    0 <= b < buckets@.len(),
                    0 <= i < reports@.len(),
                    buckets@ == reports@[i as int].groups_by_size@,
                    bucket_group_list@ == buckets@[b as int].groups@,
                    same_groups(
                        groups@,
                        report_groups(reports@.subrange(0, i as int)) + bucket_groups(
                            buckets@.subrange(0, b as int),
                        ) + bucket_group_list@.subrange(0, t as int),
                    ),
                decreases bucket_group_list.len() - t,
            {
                groups.push(clone_group(&bucket_group_list[t]));
                proof {
                    let head = report_groups(reports@.subrange(0, i as int)) + bucket_groups(
                        buckets@.subrange(0, b as int),
                    );
                    let full_t = head + bucket_group_list@.subrange(0, t as int);
                    let full_t1 = head + bucket_group_list@.subrange(0, t + 1 as int);
                    assert(bucket_group_list@.subrange(0, t + 1 as int) =~= bucket_group_list@
                        .subrange(0, t as int).push(bucket_group_list@[t as int]));
                    assert(full_t1 =~= full_t.push(bucket_group_list@[t as int]));
                    assert forall|k: int|
                        0 <= k < full_t1.len() implies #[trigger] groups@[k]@ == full_t1[k]@ by {
                        if k < full_t.len() {
                            assert(groups@[k]@ == full_t[k]@);
                        } else {
                            assert(groups@[k]@ == bucket_group_list@[t as int]@);
                        }
                    }
                }
                t = t + 1;
            }
            proof {
                let sb = buckets@.subrange(0, b + 1 as int);
                assert(sb.drop_last() =~= buckets@.subrange(0, b as int));
                assert(sb.last() == buckets@[b as int]);
                assert(bucket_group_list@.subrange(0, bucket_group_list@.len() as int)
                    =~= bucket_group_list@);
                assert(report_groups(reports@.subrange(0, i as int)) + bucket_groups(sb)
                    =~= report_groups(reports@.subrange(0, i as int)) + bucket_groups(
                    buckets@.subrange(0, b as int),
                ) + bucket_group_list@.subrange(0, bucket_group_list@.len() as int));
            }
            b = b + 1;
        }
        proof {
            let sr = reports@.subrange(0, i + 1 as int);
            assert(sr.drop_last() =~= reports@.subrange(0, i as int));
            assert(sr.last() == reports@[i as int]);
            assert(buckets@.subrange(0, buckets@.len() as int) =~= buckets@);
            assert(report_groups(sr) =~= report_groups(reports@.subrange(0, i as int))
                + bucket_groups(buckets@));
        }
        i = i + 1;
    }
    proof {
        assert(reports@.subrange(0, reports@.len() as int) =~= reports@);
    }
    groups
}

} // verus!
