//! The file descriptions that duplicate reports carry, and the
//! hash-consistency check that guards every destructive action.

use vstd::prelude::*;

verus! {

/// One file description taken from a duplicate report.
///
/// Immutable once constructed; `modified_date` is Unix epoch seconds and
/// `size` is bytes, both as recorded at scan time. The path may be relative
/// or absolute and is not guaranteed to still exist on disk.
#[derive(Debug)]
pub struct FileEntry {
    pub path: String,
    pub modified_date: i64,
    pub size: i64,
    pub hash: String,
}

/// All members of a group claim the same content hash.
pub open spec fn all_hashes_equal(g: Seq<FileEntry>) -> bool {
    forall|i: int, j: int|
        0 <= i < g.len() && 0 <= j < g.len() ==> #[trigger] g[i].hash@ == #[trigger] g[j].hash@
}

/// True iff every entry of the group reports the same hash as every other.
///
/// A group of fewer than two entries is vacuously consistent.
pub fn confirm_hashes_match(elms: &Vec<FileEntry>) -> (r: bool)
    ensures
        r == all_hashes_equal(elms@),
{
    let mut i: usize = 1;
    while i < elms.len()
        invariant
            1 <= i,
            i <= elms.len() || elms.len() == 0,
            forall|k: int|
                0 <= k < i && k < elms@.len() ==> #[trigger] elms@[k].hash@ == elms@[0].hash@,
        decreases elms.len() - i,
    {
        if !eq_strings(&elms[i].hash, &elms[0].hash) {
            assert(!all_hashes_equal(elms@));
            return false;
        }
        i = i + 1;
    }
    assert forall|i: int, j: int|
        0 <= i < elms@.len() && 0 <= j < elms@.len() implies #[trigger] elms@[i].hash@
        == #[trigger] elms@[j].hash@ by {
        assert(elms@[i].hash@ == elms@[0].hash@);
        assert(elms@[j].hash@ == elms@[0].hash@);
    }
    true
}

/// String equality by value.
pub fn eq_strings(a: &String, b: &String) -> (r: bool)
    ensures
        r == (a@ == b@),
{
    a.eq(b)
}

/// An explicit field-by-field copy of an entry.
pub fn clone_entry(e: &FileEntry) -> (r: FileEntry)
    ensures
        r == *e,
{
    FileEntry {
        path: e.path.clone(),
        modified_date: e.modified_date,
        size: e.size,
        hash: e.hash.clone(),
    }
}

} // verus!
