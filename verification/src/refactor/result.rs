//! What applying a plan achieved.
use vstd::prelude::*;

verus! {

/// The number of files changed and of files that could not be written.
pub struct ChangeResult {
    pub files_changed: usize,
    pub errors: usize,
}

/// Number of the first `k` outcomes equal to `b`.
pub open spec fn count_outcomes(v: Seq<bool>, b: bool, k: int) -> nat
    decreases k,
{
    if k <= 0 || k > v.len() {
        0
    } else {
        count_outcomes(v, b, k - 1) + if v[k - 1] == b {
            1nat
        } else {
            0nat
        }
    }
}

/// Counts the outcome of writing each file of a plan (`true` for written);
/// in a dry run every planned file counts as changed and nothing is written.
pub fn tally(dry_run: bool, planned: usize, written: &Vec<bool>) -> (r: ChangeResult)
    ensures
        dry_run ==> r.files_changed == planned && r.errors == 0,
        !dry_run ==> r.files_changed == count_outcomes(written@, true, written@.len() as int) && r.errors == count_outcomes(
            written@,
            false,
            written@.len() as int,
        ),
{
    if dry_run {
        return ChangeResult { files_changed: planned, errors: 0 };
    }
    let mut changed: usize = 0;
    let mut errors: usize = 0;
    let mut i: usize = 0;
    while i < written.len()
        invariant
            i <= written.len(),
            changed == count_outcomes(written@, true, i as int),
            errors == count_outcomes(written@, false, i as int),
            changed + errors == i,
        decreases written.len() - i,
    {
        if written[i] {
            changed += 1;
        } else {
            errors += 1;
        }
        i += 1;
    }
    ChangeResult { files_changed: changed, errors }
}

} // verus!
