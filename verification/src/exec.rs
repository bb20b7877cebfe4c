//! Options that decide whether a mutating command writes.
use vstd::prelude::*;

verus! {

/// Whether a command previews (`dry_run`) and whether it was confirmed.
#[derive(Debug, Clone, Copy, Default)]
pub struct ExecOptions {
    pub dry_run: bool,
    pub confirm: bool,
}

impl ExecOptions {
    pub fn new(dry_run: bool, confirm: bool) -> (r: Self)
        ensures
            r.dry_run == dry_run,
            r.confirm == confirm,
    {
        ExecOptions { dry_run, confirm }
    }
}

} // verus!
