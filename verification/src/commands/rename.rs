//! `rename`: the plan, the confirmation, and the result.
use vstd::prelude::*;
use crate::output::{line_views, out_blank, out_heading, out_success, out_warn, same_settings, wrote, LineKind, Output};
use crate::refactor::rename::{affected_views, rename_plan_lines, show_rename_plan, RenamePlan};
use crate::refactor::result::ChangeResult;
use crate::text::{concat, decimal, spec_decimal};

verus! {

/// Writes the heading of `rename`.
pub fn start(output: &mut Output)
    ensures
        wrote(*final(output), *old(output), out_heading(*old(output), "Rename"@)),
{
    output.heading("Rename");
}

/// What `rename` writes about its plan, and whether it is done (`Some`
/// exit code: 0 for a dry run, 2 without confirmation) or goes on (`None`).
pub open spec fn plan_report(o: Output, plan: RenamePlan, dry_run: bool, confirmed: bool) -> (Seq<(LineKind, Seq<char>)>, Option<i32>) {
    if dry_run {
        (rename_plan_lines(o, plan, true), Some(0))
    } else if !confirmed {
        (rename_plan_lines(o, plan, false) + out_warn(o, "Rename requires --yes to confirm (or use --dry-run)"@), Some(2))
    } else {
        (rename_plan_lines(o, plan, false), None)
    }
}

proof fn lemma_affected(a: Output, b: Output, v: Seq<crate::refactor::rename::AffectedView>, k: int)
    requires
        same_settings(a, b),
    ensures
        crate::refactor::rename::affected_lines(a, v, k) == crate::refactor::rename::affected_lines(b, v, k),
    decreases k,
{
    if k > 0 && k <= v.len() {
        lemma_affected(a, b, v, k - 1);
    }
}

/// Shows the plan of a rename; a dry run ends with 0, an unconfirmed rename
/// with 2.
pub fn report_plan(output: &mut Output, plan: &RenamePlan, dry_run: bool, confirmed: bool) -> (r: Option<i32>)
    ensures
        r == plan_report(*old(output), *plan, dry_run, confirmed).1,
        wrote(*final(output), *old(output), plan_report(*old(output), *plan, dry_run, confirmed).0),
{
    let ghost o = *output;
    let ghost s0 = line_views(output.lines@);
    show_rename_plan(output, plan, dry_run);
    if dry_run {
        return Some(0);
    }
    if !confirmed {
        output.warn("Rename requires --yes to confirm (or use --dry-run)");
        proof {
            assert(line_views(output.lines@) =~= s0 + plan_report(o, *plan, dry_run, confirmed).0);
        }
        return Some(2);
    }
    None
}

/// What `rename` writes once applied.
pub open spec fn result_lines(o: Output, plan: RenamePlan, result: ChangeResult) -> Seq<(LineKind, Seq<char>)> {
    out_blank(o) + out_success(o, spec_decimal(result.files_changed as nat) + " files updated"@) + (if result.errors > 0 {
        out_warn(o, spec_decimal(result.errors as nat) + " files failed"@)
    } else {
        Seq::empty()
    }) + out_success(o, "Renamed "@ + plan.source_relative@ + " \u{2192} "@ + plan.dest_relative@)
}

/// Reports the result of a rename.
pub fn report_result(output: &mut Output, plan: &RenamePlan, result: &ChangeResult) -> (r: i32)
    ensures
        r == 0,
        wrote(*final(output), *old(output), result_lines(*old(output), *plan, *result)),
{
    let ghost o = *output;
    let ghost s0 = line_views(output.lines@);
    output.blank();
    output.success(concat(decimal(result.files_changed).as_str(), " files updated").as_str());
    if result.errors > 0 {
        output.warn(concat(decimal(result.errors).as_str(), " files failed").as_str());
    }
    let msg = concat(concat(concat("Renamed ", plan.source_relative.as_str()).as_str(), " \u{2192} ").as_str(), plan.dest_relative.as_str());
    output.success(msg.as_str());
    proof {
        assert(line_views(output.lines@) =~= s0 + result_lines(o, *plan, *result));
    }
    0
}

} // verus!
