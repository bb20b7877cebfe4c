//! `migrate`: loading, validating and running a migration plan.
use vstd::prelude::*;
use crate::cli::MigrateArgs;
use crate::error::RefactorError;
use crate::output::{line_views, out_blank, out_heading, out_info, out_success, wrote, LineKind, Output};
use crate::refactor::planner::{validate_plan, MigrationPlan};
use crate::text::{concat, decimal, spec_decimal};

verus! {

/// What `migrate` writes before loading its plan; the error when the plan
/// file does not exist.
pub fn start(output: &mut Output, args: &MigrateArgs, plan_exists: bool) -> (r: Result<(), RefactorError>)
    ensures
        !plan_exists ==> (r matches Err(RefactorError::MigrationPlan(m)) && m@ == "Plan file not found: "@ + args.plan@)
            && wrote(*final(output), *old(output), out_heading(*old(output), "Migration"@)),
        plan_exists ==> r is Ok && wrote(
            *final(output),
            *old(output),
            out_heading(*old(output), "Migration"@) + out_info(*old(output), "Plan: "@ + args.plan@),
        ),
{
    let ghost o = *output;
    let ghost s0 = line_views(output.lines@);
    output.heading("Migration");
    if !plan_exists {
        return Err(RefactorError::MigrationPlan(concat("Plan file not found: ", args.plan.as_str())));
    }
    output.info(concat("Plan: ", args.plan.as_str()).as_str());
    proof {
        assert(line_views(output.lines@) =~= s0 + (out_heading(o, "Migration"@) + out_info(o, "Plan: "@ + args.plan@)));
    }
    Ok(())
}

/// What `migrate` writes about a loaded, valid plan.
pub open spec fn loaded_lines(o: Output, n: nat, dry_run: bool) -> Seq<(LineKind, Seq<char>)> {
    out_info(o, "Operations: "@ + spec_decimal(n)) + out_success(o, "Plan is valid"@) + if dry_run {
        out_blank(o) + out_info(o, "Dry run \u{2014} showing planned operations:"@) + out_blank(o)
    } else {
        Seq::empty()
    }
}

/// Reports a loaded plan and validates it; the validation error when an
/// operation is invalid.
pub fn loaded(output: &mut Output, plan: &MigrationPlan, dry_run: bool) -> (r: Result<(), RefactorError>)
    ensures
        r is Ok <==> validate_plan_ok(*plan),
        r is Ok ==> wrote(*final(output), *old(output), loaded_lines(*old(output), plan.operations@.len(), dry_run)),
        r is Err ==> wrote(*final(output), *old(output), out_info(*old(output), "Operations: "@ + spec_decimal(plan.operations@.len()))),
{
    let ghost o = *output;
    let ghost s0 = line_views(output.lines@);
    output.info(concat("Operations: ", decimal(plan.operations.len()).as_str()).as_str());
    match validate_plan(plan) {
        Ok(()) => {},
        Err(e) => {
            return Err(e);
        },
    }
    output.success("Plan is valid");
    if dry_run {
        output.blank();
        output.info("Dry run \u{2014} showing planned operations:");
        output.blank();
    }
    proof {
        assert(line_views(output.lines@) =~= s0 + loaded_lines(o, plan.operations@.len(), dry_run));
    }
    Ok(())
}

/// Every operation of the plan is valid.
pub open spec fn validate_plan_ok(plan: MigrationPlan) -> bool {
    forall|i: int| 0 <= i < plan.operations@.len() ==> crate::refactor::planner::op_valid(#[trigger] plan.operations@[i])
}

/// What `migrate` writes at the end.
pub open spec fn finish_lines(o: Output, dry_run: bool) -> Seq<(LineKind, Seq<char>)> {
    if dry_run {
        out_blank(o) + out_info(o, "Dry run complete \u{2014} no changes were made."@)
    } else {
        out_success(o, "Migration complete"@)
    }
}

/// Reports the end of a migration.
pub fn finish(output: &mut Output, dry_run: bool) -> (r: i32)
    ensures
        r == 0,
        wrote(*final(output), *old(output), finish_lines(*old(output), dry_run)),
{
    let ghost o = *output;
    let ghost s0 = line_views(output.lines@);
    if dry_run {
        output.blank();
        output.info("Dry run complete \u{2014} no changes were made.");
    } else {
        output.success("Migration complete");
    }
    proof {
        assert(line_views(output.lines@) =~= s0 + finish_lines(o, dry_run));
    }
    0
}

/// What an import step of a plan writes.
pub fn import_step(output: &mut Output, imports_updated: usize)
    ensures
        wrote(
            *final(output),
            *old(output),
            out_info(*old(output), "  "@ + spec_decimal(imports_updated as nat) + " imports would be updated"@),
        ),
{
    let msg = concat(concat("  ", decimal(imports_updated).as_str()).as_str(), " imports would be updated");
    output.info(msg.as_str());
}

} // verus!
