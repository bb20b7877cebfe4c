//! `replace`: the plan, the confirmation of a dry run, and the result.
use vstd::prelude::*;
use crate::cli::ReplaceArgs;
use crate::context::RepoContext;
use crate::output::{line_views, out_blank, out_heading, out_info, out_result, out_success, out_verbose, out_warn, same_settings, summary_record, wrote, LineKind, Output, ScanResult};
use crate::refactor::replacement::{file_change_views, plan_lines, show_plan, ReplacePlan};
use crate::refactor::result::ChangeResult;
use crate::text::{chars_of, concat, decimal, spec_decimal, string_from};

verus! {

/// `format!("{b}")` for a boolean.
pub open spec fn bool_text(b: bool) -> Seq<char> {
    if b {
        "true"@
    } else {
        "false"@
    }
}

fn bool_string(b: bool) -> (r: String)
    ensures
        r@ == bool_text(b),
{
    if b {
        string_from(&chars_of("true"))
    } else {
        string_from(&chars_of("false"))
    }
}

/// What `replace` writes before planning.
pub open spec fn start_lines(o: Output, args: ReplaceArgs) -> Seq<(LineKind, Seq<char>)> {
    out_heading(o, "Replace"@) + out_info(o, "Old: \""@ + args.old@ + "\""@) + out_info(o, "New: \""@ + args.new@ + "\""@)
        + out_blank(o)
}

/// Writes what `replace` shows before planning.
pub fn start(output: &mut Output, args: &ReplaceArgs)
    ensures
        wrote(*final(output), *old(output), start_lines(*old(output), *args)),
{
    let ghost o = *output;
    let ghost s0 = line_views(output.lines@);
    output.heading("Replace");
    output.info(concat(concat("Old: \"", args.old.as_str()).as_str(), "\"").as_str());
    output.info(concat(concat("New: \"", args.new.as_str()).as_str(), "\"").as_str());
    output.blank();
    proof {
        assert(line_views(output.lines@) =~= s0 + start_lines(o, *args));
    }
}

/// The verbose description of the pattern.
pub open spec fn pattern_note(args: ReplaceArgs) -> Seq<char> {
    "Pattern: "@ + args.old@ + " (regex="@ + bool_text(args.regex) + ", case_sensitive="@ + bool_text(args.case_sensitive)
        + ", whole_word="@ + bool_text(args.whole_word) + ")"@
}

/// The warning about a dirty work tree is due: a real run in a git
/// repository with uncommitted changes, unless allowed.
pub open spec fn warns_dirty(ctx: RepoContext, args: ReplaceArgs, dry_run: bool, dirty: bool) -> bool {
    !dry_run && ctx.is_git && dirty && !args.allow_dirty
}

/// What `replace` writes between planning and the plan.
pub open spec fn head_lines(o: Output, ctx: RepoContext, args: ReplaceArgs, dry_run: bool, dirty: bool) -> Seq<(LineKind, Seq<char>)> {
    out_verbose(o, pattern_note(args)) + if dry_run {
        out_blank(o)
    } else if warns_dirty(ctx, args, dry_run, dirty) {
        out_warn(o, "Git working tree is dirty \u{2014} modified/untracked files may be overwritten."@) + out_info(
            o,
            "Use --allow-dirty to silence this warning."@,
        ) + out_blank(o)
    } else {
        Seq::empty()
    }
}

fn pattern_note_of(args: &ReplaceArgs) -> (r: String)
    ensures
        r@ == pattern_note(*args),
{
    let a = concat(concat(concat("Pattern: ", args.old.as_str()).as_str(), " (regex=").as_str(), bool_string(args.regex).as_str());
    let b = concat(concat(a.as_str(), ", case_sensitive=").as_str(), bool_string(args.case_sensitive).as_str());
    let c = concat(concat(b.as_str(), ", whole_word=").as_str(), bool_string(args.whole_word).as_str());
    let note = concat(c.as_str(), ")");
    proof {
        assert(note@ =~= pattern_note(*args));
    }
    note
}

fn write_head(ctx: &RepoContext, output: &mut Output, args: &ReplaceArgs, dry_run: bool, dirty: bool)
    ensures
        wrote(*final(output), *old(output), head_lines(*old(output), *ctx, *args, dry_run, dirty)),
{
    let ghost o = *output;
    let ghost s0 = line_views(output.lines@);
    let note = pattern_note_of(args);
    output.verbose_msg(note.as_str());
    if dry_run {
        output.blank();
    } else if ctx.is_git && dirty && !args.allow_dirty {
        output.warn("Git working tree is dirty \u{2014} modified/untracked files may be overwritten.");
        output.info("Use --allow-dirty to silence this warning.");
        output.blank();
    }
    proof {
        assert(line_views(output.lines@) =~= s0 + head_lines(o, *ctx, *args, dry_run, dirty));
    }
}

/// What `replace` writes about its plan, and whether it is done (`Some`
/// exit code) or goes on to apply the plan (`None`).
pub open spec fn plan_report(o: Output, ctx: RepoContext, args: ReplaceArgs, plan: ReplacePlan, dry_run: bool, dirty: bool) -> (Seq<
    (LineKind, Seq<char>),
>, Option<i32>) {
    let head = head_lines(o, ctx, args, dry_run, dirty);
    if plan.changes@.len() == 0 {
        (head + out_success(o, "No matches found. Nothing to replace."@), Some(0))
    } else if dry_run {
        (head + plan_lines(o, plan, true) + out_result(o, "replace"@), Some(0))
    } else {
        (head + plan_lines(o, plan, false), None)
    }
}

/// Reports the plan of a replacement: the pattern (when verbose), the dirty
/// work-tree warning, and the plan; a dry run or an empty plan ends here
/// with exit code 0.
pub fn report_plan(
    ctx: &RepoContext,
    output: &mut Output,
    args: &ReplaceArgs,
    plan: &ReplacePlan,
    dry_run: bool,
    dirty: bool,
) -> (r: Option<i32>)
    ensures
        r == plan_report(*old(output), *ctx, *args, *plan, dry_run, dirty).1,
        wrote(*final(output), *old(output), plan_report(*old(output), *ctx, *args, *plan, dry_run, dirty).0),
        old(output).json_mode && dry_run && plan.changes@.len() > 0 ==> (final(output).lines@.last().record matches Some(
            rec,
        ) && summary_record(rec, "replace"@, 0, Some(plan.files_affected), Some(plan.replacements), None)
            && rec.data is None),
{
    let ghost o = *output;
    let ghost s0 = line_views(output.lines@);
    write_head(ctx, output, args, dry_run, dirty);
    let ghost s1 = line_views(output.lines@);
    let ghost o1 = *output;
    if plan.changes.len() == 0 {
        output.success("No matches found. Nothing to replace.");
        proof {
            assert(line_views(output.lines@) =~= s0 + plan_report(o, *ctx, *args, *plan, dry_run, dirty).0);
        }
        return Some(0);
    }
    show_plan(output, plan, dry_run);
    proof {
        lemma_plan_lines_settings(o1, o, *plan, dry_run);
    }
    if dry_run {
        output.print_json_result(
            ScanResult {
                command: string_from(&chars_of("replace")),
                files_scanned: 0,
                files_changed: Some(plan.files_affected),
                replacements: Some(plan.replacements),
                errors: None,
                skipped: None,
                data: None,
            },
        );
        proof {
            assert(line_views(output.lines@) =~= s0 + plan_report(o, *ctx, *args, *plan, dry_run, dirty).0);
        }
        return Some(0);
    }
    proof {
        assert(line_views(output.lines@) =~= s0 + plan_report(o, *ctx, *args, *plan, dry_run, dirty).0);
    }
    None
}

proof fn lemma_plan_lines_settings(a: Output, b: Output, plan: ReplacePlan, dry_run: bool)
    requires
        same_settings(a, b),
    ensures
        plan_lines(a, plan, dry_run) == plan_lines(b, plan, dry_run),
{
    let v = file_change_views(plan.changes@);
    lemma_list(a, b, v, v.len() as int);
}

proof fn lemma_list(a: Output, b: Output, v: Seq<(Seq<char>, Seq<char>, nat, Seq<char>, bool)>, k: int)
    requires
        same_settings(a, b),
    ensures
        crate::refactor::replacement::change_list_lines(a, v, k) == crate::refactor::replacement::change_list_lines(b, v, k),
    decreases k,
{
    if k > 0 && k <= v.len() {
        lemma_list(a, b, v, k - 1);
    }
}

/// What `replace` writes once the plan is applied.
pub open spec fn result_lines(o: Output, result: ChangeResult) -> Seq<(LineKind, Seq<char>)> {
    out_blank(o) + out_success(o, spec_decimal(result.files_changed as nat) + " files updated"@) + (if result.errors > 0 {
        out_warn(o, spec_decimal(result.errors as nat) + " errors occurred"@)
    } else {
        Seq::empty()
    }) + out_result(o, "replace"@)
}

/// Reports the result of applying a replacement; exit code 6 when some
/// file could not be written.
pub fn report_result(output: &mut Output, plan: &ReplacePlan, result: &ChangeResult) -> (r: i32)
    ensures
        r == if result.errors > 0 { 6i32 } else { 0i32 },
        wrote(*final(output), *old(output), result_lines(*old(output), *result)),
        old(output).json_mode ==> (final(output).lines@.last().record matches Some(rec) && summary_record(
            rec,
            "replace"@,
            0,
            Some(result.files_changed),
            Some(plan.replacements),
            Some(result.errors),
        ) && rec.data is None),
{
    let ghost o = *output;
    let ghost s0 = line_views(output.lines@);
    output.blank();
    output.success(concat(decimal(result.files_changed).as_str(), " files updated").as_str());
    if result.errors > 0 {
        output.warn(concat(decimal(result.errors).as_str(), " errors occurred").as_str());
    }
    output.print_json_result(
        ScanResult {
            command: string_from(&chars_of("replace")),
            files_scanned: 0,
            files_changed: Some(result.files_changed),
            replacements: Some(plan.replacements),
            errors: Some(result.errors),
            skipped: None,
            data: None,
        },
    );
    proof {
        assert(line_views(output.lines@) =~= s0 + result_lines(o, *result));
    }
    if result.errors > 0 {
        6
    } else {
        0
    }
}

} // verus!
