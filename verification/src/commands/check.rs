//! `check`: the consistency report of a repository and its exit code.
use vstd::prelude::*;
use crate::analyzers::consistency::ConsistencyReport;
use crate::analyzers::duplicates::DuplicateGroup;
use crate::analyzers::imports::{issue_views, IssueView};
use crate::analyzers::references::{broken_views, BrokenReference};
use crate::cli::CheckArgs;
use crate::commands::duplicates::{ascii_hashes, groups_lines, write_groups};
use crate::commands::{json_count, json_member};
use crate::languages::json::{jview, lemma_members_view, members_view, JsonValue, JsonView};
use crate::output::{
    line_views, out_blank, out_heading, out_info, out_result, out_success, out_warn, same_settings, summary_record, wrote,
    LineKind, Output, ScanResult,
};
use crate::text::{chars_of, concat, decimal, spec_decimal, string_from};

verus! {

/// The line of an import issue.
pub open spec fn issue_line(i: IssueView) -> Seq<char> {
    "  "@ + i.file + ":"@ + spec_decimal(i.line as nat) + " \u{2014} "@ + i.import_path + " ("@ + i.detail + ")"@
}

/// The lines of the first `k` issues.
pub open spec fn issue_lines(o: Output, issues: Seq<IssueView>, k: int) -> Seq<(LineKind, Seq<char>)>
    decreases k,
{
    if k <= 0 || k > issues.len() {
        Seq::empty()
    } else {
        issue_lines(o, issues, k - 1) + out_info(o, issue_line(issues[k - 1]))
    }
}

/// The line of a broken reference.
pub open spec fn broken_line(b: (Seq<char>, Seq<char>, Seq<char>)) -> Seq<char> {
    "  "@ + b.0 + " \u{2192} "@ + b.1 + " (resolved: "@ + b.2 + ")"@
}

/// The lines of the first `k` broken references.
pub open spec fn broken_lines(o: Output, refs: Seq<(Seq<char>, Seq<char>, Seq<char>)>, k: int) -> Seq<(LineKind, Seq<char>)>
    decreases k,
{
    if k <= 0 || k > refs.len() {
        Seq::empty()
    } else {
        broken_lines(o, refs, k - 1) + out_info(o, broken_line(refs[k - 1]))
    }
}

pub proof fn lemma_issue_lines_settings(a: Output, b: Output, issues: Seq<IssueView>, k: int)
    requires
        same_settings(a, b),
    ensures
        issue_lines(a, issues, k) == issue_lines(b, issues, k),
    decreases k,
{
    if k > 0 && k <= issues.len() {
        lemma_issue_lines_settings(a, b, issues, k - 1);
    }
}

pub proof fn lemma_broken_lines_settings(a: Output, b: Output, refs: Seq<(Seq<char>, Seq<char>, Seq<char>)>, k: int)
    requires
        same_settings(a, b),
    ensures
        broken_lines(a, refs, k) == broken_lines(b, refs, k),
    decreases k,
{
    if k > 0 && k <= refs.len() {
        lemma_broken_lines_settings(a, b, refs, k - 1);
    }
}

proof fn lemma_groups_lines_settings(a: Output, b: Output, groups: Seq<DuplicateGroup>, k: int)
    requires
        same_settings(a, b),
    ensures
        groups_lines(a, groups, false, k) == groups_lines(b, groups, false, k),
    decreases k,
{
    if k > 0 && k <= groups.len() {
        lemma_groups_lines_settings(a, b, groups, k - 1);
    }
}

/// Writes the issues.
pub fn write_issues(output: &mut Output, issues: &Vec<crate::analyzers::imports::ImportIssue>)
    ensures
        wrote(*final(output), *old(output), issue_lines(*old(output), issue_views(issues@), issues@.len() as int)),
{
    let ghost o = *output;
    let ghost start = line_views(output.lines@);
    let ghost iv = issue_views(issues@);
    let mut i: usize = 0;
    proof {
        assert(line_views(output.lines@) =~= start + issue_lines(o, iv, 0));
    }
    while i < issues.len()
        invariant
            i <= issues.len(),
            iv == issue_views(issues@),
            same_settings(*output, o),
            line_views(output.lines@) == start + issue_lines(o, iv, i as int),
        decreases issues.len() - i,
    {
        let it = &issues[i];
        let msg = concat(
            concat(
                concat(
                    concat(
                        concat(concat(concat(it.file.as_str(), ":").as_str(), decimal(it.line).as_str()).as_str(), " \u{2014} ").as_str(),
                        it.import_path.as_str(),
                    ).as_str(),
                    " (",
                ).as_str(),
                it.detail.as_str(),
            ).as_str(),
            ")",
        );
        let line = concat("  ", msg.as_str());
        output.line(line.as_str());
        proof {
            assert(iv[i as int] == crate::analyzers::imports::issue_view(*it));
            assert(line@ =~= issue_line(iv[i as int]));
            assert(line_views(output.lines@) =~= start + issue_lines(o, iv, i + 1));
        }
        i += 1;
    }
}

/// Writes the broken references.
pub fn write_broken(output: &mut Output, refs: &Vec<BrokenReference>)
    ensures
        wrote(*final(output), *old(output), broken_lines(*old(output), broken_views(refs@), refs@.len() as int)),
{
    let ghost o = *output;
    let ghost start = line_views(output.lines@);
    let ghost bv = broken_views(refs@);
    let mut i: usize = 0;
    proof {
        assert(line_views(output.lines@) =~= start + broken_lines(o, bv, 0));
    }
    while i < refs.len()
        invariant
            i <= refs.len(),
            bv == broken_views(refs@),
            same_settings(*output, o),
            line_views(output.lines@) == start + broken_lines(o, bv, i as int),
        decreases refs.len() - i,
    {
        let b = &refs[i];
        let msg = concat(
            concat(
                concat(concat(concat(b.from.as_str(), " \u{2192} ").as_str(), b.reference.as_str()).as_str(), " (resolved: ").as_str(),
                b.resolved.as_str(),
            ).as_str(),
            ")",
        );
        let line = concat("  ", msg.as_str());
        output.line(line.as_str());
        proof {
            assert(bv[i as int] == (b.from@, b.reference@, b.resolved@));
            assert(line@ =~= broken_line(bv[i as int]));
            assert(line_views(output.lines@) =~= start + broken_lines(o, bv, i + 1));
        }
        i += 1;
    }
}

/// The exit code of `check`: 1 when there are errors, or warnings under
/// `--strict`; 0 otherwise.
pub open spec fn check_exit_code(total_errors: nat, total_warnings: nat, strict: bool) -> i32 {
    if total_errors > 0 || (strict && total_warnings > 0) {
        1
    } else {
        0
    }
}

/// The import-issue section.
pub open spec fn issues_section(o: Output, issues: Seq<IssueView>) -> Seq<(LineKind, Seq<char>)> {
    if issues.len() > 0 {
        out_warn(o, spec_decimal(issues.len()) + " import issues found"@) + issue_lines(o, issues, issues.len() as int)
    } else {
        out_success(o, "No import issues found"@)
    }
}

/// The broken-reference section.
pub open spec fn broken_section(o: Output, broken: Seq<(Seq<char>, Seq<char>, Seq<char>)>) -> Seq<(LineKind, Seq<char>)> {
    if broken.len() > 0 {
        out_warn(o, spec_decimal(broken.len()) + " broken references found"@) + broken_lines(o, broken, broken.len() as int)
    } else {
        out_success(o, "No broken references found"@)
    }
}

/// The duplicate section.
pub open spec fn groups_section(o: Output, groups: Seq<DuplicateGroup>) -> Seq<(LineKind, Seq<char>)> {
    if groups.len() > 0 {
        out_warn(o, spec_decimal(groups.len()) + " duplicate groups found"@) + groups_lines(o, groups, false, groups.len() as int)
    } else {
        out_success(o, "No duplicate files found"@)
    }
}

/// The totals line.
pub open spec fn totals_section(o: Output, total_errors: nat, total_warnings: nat) -> Seq<(LineKind, Seq<char>)> {
    if total_errors == 0 && total_warnings == 0 {
        out_success(o, "Repository is consistent"@)
    } else {
        out_info(o, "Errors: "@ + spec_decimal(total_errors) + ", Warnings: "@ + spec_decimal(total_warnings))
    }
}

fn write_issues_section(output: &mut Output, issues: &Vec<crate::analyzers::imports::ImportIssue>)
    ensures
        wrote(*final(output), *old(output), issues_section(*old(output), issue_views(issues@))),
{
    let ghost o = *output;
    let ghost iv = issue_views(issues@);
    if issues.len() > 0 {
        let msg = concat(decimal(issues.len()).as_str(), " import issues found");
        output.warn(msg.as_str());
        let ghost oi = *output;
        write_issues(output, issues);
        proof {
            lemma_issue_lines_settings(oi, o, iv, iv.len() as int);
            assert(line_views(output.lines@) =~= line_views(o.lines@) + issues_section(o, iv));
        }
    } else {
        output.success("No import issues found");
    }
}

fn write_broken_section(output: &mut Output, refs: &Vec<BrokenReference>)
    ensures
        wrote(*final(output), *old(output), broken_section(*old(output), broken_views(refs@))),
{
    let ghost o = *output;
    let ghost bv = broken_views(refs@);
    if refs.len() > 0 {
        let msg = concat(decimal(refs.len()).as_str(), " broken references found");
        output.warn(msg.as_str());
        let ghost ob = *output;
        write_broken(output, refs);
        proof {
            lemma_broken_lines_settings(ob, o, bv, bv.len() as int);
            assert(line_views(output.lines@) =~= line_views(o.lines@) + broken_section(o, bv));
        }
    } else {
        output.success("No broken references found");
    }
}

fn write_groups_section(output: &mut Output, duplicates: &Vec<DuplicateGroup>)
    requires
        ascii_hashes(duplicates@),
    ensures
        wrote(*final(output), *old(output), groups_section(*old(output), duplicates@)),
{
    let ghost o = *output;
    if duplicates.len() > 0 {
        let msg = concat(decimal(duplicates.len()).as_str(), " duplicate groups found");
        output.warn(msg.as_str());
        let ghost og = *output;
        write_groups(output, duplicates, false);
        proof {
            lemma_groups_lines_settings(og, o, duplicates@, duplicates@.len() as int);
            assert(line_views(output.lines@) =~= line_views(o.lines@) + groups_section(o, duplicates@));
        }
    } else {
        output.success("No duplicate files found");
    }
}

fn write_totals(output: &mut Output, total_errors: usize, total_warnings: usize)
    ensures
        wrote(*final(output), *old(output), totals_section(*old(output), total_errors as nat, total_warnings as nat)),
{
    if total_errors == 0 && total_warnings == 0 {
        output.success("Repository is consistent");
    } else {
        let msg = concat(
            concat(concat("Errors: ", decimal(total_errors).as_str()).as_str(), ", Warnings: ").as_str(),
            decimal(total_warnings).as_str(),
        );
        output.info(msg.as_str());
    }
}

/// The data of the summary of `check`: the number of each kind of finding
/// and the totals.
pub open spec fn check_data(issues: nat, broken: nat, groups: nat, total_errors: nat, total_warnings: nat) -> JsonView {
    JsonView::Object(
        seq![
            ("broken_references"@, JsonView::Int(broken as int)),
            ("duplicate_groups"@, JsonView::Int(groups as int)),
            ("import_issues"@, JsonView::Int(issues as int)),
            ("total_errors"@, JsonView::Int(total_errors as int)),
            ("total_warnings"@, JsonView::Int(total_warnings as int)),
        ],
    )
}

fn check_summary(report: &ConsistencyReport, groups: usize, total_errors: usize, total_warnings: usize) -> (r: ScanResult)
    ensures
        r.command@ == "check"@,
        r.files_scanned == 0,
        r.files_changed is None && r.replacements is None && r.skipped is None,
        r.errors == Some(total_errors),
        r.data matches Some(d) && jview(d) == check_data(
            report.import_issues@.len(),
            report.broken_references@.len(),
            groups as nat,
            total_errors as nat,
            total_warnings as nat,
        ),
{
    let mut data: Vec<(String, JsonValue)> = Vec::new();
    data.push(json_member("broken_references", json_count(report.broken_references.len())));
    data.push(json_member("duplicate_groups", json_count(groups)));
    data.push(json_member("import_issues", json_count(report.import_issues.len())));
    data.push(json_member("total_errors", json_count(total_errors)));
    data.push(json_member("total_warnings", json_count(total_warnings)));
    proof {
        lemma_members_view(data@, 0);
        assert(members_view(data@, 0) =~= match check_data(
            report.import_issues@.len(),
            report.broken_references@.len(),
            groups as nat,
            total_errors as nat,
            total_warnings as nat,
        ) {
            JsonView::Object(m) => m,
            _ => Seq::empty(),
        });
    }
    ScanResult {
        command: string_from(&chars_of("check")),
        files_scanned: 0,
        files_changed: None,
        replacements: None,
        errors: Some(total_errors),
        skipped: None,
        data: Some(JsonValue::Object(data)),
    }
}

/// The first part of the report: headings and import issues.
pub open spec fn check_part1(o: Output, issues: Seq<IssueView>) -> Seq<(LineKind, Seq<char>)> {
    out_heading(o, "Checking repository consistency"@) + out_blank(o) + out_heading(o, "Results"@) + issues_section(o, issues)
        + out_blank(o)
}

/// The second part of the report: broken references and duplicates.
pub open spec fn check_part2(o: Output, broken: Seq<(Seq<char>, Seq<char>, Seq<char>)>, groups: Seq<DuplicateGroup>) -> Seq<
    (LineKind, Seq<char>),
> {
    broken_section(o, broken) + out_blank(o) + groups_section(o, groups) + out_blank(o)
}

fn write_part1(output: &mut Output, issues: &Vec<crate::analyzers::imports::ImportIssue>)
    ensures
        wrote(*final(output), *old(output), check_part1(*old(output), issue_views(issues@))),
{
    let ghost o = *output;
    let ghost s0 = line_views(output.lines@);
    output.heading("Checking repository consistency");
    output.blank();
    output.heading("Results");
    let ghost oa = *output;
    write_issues_section(output, issues);
    output.blank();
    proof {
        lemma_issue_lines_settings(oa, o, issue_views(issues@), issues@.len() as int);
        assert(line_views(output.lines@) =~= s0 + check_part1(o, issue_views(issues@)));
    }
}

fn write_part2(output: &mut Output, refs: &Vec<BrokenReference>, duplicates: &Vec<DuplicateGroup>)
    requires
        ascii_hashes(duplicates@),
    ensures
        wrote(*final(output), *old(output), check_part2(*old(output), broken_views(refs@), duplicates@)),
{
    let ghost o = *output;
    let ghost s0 = line_views(output.lines@);
    write_broken_section(output, refs);
    output.blank();
    let ghost og = *output;
    write_groups_section(output, duplicates);
    output.blank();
    proof {
        lemma_groups_lines_settings(og, o, duplicates@, duplicates@.len() as int);
        assert(line_views(output.lines@) =~= s0 + check_part2(o, broken_views(refs@), duplicates@));
    }
}

/// Reports the consistency of a repository: its import issues, broken
/// references and duplicate groups (each group an error), the totals, and
/// the exit code.
#[verifier::rlimit(50)]
pub fn run(output: &mut Output, args: &CheckArgs, report: &ConsistencyReport, duplicates: &Vec<DuplicateGroup>) -> (r: i32)
    requires
        report.total_errors + duplicates@.len() <= usize::MAX,
        ascii_hashes(duplicates@),
    ensures
        r == check_exit_code((report.total_errors + duplicates@.len()) as nat, report.total_warnings as nat, args.strict),
        wrote(
            *final(output),
            *old(output),
            check_part1(*old(output), issue_views(report.import_issues@)) + check_part2(
                *old(output),
                broken_views(report.broken_references@),
                duplicates@,
            ) + totals_section(*old(output), (report.total_errors + duplicates@.len()) as nat, report.total_warnings as nat)
                + out_result(*old(output), "check"@),
        ),
        old(output).json_mode ==> (final(output).lines@.last().record matches Some(rec) && summary_record(
            rec,
            "check"@,
            0,
            None,
            None,
            Some((report.total_errors + duplicates@.len()) as usize),
        ) && (rec.data matches Some(d) && jview(d) == check_data(
            report.import_issues@.len(),
            report.broken_references@.len(),
            duplicates@.len(),
            (report.total_errors + duplicates@.len()) as nat,
            report.total_warnings as nat,
        ))),
{
    let ghost o = *output;
    let ghost s0 = line_views(output.lines@);
    write_part1(output, &report.import_issues);
    let ghost o1 = *output;
    write_part2(output, &report.broken_references, duplicates);
    proof {
        lemma_groups_lines_settings(o1, o, duplicates@, duplicates@.len() as int);
        lemma_broken_lines_settings(o1, o, broken_views(report.broken_references@), report.broken_references@.len() as int);
    }
    let total_errors = report.total_errors + duplicates.len();
    let total_warnings = report.total_warnings;
    write_totals(output, total_errors, total_warnings);
    if output.json_mode {
        let summary = check_summary(report, duplicates.len(), total_errors, total_warnings);
        output.print_json_result(summary);
    }
    proof {
        assert(line_views(output.lines@) =~= s0 + (check_part1(o, issue_views(report.import_issues@)) + check_part2(
            o,
            broken_views(report.broken_references@),
            duplicates@,
        ) + totals_section(o, total_errors as nat, total_warnings as nat) + out_result(o, "check"@)));
    }
    if total_errors > 0 || (args.strict && total_warnings > 0) {
        1
    } else {
        0
    }
}

} // verus!
