//! `paths`: broken path references, path checks and path migrations.
use vstd::prelude::*;
use crate::analyzers::imports::{issue_views, ImportIssue, IssueKind, IssueView};
use crate::analyzers::references::{broken_views, BrokenReference};
use crate::commands::check::{broken_lines, lemma_broken_lines_settings, write_broken};
use crate::output::{line_views, out_blank, out_heading, out_info, out_success, out_warn, same_settings, wrote, LineKind, Output};
use crate::refactor::path_migration::{path_change_views, PathChangeView, PathMigrationPlan};
use crate::text::{concat, decimal, spec_decimal};

verus! {

/// What `paths scan` writes.
pub open spec fn scan_lines(o: Output, broken: Seq<(Seq<char>, Seq<char>, Seq<char>)>) -> Seq<(LineKind, Seq<char>)> {
    out_heading(o, "Path Scan"@) + out_info(o, "Broken path references: "@ + spec_decimal(broken.len())) + if broken.len() > 0 {
        out_blank(o) + broken_lines(o, broken, broken.len() as int)
    } else {
        Seq::empty()
    }
}

/// Reports the broken path references.
pub fn scan(output: &mut Output, broken: &Vec<BrokenReference>) -> (r: i32)
    ensures
        r == 0,
        wrote(*final(output), *old(output), scan_lines(*old(output), broken_views(broken@))),
{
    let ghost o = *output;
    let ghost s0 = line_views(output.lines@);
    output.heading("Path Scan");
    output.info(concat("Broken path references: ", decimal(broken.len()).as_str()).as_str());
    if broken.len() > 0 {
        output.blank();
        let ghost ob = *output;
        write_broken(output, broken);
        proof {
            lemma_broken_lines_settings(ob, o, broken_views(broken@), broken@.len() as int);
        }
    }
    proof {
        assert(line_views(output.lines@) =~= s0 + scan_lines(o, broken_views(broken@)));
    }
    0
}

/// Number of broken imports among the first `k` issues.
pub open spec fn broken_imports(issues: Seq<IssueView>, k: int) -> nat
    decreases k,
{
    if k <= 0 || k > issues.len() {
        0
    } else {
        broken_imports(issues, k - 1) + if issues[k - 1].kind == IssueKind::BrokenImport {
            1nat
        } else {
            0nat
        }
    }
}

/// The short lines of the first `k` broken references.
pub open spec fn short_broken_lines(o: Output, refs: Seq<(Seq<char>, Seq<char>, Seq<char>)>, k: int) -> Seq<(LineKind, Seq<char>)>
    decreases k,
{
    if k <= 0 || k > refs.len() {
        Seq::empty()
    } else {
        short_broken_lines(o, refs, k - 1) + out_info(o, "  Broken: "@ + refs[k - 1].0 + " \u{2192} "@ + refs[k - 1].1)
    }
}

/// The lines of the broken imports among the first `k` issues.
pub open spec fn broken_import_lines(o: Output, issues: Seq<IssueView>, k: int) -> Seq<(LineKind, Seq<char>)>
    decreases k,
{
    if k <= 0 || k > issues.len() {
        Seq::empty()
    } else {
        broken_import_lines(o, issues, k - 1) + if issues[k - 1].kind == IssueKind::BrokenImport {
            out_info(
                o,
                "  Broken import: "@ + issues[k - 1].file + ":"@ + spec_decimal(issues[k - 1].line as nat) + " \u{2014} "@
                    + issues[k - 1].import_path,
            )
        } else {
            Seq::empty()
        }
    }
}

/// What `paths check` writes.
pub open spec fn check_lines(o: Output, broken: Seq<(Seq<char>, Seq<char>, Seq<char>)>, issues: Seq<IssueView>) -> Seq<
    (LineKind, Seq<char>),
> {
    let total = broken.len() + broken_imports(issues, issues.len() as int);
    out_heading(o, "Path Check"@) + if total == 0 {
        out_success(o, "All paths are valid"@)
    } else {
        out_warn(o, spec_decimal(total) + " path issues found"@) + short_broken_lines(o, broken, broken.len() as int)
            + broken_import_lines(o, issues, issues.len() as int)
    }
}

proof fn lemma_broken_imports_bound(issues: Seq<IssueView>, k: int)
    requires
        0 <= k <= issues.len(),
    ensures
        broken_imports(issues, k) <= k,
    decreases k,
{
    if k > 0 {
        lemma_broken_imports_bound(issues, k - 1);
    }
}

/// Reports broken path references and broken imports; exit code 1 when
/// there is any.
pub fn check(output: &mut Output, broken: &Vec<BrokenReference>, issues: &Vec<ImportIssue>) -> (r: i32)
    requires
        broken@.len() + issues@.len() <= usize::MAX,
    ensures
        r == if broken@.len() + broken_imports(issue_views(issues@), issues@.len() as int) > 0 { 1i32 } else { 0i32 },
        wrote(*final(output), *old(output), check_lines(*old(output), broken_views(broken@), issue_views(issues@))),
{
    let ghost o = *output;
    let ghost s0 = line_views(output.lines@);
    let ghost iv = issue_views(issues@);
    let ghost bv = broken_views(broken@);
    output.heading("Path Check");
    let mut n: usize = 0;
    let mut i: usize = 0;
    while i < issues.len()
        invariant
            i <= issues.len(),
            iv == issue_views(issues@),
            n == broken_imports(iv, i as int),
        decreases issues.len() - i,
    {
        proof {
            lemma_broken_imports_bound(iv, i as int);
            assert(iv[i as int].kind == issues@[i as int].kind);
        }
        match issues[i].kind {
            IssueKind::BrokenImport => {
                n += 1;
            },
            _ => {},
        }
        i += 1;
    }
    proof {
        lemma_broken_imports_bound(iv, iv.len() as int);
    }
    let total = broken.len() + n;
    if total == 0 {
        output.success("All paths are valid");
    } else {
        output.warn(concat(decimal(total).as_str(), " path issues found").as_str());
        let ghost s1 = line_views(output.lines@);
        let ghost os = *output;
        let mut k: usize = 0;
        while k < broken.len()
            invariant
                k <= broken.len(),
                bv == broken_views(broken@),
                same_settings(*output, os),
                line_views(output.lines@) == s1 + short_broken_lines(os, bv, k as int),
            decreases broken.len() - k,
        {
            let b = &broken[k];
            let line = concat(concat(concat("  Broken: ", b.from.as_str()).as_str(), " \u{2192} ").as_str(), b.reference.as_str());
            output.line(line.as_str());
            proof {
                assert(bv[k as int] == (b.from@, b.reference@, b.resolved@));
                assert(line_views(output.lines@) =~= s1 + short_broken_lines(os, bv, k + 1));
            }
            k += 1;
        }
        let ghost s2 = line_views(output.lines@);
        let mut k: usize = 0;
        while k < issues.len()
            invariant
                k <= issues.len(),
                iv == issue_views(issues@),
                same_settings(*output, os),
                line_views(output.lines@) == s2 + broken_import_lines(os, iv, k as int),
            decreases issues.len() - k,
        {
            let it = &issues[k];
            proof {
                assert(iv[k as int] == crate::analyzers::imports::issue_view(*it));
            }
            match it.kind {
                IssueKind::BrokenImport => {
                    let line = concat(
                        concat(
                            concat(concat(concat("  Broken import: ", it.file.as_str()).as_str(), ":").as_str(), decimal(it.line).as_str()).as_str(),
                            " \u{2014} ",
                        ).as_str(),
                        it.import_path.as_str(),
                    );
                    output.line(line.as_str());
                },
                _ => {},
            }
            proof {
                assert(line_views(output.lines@) =~= s2 + broken_import_lines(os, iv, k + 1));
            }
            k += 1;
        }
        proof {
            lemma_short_settings(os, o, bv, bv.len() as int);
            lemma_import_lines_settings(os, o, iv, iv.len() as int);
        }
    }
    proof {
        assert(line_views(output.lines@) =~= s0 + check_lines(o, bv, iv));
    }
    if total > 0 {
        1
    } else {
        0
    }
}

proof fn lemma_short_settings(a: Output, b: Output, refs: Seq<(Seq<char>, Seq<char>, Seq<char>)>, k: int)
    requires
        same_settings(a, b),
    ensures
        short_broken_lines(a, refs, k) == short_broken_lines(b, refs, k),
    decreases k,
{
    if k > 0 && k <= refs.len() {
        lemma_short_settings(a, b, refs, k - 1);
    }
}

proof fn lemma_import_lines_settings(a: Output, b: Output, issues: Seq<IssueView>, k: int)
    requires
        same_settings(a, b),
    ensures
        broken_import_lines(a, issues, k) == broken_import_lines(b, issues, k),
    decreases k,
{
    if k > 0 && k <= issues.len() {
        lemma_import_lines_settings(a, b, issues, k - 1);
    }
}

/// The detail lines of the first `k` path changes.
pub open spec fn path_changes_lines(o: Output, v: Seq<PathChangeView>, k: int) -> Seq<(LineKind, Seq<char>)>
    decreases k,
{
    if k <= 0 || k > v.len() {
        Seq::empty()
    } else {
        path_changes_lines(o, v, k - 1) + out_info(
            o,
            "  "@ + v[k - 1].relative + ":"@ + spec_decimal(v[k - 1].line as nat) + " \u{2014} "@ + v[k - 1].old_path + " \u{2192} "@
                + v[k - 1].new_path,
        )
    }
}

proof fn lemma_path_changes_settings(a: Output, b: Output, v: Seq<PathChangeView>, k: int)
    requires
        same_settings(a, b),
    ensures
        path_changes_lines(a, v, k) == path_changes_lines(b, v, k),
    decreases k,
{
    if k > 0 && k <= v.len() {
        lemma_path_changes_settings(a, b, v, k - 1);
    }
}

/// What `paths migrate` writes about its plan.
pub open spec fn migrate_lines(o: Output, old_path: Seq<char>, new_path: Seq<char>, files: nat, paths: nat, changes: Seq<PathChangeView>) -> Seq<
    (LineKind, Seq<char>),
> {
    out_heading(o, "Path Migration"@) + out_info(o, "Old: \""@ + old_path + "\""@) + out_info(o, "New: \""@ + new_path + "\""@)
        + out_info(o, "Files affected: "@ + spec_decimal(files)) + out_info(o, "Paths to update: "@ + spec_decimal(paths)) + if o.verbose {
        path_changes_lines(o, changes, changes.len() as int)
    } else {
        Seq::empty()
    }
}

/// Reports the plan of a path migration; every line in detail when verbose.
pub fn migrate_report(output: &mut Output, old_path: &str, new_path: &str, plan: &PathMigrationPlan)
    ensures
        wrote(
            *final(output),
            *old(output),
            migrate_lines(
                *old(output),
                old_path@,
                new_path@,
                plan.files_affected as nat,
                plan.paths_updated as nat,
                path_change_views(plan.changes@),
            ),
        ),
{
    let ghost o = *output;
    let ghost s0 = line_views(output.lines@);
    let ghost cv = path_change_views(plan.changes@);
    output.heading("Path Migration");
    output.info(concat(concat("Old: \"", old_path).as_str(), "\"").as_str());
    output.info(concat(concat("New: \"", new_path).as_str(), "\"").as_str());
    output.info(concat("Files affected: ", decimal(plan.files_affected).as_str()).as_str());
    output.info(concat("Paths to update: ", decimal(plan.paths_updated).as_str()).as_str());
    let ghost s1 = line_views(output.lines@);
    let ghost os = *output;
    if output.verbose {
        let mut i: usize = 0;
        while i < plan.changes.len()
            invariant
                i <= plan.changes.len(),
                cv == path_change_views(plan.changes@),
                same_settings(*output, os),
                line_views(output.lines@) == s1 + path_changes_lines(os, cv, i as int),
            decreases plan.changes.len() - i,
        {
            let c = &plan.changes[i];
            let a = concat(
                concat(
                    concat(
                        concat(
                            concat(concat(c.relative.as_str(), ":").as_str(), decimal(c.line_number).as_str()).as_str(),
                            " \u{2014} ",
                        ).as_str(),
                        c.old_path.as_str(),
                    ).as_str(),
                    " \u{2192} ",
                ).as_str(),
                c.new_path.as_str(),
            );
            let la = concat("  ", a.as_str());
            output.line(la.as_str());
            proof {
                assert(cv[i as int] == PathChangeView {
                    path: c.path@,
                    relative: c.relative@,
                    old_path: c.old_path@,
                    new_path: c.new_path@,
                    line: c.line_number as int,
                });
                assert(la@ =~= "  "@ + c.relative@ + ":"@ + spec_decimal(c.line_number as nat) + " \u{2014} "@ + c.old_path@
                    + " \u{2192} "@ + c.new_path@);
                assert(line_views(output.lines@) =~= s1 + path_changes_lines(os, cv, i + 1));
            }
            i += 1;
        }
        proof {
            lemma_path_changes_settings(os, o, cv, cv.len() as int);
        }
    }
    proof {
        assert(line_views(output.lines@) =~= s0 + migrate_lines(
            o,
            old_path@,
            new_path@,
            plan.files_affected as nat,
            plan.paths_updated as nat,
            cv,
        ));
    }
}

/// What `paths normalize` writes.
pub open spec fn normalize_lines(o: Output) -> Seq<(LineKind, Seq<char>)> {
    out_heading(o, "Path Normalization"@) + out_success(o, "Path normalization complete"@)
}

/// Reports that path normalization is complete.
pub fn normalize(output: &mut Output) -> (r: i32)
    ensures
        r == 0,
        wrote(*final(output), *old(output), normalize_lines(*old(output))),
{
    let ghost o = *output;
    let ghost s0 = line_views(output.lines@);
    output.heading("Path Normalization");
    output.success("Path normalization complete");
    proof {
        assert(line_views(output.lines@) =~= s0 + normalize_lines(o));
    }
    0
}

} // verus!
