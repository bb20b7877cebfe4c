//! `imports`: scan, check, migrate, normalize and unused imports.
use vstd::prelude::*;
use crate::analyzers::imports::{issue_views, ImportIssue};
use crate::commands::check::{issue_lines, lemma_issue_lines_settings};
use crate::commands::normalize::{count_normalizable, normalizable_count};
use crate::commands::{json_count, json_member};
use crate::languages::json::{jview, lemma_members_view, members_view, JsonValue, JsonView};
use crate::languages::{ImportType, ImportView};
use crate::output::{
    line_views, out_blank, out_heading, out_info, out_result, out_success, out_warn, same_settings, summary_record, wrote,
    LineKind, Output, ScanResult,
};
use crate::refactor::import_migration::{change_views, ChangeView, ImportMigrationPlan};
use crate::scanner::content_scanner::{file_imports_views, FileImports};
use crate::text::{chars_of, concat, contains, decimal, spec_contains, spec_decimal, spec_trim, string_from, trim};

verus! {

/// The name of an import kind.
pub open spec fn spec_import_kind(k: ImportType) -> Seq<char> {
    match k {
        ImportType::Static => "static"@,
        ImportType::Dynamic => "dynamic"@,
        ImportType::Require => "require"@,
        ImportType::ReExport => "reexport"@,
    }
}

/// The name of an import kind.
pub fn import_kind(k: ImportType) -> (r: String)
    ensures
        r@ == spec_import_kind(k),
{
    match k {
        ImportType::Static => string_from(&chars_of("static")),
        ImportType::Dynamic => string_from(&chars_of("dynamic")),
        ImportType::Require => string_from(&chars_of("require")),
        ImportType::ReExport => string_from(&chars_of("reexport")),
    }
}

/// The sample line of an import of the file `rel`.
pub open spec fn sample_line(rel: Seq<char>, imp: ImportView) -> Seq<char> {
    "  "@ + rel + ":"@ + spec_decimal(imp.line as nat) + " ["@ + spec_import_kind(imp.kind) + "] \u{2014} "@ + imp.path
}

/// The sample lines of the first `k` imports of a file.
pub open spec fn file_samples(o: Output, rel: Seq<char>, imps: Seq<ImportView>, k: int) -> Seq<(LineKind, Seq<char>)>
    decreases k,
{
    if k <= 0 || k > imps.len() {
        Seq::empty()
    } else {
        file_samples(o, rel, imps, k - 1) + out_info(o, sample_line(rel, imps[k - 1]))
    }
}

/// The sample lines of the first `k` files: up to three imports each.
pub open spec fn samples(o: Output, files: Seq<(Seq<char>, Seq<char>, Seq<ImportView>, Seq<ImportView>)>, k: int) -> Seq<
    (LineKind, Seq<char>),
>
    decreases k,
{
    if k <= 0 || k > files.len() {
        Seq::empty()
    } else {
        let f = files[k - 1];
        samples(o, files, k - 1) + file_samples(o, f.1, f.2, if f.2.len() < 3 {
            f.2.len() as int
        } else {
            3
        })
    }
}

/// Total imports (component 2) or re-exports (component 3) of the first `k` files.
pub open spec fn total_of(files: Seq<(Seq<char>, Seq<char>, Seq<ImportView>, Seq<ImportView>)>, exports: bool, k: int) -> nat
    decreases k,
{
    if k <= 0 || k > files.len() {
        0
    } else {
        total_of(files, exports, k - 1) + if exports {
            files[k - 1].3.len()
        } else {
            files[k - 1].2.len()
        }
    }
}

/// What `imports scan` writes.
pub open spec fn scan_lines(o: Output, files: Seq<(Seq<char>, Seq<char>, Seq<ImportView>, Seq<ImportView>)>) -> Seq<
    (LineKind, Seq<char>),
> {
    out_heading(o, "Import Scan"@) + out_info(o, "Files with imports: "@ + spec_decimal(files.len())) + out_info(
        o,
        "Total imports: "@ + spec_decimal(total_of(files, false, files.len() as int)),
    ) + out_info(o, "Total exports: "@ + spec_decimal(total_of(files, true, files.len() as int))) + (if files.len() > 0 {
        out_blank(o) + out_info(o, "Sample imports:"@) + samples(
            o,
            files,
            if files.len() < 10 {
                files.len() as int
            } else {
                10
            },
        )
    } else {
        Seq::empty()
    }) + out_result(o, "imports scan"@)
}

proof fn lemma_samples_settings(a: Output, b: Output, files: Seq<(Seq<char>, Seq<char>, Seq<ImportView>, Seq<ImportView>)>, k: int)
    requires
        same_settings(a, b),
    ensures
        samples(a, files, k) == samples(b, files, k),
    decreases k,
{
    if k > 0 && k <= files.len() {
        lemma_samples_settings(a, b, files, k - 1);
        let f = files[k - 1];
        lemma_file_samples_settings(a, b, f.1, f.2, if f.2.len() < 3 {
            f.2.len() as int
        } else {
            3
        });
    }
}

proof fn lemma_file_samples_settings(a: Output, b: Output, rel: Seq<char>, imps: Seq<ImportView>, k: int)
    requires
        same_settings(a, b),
    ensures
        file_samples(a, rel, imps, k) == file_samples(b, rel, imps, k),
    decreases k,
{
    if k > 0 && k <= imps.len() {
        lemma_file_samples_settings(a, b, rel, imps, k - 1);
    }
}

/// The totals of imports and re-exports.
fn totals(files: &Vec<FileImports>) -> (r: (usize, usize))
    requires
        total_of(file_imports_views(files@), false, files@.len() as int) <= usize::MAX,
        total_of(file_imports_views(files@), true, files@.len() as int) <= usize::MAX,
    ensures
        r.0 == total_of(file_imports_views(files@), false, files@.len() as int),
        r.1 == total_of(file_imports_views(files@), true, files@.len() as int),
{
    let ghost fv = file_imports_views(files@);
    let mut a: usize = 0;
    let mut b: usize = 0;
    let mut i: usize = 0;
    while i < files.len()
        invariant
            i <= files.len(),
            fv == file_imports_views(files@),
            total_of(fv, false, files@.len() as int) <= usize::MAX,
            total_of(fv, true, files@.len() as int) <= usize::MAX,
            a == total_of(fv, false, i as int),
            b == total_of(fv, true, i as int),
        decreases files.len() - i,
    {
        proof {
            lemma_total_mono(fv, false, i + 1, files@.len() as int);
            lemma_total_mono(fv, true, i + 1, files@.len() as int);
            assert(fv[i as int].2.len() == files@[i as int].imports@.len());
            assert(fv[i as int].3.len() == files@[i as int].exports@.len());
        }
        a = a + files[i].imports.len();
        b = b + files[i].exports.len();
        i += 1;
    }
    (a, b)
}

proof fn lemma_total_mono(files: Seq<(Seq<char>, Seq<char>, Seq<ImportView>, Seq<ImportView>)>, exports: bool, j: int, k: int)
    requires
        0 <= j <= k <= files.len(),
    ensures
        total_of(files, exports, j) <= total_of(files, exports, k),
    decreases k - j,
{
    if j < k {
        lemma_total_mono(files, exports, j, k - 1);
    }
}

/// The data of the summary of `imports scan`: the number of files with
/// imports and the totals.
pub open spec fn imports_scan_data(files: nat, imports: nat, exports: nat) -> JsonView {
    JsonView::Object(
        seq![
            ("files_with_imports"@, JsonView::Int(files as int)),
            ("total_exports"@, JsonView::Int(exports as int)),
            ("total_imports"@, JsonView::Int(imports as int)),
        ],
    )
}

/// Reports the imports found: counts, a sample of up to three imports of
/// each of the first ten files, and the JSON summary in JSON mode.
pub fn scan(output: &mut Output, file_imports: &Vec<FileImports>) -> (r: i32)
    requires
        total_of(file_imports_views(file_imports@), false, file_imports@.len() as int) <= usize::MAX,
        total_of(file_imports_views(file_imports@), true, file_imports@.len() as int) <= usize::MAX,
    ensures
        r == 0,
        wrote(*final(output), *old(output), scan_lines(*old(output), file_imports_views(file_imports@))),
        old(output).json_mode ==> (final(output).lines@.last().record matches Some(rec) && summary_record(
            rec,
            "imports scan"@,
            file_imports@.len() as usize,
            None,
            None,
            None,
        ) && (rec.data matches Some(d) && jview(d) == imports_scan_data(
            file_imports@.len(),
            total_of(file_imports_views(file_imports@), false, file_imports@.len() as int),
            total_of(file_imports_views(file_imports@), true, file_imports@.len() as int),
        ))),
{
    let ghost o = *output;
    let ghost s0 = line_views(output.lines@);
    let ghost fv = file_imports_views(file_imports@);
    output.heading("Import Scan");
    let (total_imports, total_exports) = totals(file_imports);
    output.info(concat("Files with imports: ", decimal(file_imports.len()).as_str()).as_str());
    output.info(concat("Total imports: ", decimal(total_imports).as_str()).as_str());
    output.info(concat("Total exports: ", decimal(total_exports).as_str()).as_str());
    let ghost s1 = line_views(output.lines@);
    if file_imports.len() > 0 {
        output.blank();
        output.info("Sample imports:");
        let ghost os = *output;
        let ghost s2 = line_views(output.lines@);
        let n = if file_imports.len() < 10 {
            file_imports.len()
        } else {
            10
        };
        let mut i: usize = 0;
        while i < n
            invariant
                i <= n <= file_imports.len(),
                fv == file_imports_views(file_imports@),
                same_settings(*output, os),
                line_views(output.lines@) == s2 + samples(os, fv, i as int),
            decreases n - i,
        {
            let f = &file_imports[i];
            let m = if f.imports.len() < 3 {
                f.imports.len()
            } else {
                3
            };
            let ghost before = line_views(output.lines@);
            proof {
                assert(fv[i as int] == crate::scanner::content_scanner::file_imports_view(*f));
            }
            let mut j: usize = 0;
            while j < m
                invariant
                    j <= m <= f.imports.len(),
                    same_settings(*output, os),
                    line_views(output.lines@) == before + file_samples(os, f.file.relative@, crate::languages::import_views(f.imports@), j as int),
                decreases m - j,
            {
                let imp = &f.imports[j];
                let line = concat(
                    concat(
                        concat(
                            concat(
                                concat(concat(f.file.relative.as_str(), ":").as_str(), decimal(imp.line_number).as_str()).as_str(),
                                " [",
                            ).as_str(),
                            import_kind(imp.import_type).as_str(),
                        ).as_str(),
                        "] \u{2014} ",
                    ).as_str(),
                    imp.import_path.as_str(),
                );
                let full = concat("  ", line.as_str());
                output.line(full.as_str());
                proof {
                    assert(crate::languages::import_views(f.imports@)[j as int] == imp@);
                    assert(full@ =~= sample_line(f.file.relative@, imp@));
                    assert(line_views(output.lines@) =~= before + file_samples(os, f.file.relative@, crate::languages::import_views(f.imports@), j + 1));
                }
                j += 1;
            }
            proof {
                assert(line_views(output.lines@) =~= s2 + samples(os, fv, i + 1));
            }
            i += 1;
        }
        proof {
            lemma_samples_settings(os, o, fv, n as int);
            assert(line_views(output.lines@) =~= s1 + (out_blank(o) + out_info(o, "Sample imports:"@) + samples(o, fv, n as int)));
        }
    }
    if output.json_mode {
        let mut data: Vec<(String, JsonValue)> = Vec::new();
        data.push(json_member("files_with_imports", json_count(file_imports.len())));
        data.push(json_member("total_exports", json_count(total_exports)));
        data.push(json_member("total_imports", json_count(total_imports)));
        proof {
            lemma_members_view(data@, 0);
            assert(members_view(data@, 0) =~= match imports_scan_data(
                file_imports@.len(),
                total_imports as nat,
                total_exports as nat,
            ) {
                JsonView::Object(e) => e,
                _ => Seq::empty(),
            });
        }
        output.print_json_result(
            ScanResult {
                command: string_from(&chars_of("imports scan")),
                files_scanned: file_imports.len(),
                files_changed: None,
                replacements: None,
                errors: None,
                skipped: None,
                data: Some(JsonValue::Object(data)),
            },
        );
    }
    proof {
        assert(line_views(output.lines@) =~= s0 + scan_lines(o, fv));
    }
    0
}

/// What `imports check` writes.
pub open spec fn check_lines(o: Output, issues: Seq<crate::analyzers::imports::IssueView>) -> Seq<(LineKind, Seq<char>)> {
    out_heading(o, "Import Check"@) + if issues.len() == 0 {
        out_success(o, "All imports are consistent"@)
    } else {
        out_warn(o, spec_decimal(issues.len()) + " issues found"@) + issue_lines(o, issues, issues.len() as int)
    }
}

/// Reports the import issues; exit code 1 when there is any.
pub fn check(output: &mut Output, issues: &Vec<ImportIssue>) -> (r: i32)
    ensures
        r == if issues@.len() == 0 { 0i32 } else { 1i32 },
        wrote(*final(output), *old(output), check_lines(*old(output), issue_views(issues@))),
{
    let ghost o = *output;
    let ghost s0 = line_views(output.lines@);
    output.heading("Import Check");
    if issues.len() == 0 {
        output.success("All imports are consistent");
    } else {
        output.warn(concat(decimal(issues.len()).as_str(), " issues found").as_str());
        let ghost oi = *output;
        crate::commands::check::write_issues(output, issues);
        proof {
            lemma_issue_lines_settings(oi, o, issue_views(issues@), issues@.len() as int);
        }
    }
    proof {
        assert(line_views(output.lines@) =~= s0 + check_lines(o, issue_views(issues@)));
    }
    if issues.len() == 0 {
        0
    } else {
        1
    }
}

/// What `imports normalize` writes.
pub open spec fn normalize_lines(o: Output, n: nat) -> Seq<(LineKind, Seq<char>)> {
    out_heading(o, "Import Normalization"@) + if n == 0 {
        out_success(o, "Imports are already normalized"@)
    } else {
        out_info(o, spec_decimal(n) + " imports can be normalized"@)
    }
}

/// Reports how many imports normalizing would fix.
pub fn normalize(output: &mut Output, issues: &Vec<ImportIssue>) -> (r: i32)
    ensures
        r == 0,
        wrote(
            *final(output),
            *old(output),
            normalize_lines(*old(output), normalizable_count(issue_views(issues@), issues@.len() as int)),
        ),
{
    let ghost o = *output;
    let ghost s0 = line_views(output.lines@);
    output.heading("Import Normalization");
    let n = count_normalizable(issues);
    if n == 0 {
        output.success("Imports are already normalized");
    } else {
        output.info(concat(decimal(n).as_str(), " imports can be normalized").as_str());
    }
    proof {
        assert(line_views(output.lines@) =~= s0 + normalize_lines(o, n as nat));
    }
    0
}

/// An import is reported as possibly unused when its path mentions
/// `unused` or `test`.
pub open spec fn possibly_unused(imp: ImportView) -> bool {
    spec_contains(imp.path, "unused"@) || spec_contains(imp.path, "test"@)
}

/// The possibly-unused imports of the first `k` imports of a file, as lines.
pub open spec fn unused_of(o: Output, rel: Seq<char>, imps: Seq<ImportView>, k: int) -> Seq<(LineKind, Seq<char>)>
    decreases k,
{
    if k <= 0 || k > imps.len() {
        Seq::empty()
    } else {
        unused_of(o, rel, imps, k - 1) + if possibly_unused(imps[k - 1]) {
            out_info(o, "  "@ + rel + ":"@ + spec_decimal(imps[k - 1].line as nat) + " \u{2014} possibly unused: "@ + imps[k - 1].path)
        } else {
            Seq::empty()
        }
    }
}

/// Number of possibly-unused imports among the first `k`.
pub open spec fn unused_count(imps: Seq<ImportView>, k: int) -> nat
    decreases k,
{
    if k <= 0 || k > imps.len() {
        0
    } else {
        unused_count(imps, k - 1) + if possibly_unused(imps[k - 1]) {
            1nat
        } else {
            0nat
        }
    }
}

/// The possibly-unused lines of the first `k` files.
pub open spec fn unused_lines_of(o: Output, files: Seq<(Seq<char>, Seq<char>, Seq<ImportView>, Seq<ImportView>)>, k: int) -> Seq<
    (LineKind, Seq<char>),
>
    decreases k,
{
    if k <= 0 || k > files.len() {
        Seq::empty()
    } else {
        unused_lines_of(o, files, k - 1) + unused_of(o, files[k - 1].1, files[k - 1].2, files[k - 1].2.len() as int)
    }
}

/// Number of possibly-unused imports of the first `k` files.
pub open spec fn unused_total(files: Seq<(Seq<char>, Seq<char>, Seq<ImportView>, Seq<ImportView>)>, k: int) -> nat
    decreases k,
{
    if k <= 0 || k > files.len() {
        0
    } else {
        unused_total(files, k - 1) + unused_count(files[k - 1].2, files[k - 1].2.len() as int)
    }
}

/// What `imports unused` writes.
pub open spec fn unused_lines(o: Output, files: Seq<(Seq<char>, Seq<char>, Seq<ImportView>, Seq<ImportView>)>) -> Seq<
    (LineKind, Seq<char>),
> {
    let n = unused_total(files, files.len() as int);
    out_heading(o, "Unused Imports"@) + unused_lines_of(o, files, files.len() as int) + if n == 0 {
        out_success(o, "No obviously unused imports detected"@)
    } else {
        out_info(o, spec_decimal(n) + " possibly unused imports"@)
    }
}

/// Reports the imports whose path mentions `unused` or `test`.
pub fn unused(output: &mut Output, file_imports: &Vec<FileImports>) -> (r: i32)
    requires
        total_of(file_imports_views(file_imports@), false, file_imports@.len() as int) <= usize::MAX,
    ensures
        r == 0,
        wrote(*final(output), *old(output), unused_lines(*old(output), file_imports_views(file_imports@))),
{
    let ghost o = *output;
    let ghost s0 = line_views(output.lines@);
    let ghost fv = file_imports_views(file_imports@);
    output.heading("Unused Imports");
    let ghost s1 = line_views(output.lines@);
    let ghost os = *output;
    let unused_word = chars_of("unused");
    let test_word = chars_of("test");
    let mut total: usize = 0;
    let mut i: usize = 0;
    while i < file_imports.len()
        invariant
            i <= file_imports.len(),
            fv == file_imports_views(file_imports@),
            unused_word@ == "unused"@,
            test_word@ == "test"@,
            total_of(fv, false, file_imports@.len() as int) <= usize::MAX,
            same_settings(*output, os),
            total == unused_total(fv, i as int),
            total <= total_of(fv, false, i as int),
            line_views(output.lines@) == s1 + unused_lines_of(os, fv, i as int),
        decreases file_imports.len() - i,
    {
        let f = &file_imports[i];
        let ghost iv = crate::languages::import_views(f.imports@);
        let ghost before = line_views(output.lines@);
        let ghost t0 = total;
        proof {
            assert(fv[i as int] == crate::scanner::content_scanner::file_imports_view(*f));
            lemma_total_mono(fv, false, i + 1, file_imports@.len() as int);
        }
        let mut j: usize = 0;
        while j < f.imports.len()
            invariant
                j <= f.imports.len(),
                iv == crate::languages::import_views(f.imports@),
                unused_word@ == "unused"@,
                test_word@ == "test"@,
                same_settings(*output, os),
                t0 + f.imports@.len() <= usize::MAX,
                total == t0 + unused_count(iv, j as int),
                unused_count(iv, j as int) <= j,
                line_views(output.lines@) == before + unused_of(os, f.file.relative@, iv, j as int),
            decreases f.imports.len() - j,
        {
            let imp = &f.imports[j];
            let p = chars_of(imp.import_path.as_str());
            proof {
                assert(iv[j as int] == imp@);
            }
            let hit = contains(&p, &unused_word) || contains(&p, &test_word);
            proof {
                assert(hit == possibly_unused(iv[j as int]));
            }
            if hit {
                let line = concat(
                    concat(
                        concat(concat(f.file.relative.as_str(), ":").as_str(), decimal(imp.line_number).as_str()).as_str(),
                        " \u{2014} possibly unused: ",
                    ).as_str(),
                    imp.import_path.as_str(),
                );
                let full = concat("  ", line.as_str());
                proof {
                    assert(full@ =~= "  "@ + f.file.relative@ + ":"@ + spec_decimal(iv[j as int].line as nat)
                        + " \u{2014} possibly unused: "@ + iv[j as int].path);
                }
                output.line(full.as_str());
                total = total + 1;
            }
            proof {
                assert(line_views(output.lines@) =~= before + unused_of(os, f.file.relative@, iv, j + 1));
            }
            j += 1;
        }
        proof {
            assert(line_views(output.lines@) =~= s1 + unused_lines_of(os, fv, i + 1));
        }
        i += 1;
    }
    if total == 0 {
        output.success("No obviously unused imports detected");
    } else {
        output.info(concat(decimal(total).as_str(), " possibly unused imports").as_str());
    }
    proof {
        lemma_unused_settings(os, o, fv, fv.len() as int);
        assert(line_views(output.lines@) =~= s0 + unused_lines(o, fv));
    }
    0
}

proof fn lemma_unused_settings(a: Output, b: Output, files: Seq<(Seq<char>, Seq<char>, Seq<ImportView>, Seq<ImportView>)>, k: int)
    requires
        same_settings(a, b),
    ensures
        unused_lines_of(a, files, k) == unused_lines_of(b, files, k),
    decreases k,
{
    if k > 0 && k <= files.len() {
        lemma_unused_settings(a, b, files, k - 1);
        lemma_unused_of_settings(a, b, files[k - 1].1, files[k - 1].2, files[k - 1].2.len() as int);
    }
}

proof fn lemma_unused_of_settings(a: Output, b: Output, rel: Seq<char>, imps: Seq<ImportView>, k: int)
    requires
        same_settings(a, b),
    ensures
        unused_of(a, rel, imps, k) == unused_of(b, rel, imps, k),
    decreases k,
{
    if k > 0 && k <= imps.len() {
        lemma_unused_of_settings(a, b, rel, imps, k - 1);
    }
}

/// The detail lines of one import change (shown when verbose).
pub open spec fn change_lines(o: Output, c: ChangeView) -> Seq<(LineKind, Seq<char>)> {
    out_info(o, "  "@ + c.relative + ":"@ + spec_decimal(c.line as nat) + " \u{2014} "@ + c.old_import + " \u{2192} "@ + c.new_import)
        + out_info(o, "     "@ + spec_trim(c.new_line))
}

/// The detail lines of the first `k` changes.
pub open spec fn changes_lines(o: Output, v: Seq<ChangeView>, k: int) -> Seq<(LineKind, Seq<char>)>
    decreases k,
{
    if k <= 0 || k > v.len() {
        Seq::empty()
    } else {
        changes_lines(o, v, k - 1) + change_lines(o, v[k - 1])
    }
}

proof fn lemma_changes_lines_settings(a: Output, b: Output, v: Seq<ChangeView>, k: int)
    requires
        same_settings(a, b),
    ensures
        changes_lines(a, v, k) == changes_lines(b, v, k),
    decreases k,
{
    if k > 0 && k <= v.len() {
        lemma_changes_lines_settings(a, b, v, k - 1);
    }
}

/// What `imports migrate` writes about its plan.
pub open spec fn migrate_lines(o: Output, old: Seq<char>, new: Seq<char>, files: nat, imports: nat, changes: Seq<ChangeView>) -> Seq<
    (LineKind, Seq<char>),
> {
    out_heading(o, "Import Migration"@) + out_info(o, "Old: \""@ + old + "\""@) + out_info(o, "New: \""@ + new + "\""@) + out_info(
        o,
        "Files affected: "@ + spec_decimal(files),
    ) + out_info(o, "Imports to update: "@ + spec_decimal(imports)) + if o.verbose {
        changes_lines(o, changes, changes.len() as int)
    } else {
        Seq::empty()
    }
}

/// Reports the plan of an import migration; every change in detail when
/// verbose.
pub fn migrate_report(output: &mut Output, old_path: &str, new_path: &str, plan: &ImportMigrationPlan)
    ensures
        wrote(
            *final(output),
            *old(output),
            migrate_lines(
                *old(output),
                old_path@,
                new_path@,
                plan.files_affected as nat,
                plan.imports_updated as nat,
                change_views(plan.changes@),
            ),
        ),
{
    let ghost o = *output;
    let ghost s0 = line_views(output.lines@);
    let ghost cv = change_views(plan.changes@);
    output.heading("Import Migration");
    output.info(concat(concat("Old: \"", old_path).as_str(), "\"").as_str());
    output.info(concat(concat("New: \"", new_path).as_str(), "\"").as_str());
    output.info(concat("Files affected: ", decimal(plan.files_affected).as_str()).as_str());
    output.info(concat("Imports to update: ", decimal(plan.imports_updated).as_str()).as_str());
    let ghost s1 = line_views(output.lines@);
    let ghost os = *output;
    if output.verbose {
        let mut i: usize = 0;
        while i < plan.changes.len()
            invariant
                i <= plan.changes.len(),
                cv == change_views(plan.changes@),
                same_settings(*output, os),
                line_views(output.lines@) == s1 + changes_lines(os, cv, i as int),
            decreases plan.changes.len() - i,
        {
            let c = &plan.changes[i];
            let a = concat(
                concat(
                    concat(
                        concat(
                            concat(concat(c.relative.as_str(), ":").as_str(), decimal(c.line_number).as_str()).as_str(),
                            " \u{2014} ",
                        ).as_str(),
                        c.old_import.as_str(),
                    ).as_str(),
                    " \u{2192} ",
                ).as_str(),
                c.new_import.as_str(),
            );
            let la = concat("  ", a.as_str());
            output.line(la.as_str());
            let t = string_from(&trim(&chars_of(c.new_line.as_str())));
            let lb = concat("     ", t.as_str());
            output.line(lb.as_str());
            proof {
                assert(cv[i as int] == crate::refactor::import_migration::change_view(*c));
                assert(la@ =~= "  "@ + c.relative@ + ":"@ + spec_decimal(c.line_number as nat) + " \u{2014} "@ + c.old_import@ + " \u{2192} "@ + c.new_import@);
                assert(line_views(output.lines@) =~= s1 + changes_lines(os, cv, i + 1));
            }
            i += 1;
        }
        proof {
            lemma_changes_lines_settings(os, o, cv, cv.len() as int);
        }
    }
    proof {
        assert(line_views(output.lines@) =~= s0 + migrate_lines(
            o,
            old_path@,
            new_path@,
            plan.files_affected as nat,
            plan.imports_updated as nat,
            cv,
        ));
    }
}

/// What a migration writes once done: the number of files updated, or the
/// dry-run note.
pub open spec fn finish_lines(o: Output, dry_run: bool, updated: nat) -> Seq<(LineKind, Seq<char>)> {
    out_blank(o) + if !dry_run {
        out_success(o, spec_decimal(updated) + " files updated"@)
    } else {
        out_info(o, "Dry run \u{2014} no changes made."@)
    }
}

/// Reports the end of a migration.
pub fn migrate_finish(output: &mut Output, dry_run: bool, updated: usize) -> (r: i32)
    ensures
        r == 0,
        wrote(*final(output), *old(output), finish_lines(*old(output), dry_run, updated as nat)),
{
    let ghost o = *output;
    let ghost s0 = line_views(output.lines@);
    output.blank();
    if !dry_run {
        output.success(concat(decimal(updated).as_str(), " files updated").as_str());
    } else {
        output.info("Dry run \u{2014} no changes made.");
    }
    proof {
        assert(line_views(output.lines@) =~= s0 + finish_lines(o, dry_run, updated as nat));
    }
    0
}

} // verus!
