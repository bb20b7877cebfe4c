//! The consistency report of a repository: import issues and broken
//! references, counted as errors and warnings.
use vstd::prelude::*;
use crate::analyzers::imports::{
    alias_views, check_import_consistency, issue_views, issues_of_files, ImportIssue, IssueKind,
    IssueView,
};
use crate::analyzers::references::{broken_from, broken_views, find_broken_references, BrokenReference};
use crate::context::RepoContext;
use crate::scanner::content_scanner::{file_imports_views, FileImports};
use crate::scanner::reference_scanner::{edge_views, ReferenceGraph};

verus! {

/// Import issues, broken references, and their totals.
pub struct ConsistencyReport {
    pub import_issues: Vec<ImportIssue>,
    pub broken_references: Vec<BrokenReference>,
    pub total_errors: usize,
    pub total_warnings: usize,
}

/// `a + b`, or `usize::MAX` where the sum does not fit (two lengths of
/// vectors held at once always fit).
pub open spec fn sum_capped(a: nat, b: nat) -> nat {
    if a + b > usize::MAX {
        usize::MAX as nat
    } else {
        a + b
    }
}

/// Number of broken imports among the first `k` issues.
pub open spec fn broken_import_count(issues: Seq<IssueView>, k: int) -> nat
    decreases k,
{
    if k <= 0 || k > issues.len() {
        0
    } else {
        broken_import_count(issues, k - 1) + if issues[k - 1].kind == IssueKind::BrokenImport {
            1nat
        } else {
            0nat
        }
    }
}

proof fn lemma_broken_import_count_bound(issues: Seq<IssueView>, k: int)
    requires
        0 <= k <= issues.len(),
    ensures
        broken_import_count(issues, k) <= k,
    decreases k,
{
    if k > 0 {
        lemma_broken_import_count_bound(issues, k - 1);
    }
}

/// The consistency report: every import issue and every broken reference;
/// broken imports and broken references are errors, every other import issue
/// is a warning.
pub fn check_repository_consistency(
    ctx: &RepoContext,
    file_imports: &Vec<FileImports>,
    aliases: &Vec<(String, Vec<String>)>,
    graph: &ReferenceGraph,
) -> (r: ConsistencyReport)
    ensures
        issue_views(r.import_issues@) == issues_of_files(
            *ctx,
            alias_views(aliases@),
            file_imports_views(file_imports@),
            file_imports@.len() as int,
        ),
        broken_views(r.broken_references@) == broken_from(
            *ctx,
            edge_views(graph.references@),
            graph.references@.len() as int,
        ),
        r.total_errors == sum_capped(
            broken_import_count(issue_views(r.import_issues@), r.import_issues@.len() as int),
            r.broken_references@.len(),
        ),
        r.total_warnings == r.import_issues@.len() - broken_import_count(
            issue_views(r.import_issues@),
            r.import_issues@.len() as int,
        ),
        r.import_issues@.len() + r.broken_references@.len() <= usize::MAX ==> r.total_errors + r.total_warnings
            == r.import_issues@.len() + r.broken_references@.len(),
{
    let import_issues = check_import_consistency(ctx, file_imports, aliases);
    let broken_refs = find_broken_references(ctx, graph);
    let ghost iv = issue_views(import_issues@);
    let mut errors: usize = 0;
    let mut warnings: usize = 0;
    let mut i: usize = 0;
    while i < import_issues.len()
        invariant
            i <= import_issues.len(),
            iv == issue_views(import_issues@),
            errors == broken_import_count(iv, i as int),
            warnings == i - broken_import_count(iv, i as int),
        decreases import_issues.len() - i,
    {
        proof {
            lemma_broken_import_count_bound(iv, i as int);
            assert(iv[i as int].kind == import_issues@[i as int].kind);
        }
        match import_issues[i].kind {
            IssueKind::BrokenImport => errors += 1,
            _ => warnings += 1,
        }
        i += 1;
    }
    proof {
        lemma_broken_import_count_bound(iv, iv.len() as int);
    }
    let errors = errors.saturating_add(broken_refs.len());
    ConsistencyReport {
        import_issues,
        broken_references: broken_refs,
        total_errors: errors,
        total_warnings: warnings,
    }
}

} // verus!
