//! `normalize`: how many imports could be normalized.
use vstd::prelude::*;
use crate::analyzers::imports::{issue_views, ImportIssue, IssueKind, IssueView};
use crate::output::{line_views, out_heading, out_info, out_success, wrote, LineKind, Output};
use crate::text::{concat, decimal, spec_decimal};

verus! {

/// The issue is one that normalizing an import fixes.
pub open spec fn is_normalizable(k: IssueKind) -> bool {
    k == IssueKind::InconsistentSlashes || k == IssueKind::DoubleSlash || k == IssueKind::RedundantSegment
}

/// Number of normalizable issues among the first `k`.
pub open spec fn normalizable_count(issues: Seq<IssueView>, k: int) -> nat
    decreases k,
{
    if k <= 0 || k > issues.len() {
        0
    } else {
        normalizable_count(issues, k - 1) + if is_normalizable(issues[k - 1].kind) {
            1nat
        } else {
            0nat
        }
    }
}

proof fn lemma_normalizable_bound(issues: Seq<IssueView>, k: int)
    requires
        0 <= k <= issues.len(),
    ensures
        normalizable_count(issues, k) <= k,
    decreases k,
{
    if k > 0 {
        lemma_normalizable_bound(issues, k - 1);
    }
}

/// Number of normalizable issues.
pub fn count_normalizable(issues: &Vec<ImportIssue>) -> (r: usize)
    ensures
        r == normalizable_count(issue_views(issues@), issues@.len() as int),
{
    let ghost iv = issue_views(issues@);
    let mut n: usize = 0;
    let mut i: usize = 0;
    while i < issues.len()
        invariant
            i <= issues.len(),
            iv == issue_views(issues@),
            n == normalizable_count(iv, i as int),
        decreases issues.len() - i,
    {
        proof {
            lemma_normalizable_bound(iv, i as int);
            assert(iv[i as int].kind == issues@[i as int].kind);
        }
        match issues[i].kind {
            IssueKind::InconsistentSlashes | IssueKind::DoubleSlash | IssueKind::RedundantSegment => {
                n += 1;
            },
            _ => {},
        }
        i += 1;
    }
    n
}

/// What `normalize` writes for `n` normalizable issues.
pub open spec fn normalize_lines(o: Output, n: nat) -> Seq<(LineKind, Seq<char>)> {
    out_heading(o, "Normalize"@) + if n == 0 {
        out_success(o, "Nothing to normalize"@)
    } else {
        out_info(o, spec_decimal(n) + " items could be normalized"@)
    }
}

/// Reports how many of the import issues normalizing would fix.
pub fn run(output: &mut Output, issues: &Vec<ImportIssue>) -> (r: i32)
    ensures
        r == 0,
        wrote(
            *final(output),
            *old(output),
            normalize_lines(*old(output), normalizable_count(issue_views(issues@), issues@.len() as int)),
        ),
{
    let ghost start = line_views(output.lines@);
    let ghost o = *output;
    output.heading("Normalize");
    let n = count_normalizable(issues);
    if n == 0 {
        output.success("Nothing to normalize");
    } else {
        let msg = concat(decimal(n).as_str(), " items could be normalized");
        output.info(msg.as_str());
    }
    proof {
        assert(line_views(output.lines@) =~= start + normalize_lines(o, n as nat));
    }
    0
}

} // verus!
