//! Import consistency: broken relative imports, aliases that resolve to
//! nothing, double slashes, redundant `./` segments and case mismatches.
use vstd::prelude::*;
use crate::analyzers::references::{
    might_exist, resolve_relative, spec_might_exist, spec_resolve_relative,
};
use crate::config::strings_view;
use crate::context::RepoContext;
use crate::languages::{import_views, opt_seq, ImportInfo, ImportView};
use crate::paths::{file_name, normalize_slashes, parent, spec_file_name, spec_normalize_slashes, spec_parent};
use crate::scanner::content_scanner::{file_imports_view, file_imports_views, FileImports};
use crate::text::{
    chars_of, concat, contains, contains_char, seq_eq, slice_vec, spec_contains, spec_ends_with, spec_lowercase,
    spec_starts_with, spec_trim_end_pat, spec_trim_start_pat, starts_with, string_from,
    to_lowercase, trim_end_pat, trim_start_pat, ends_with,
};

verus! {

/// What is wrong with an import.
#[derive(Debug, Clone, Copy, PartialEq, Eq, Structural)]
pub enum IssueKind {
    BrokenImport,
    DoubleSlash,
    RedundantSegment,
    InconsistentSlashes,
    CaseMismatch,
    AliasMismatch,
    CircularDependency,
}

/// A problem found with one import.
pub struct ImportIssue {
    pub file: String,
    pub line: usize,
    pub import_path: String,
    pub kind: IssueKind,
    pub detail: String,
}

/// The mathematical value of an [`ImportIssue`].
pub struct IssueView {
    pub file: Seq<char>,
    pub line: int,
    pub import_path: Seq<char>,
    pub kind: IssueKind,
    pub detail: Seq<char>,
}

/// The view of an issue.
pub open spec fn issue_view(i: ImportIssue) -> IssueView {
    IssueView { file: i.file@, line: i.line as int, import_path: i.import_path@, kind: i.kind, detail: i.detail@ }
}

/// The views of issues.
pub open spec fn issue_views(v: Seq<ImportIssue>) -> Seq<IssueView> {
    v.map_values(|i: ImportIssue| issue_view(i))
}

/// Path aliases, pattern by pattern (`@/*` to `["./src/*"]`), as text.
pub open spec fn alias_views(v: Seq<(String, Vec<String>)>) -> Seq<(Seq<char>, Seq<Seq<char>>)> {
    v.map_values(|a: (String, Vec<String>)| (a.0@, strings_view(a.1@)))
}

// ---------------------------------------------------------------------------
// Aliases
// ---------------------------------------------------------------------------

/// `path` is `base` or lies below it.
pub open spec fn under(path: Seq<char>, base: Seq<char>) -> bool {
    path == base || spec_starts_with(path, base + seq!['/'])
}

/// The alias a pattern gives `path`: for `X/*`, `X` when `path` is `X` or
/// lies below it; for any other pattern, the pattern itself when `path`
/// equals it.
pub open spec fn alias_of_pattern(path: Seq<char>, pattern: Seq<char>) -> Option<Seq<char>> {
    if pattern.len() >= 2 && spec_ends_with(pattern, "/*"@) {
        let a = pattern.take(pattern.len() - 2);
        if under(path, a) {
            Some(a)
        } else {
            None
        }
    } else if path == pattern {
        Some(pattern)
    } else {
        None
    }
}

/// The first alias, from index `k` on, that applies to `path`, with its targets.
pub open spec fn match_alias_from(path: Seq<char>, aliases: Seq<(Seq<char>, Seq<Seq<char>>)>, k: int) -> Option<
    (Seq<char>, Seq<Seq<char>>),
>
    decreases aliases.len() - k,
{
    if k < 0 || k >= aliases.len() {
        None
    } else {
        match alias_of_pattern(path, aliases[k].0) {
            Some(a) => Some((a, aliases[k].1)),
            None => match_alias_from(path, aliases, k + 1),
        }
    }
}

/// `path` with `alias` replaced by the first target (its leading `./`, its
/// trailing `/*` and trailing `*` removed); `path` itself when there is no
/// target.
pub open spec fn spec_resolve_alias(path: Seq<char>, alias: Seq<char>, targets: Seq<Seq<char>>) -> Seq<char> {
    let rest = if spec_starts_with(path, alias) {
        path.skip(alias.len() as int)
    } else {
        path
    };
    if targets.len() == 0 {
        path
    } else {
        let base = spec_trim_end_pat(spec_trim_end_pat(spec_trim_start_pat(targets[0], "./"@), "/*"@), seq!['*']);
        base + rest
    }
}

/// A pattern without its trailing `/*` and `*`.
pub open spec fn alias_base(pattern: Seq<char>) -> Seq<char> {
    spec_trim_end_pat(spec_trim_end_pat(pattern, "/*"@), seq!['*'])
}

/// `path` is or lies below the base of some alias pattern.
pub open spec fn spec_looks_like_alias(path: Seq<char>, aliases: Seq<(Seq<char>, Seq<Seq<char>>)>) -> bool {
    exists|k: int| 0 <= k < aliases.len() && under(path, alias_base(#[trigger] aliases[k].0))
}

/// Whether `path` is `base` or lies below it.
fn is_under(path: &Vec<char>, base: &Vec<char>) -> (r: bool)
    ensures
        r == under(path@, base@),
{
    if seq_eq(path, base) {
        return true;
    }
    let mut b = slice_vec(base, 0, base.len());
    b.push('/');
    proof {
        assert(b@ =~= base@ + seq!['/']);
    }
    starts_with(path, &b)
}

/// The alias a pattern gives `path`.
fn alias_of(path: &Vec<char>, pattern: &Vec<char>) -> (r: Option<Vec<char>>)
    ensures
        r matches Some(a) ==> alias_of_pattern(path@, pattern@) == Some(a@),
        r is None ==> alias_of_pattern(path@, pattern@) is None,
{
    let star = chars_of("/*");
    if pattern.len() >= 2 && ends_with(pattern, &star) {
        let a = slice_vec(pattern, 0, pattern.len() - 2);
        proof {
            assert(a@ =~= pattern@.take(pattern@.len() - 2));
        }
        if is_under(path, &a) {
            Some(a)
        } else {
            None
        }
    } else if seq_eq(path, pattern) {
        Some(slice_vec(pattern, 0, pattern.len()))
    } else {
        None
    }
}

/// The first alias that applies to `path`, with its targets.
pub fn match_alias(path: &str, aliases: &Vec<(String, Vec<String>)>) -> (r: Option<(String, Vec<String>)>)
    ensures
        r matches Some(m) ==> match_alias_from(path@, alias_views(aliases@), 0) == Some((m.0@, strings_view(m.1@))),
        r is None ==> match_alias_from(path@, alias_views(aliases@), 0) is None,
{
    let ghost av = alias_views(aliases@);
    let p = chars_of(path);
    let mut k = aliases.len();
    // Scan from the back so that the first match wins.
    let mut found: Option<(String, Vec<String>)> = None;
    proof {
        assert(match_alias_from(path@, av, aliases.len() as int) is None);
    }
    while k > 0
        invariant
            k <= aliases.len(),
            av == alias_views(aliases@),
            p@ == path@,
            found matches Some(m) ==> match_alias_from(path@, av, k as int) == Some((m.0@, strings_view(m.1@))),
            found is None ==> match_alias_from(path@, av, k as int) is None,
        decreases k,
    {
        k -= 1;
        proof {
            assert(av[k as int] == (aliases@[k as int].0@, strings_view(aliases@[k as int].1@)));
        }
        match alias_of(&p, &chars_of(aliases[k].0.as_str())) {
            Some(a) => {
                let targets = aliases[k].1.clone();
                proof {
                    assert(strings_view(targets@) =~= strings_view(aliases@[k as int].1@));
                }
                found = Some((string_from(&a), targets));
            },
            None => {},
        }
    }
    found
}

/// `path` with `alias` replaced by its first target.
pub fn resolve_alias(path: &str, alias: &str, targets: Vec<String>) -> (r: String)
    ensures
        r@ == spec_resolve_alias(path@, alias@, strings_view(targets@)),
{
    let p = chars_of(path);
    let a = chars_of(alias);
    let rest = if starts_with(&p, &a) {
        proof {
            assert(p@.subrange(a@.len() as int, p@.len() as int) =~= p@.skip(a@.len() as int));
        }
        slice_vec(&p, a.len(), p.len())
    } else {
        proof {
            assert(p@.subrange(0, p@.len() as int) =~= p@);
        }
        slice_vec(&p, 0, p.len())
    };
    if targets.len() == 0 {
        return string_from(&p);
    }
    let t = chars_of(targets[0].as_str());
    let dot_slash = chars_of("./");
    let slash_star = chars_of("/*");
    let star = vec!['*'];
    proof {
        assert(star@ =~= seq!['*']);
        reveal_strlit("./");
        reveal_strlit("/*");
    }
    let base = trim_end_pat(&trim_end_pat(&trim_start_pat(&t, &dot_slash), &slash_star), &star);
    let mut out = string_from(&base);
    crate::text::push_all(&mut out, &rest);
    out
}

/// Whether `path` is or lies below the base of some alias pattern.
pub fn looks_like_alias(path: &str, aliases: &Vec<(String, Vec<String>)>) -> (r: bool)
    ensures
        r == spec_looks_like_alias(path@, alias_views(aliases@)),
{
    let ghost av = alias_views(aliases@);
    let p = chars_of(path);
    let slash_star = chars_of("/*");
    let star = vec!['*'];
    proof {
        assert(star@ =~= seq!['*']);
        reveal_strlit("/*");
    }
    let mut k: usize = 0;
    while k < aliases.len()
        invariant
            k <= aliases.len(),
            av == alias_views(aliases@),
            p@ == path@,
            slash_star@ == "/*"@,
            slash_star@.len() == 2,
            star@ == seq!['*'],
            forall|m: int| 0 <= m < k ==> !under(path@, alias_base(#[trigger] av[m].0)),
        decreases aliases.len() - k,
    {
        proof {
            assert(av[k as int].0 == aliases@[k as int].0@);
        }
        let base = trim_end_pat(&trim_end_pat(&chars_of(aliases[k].0.as_str()), &slash_star), &star);
        if is_under(&p, &base) {
            proof {
                assert(under(path@, alias_base(av[k as int].0)));
            }
            return true;
        }
        k += 1;
    }
    false
}

// ---------------------------------------------------------------------------
// Case mismatches
// ---------------------------------------------------------------------------

/// The name of `e` when `e` lies directly in `parent` and its name equals
/// `name` up to case but differs from it.
pub open spec fn variant_at(e: Seq<char>, parent: Seq<char>, name: Seq<char>) -> Option<Seq<char>> {
    match spec_parent(e) {
        Some(p) => match spec_file_name(e) {
            Some(n) => if p == parent && spec_lowercase(n) == spec_lowercase(name) && n != name {
                Some(n)
            } else {
                None
            },
            None => None,
        },
        None => None,
    }
}

/// The first variant among the entries from index `k` on.
pub open spec fn first_variant(entries: Seq<Seq<char>>, parent: Seq<char>, name: Seq<char>, k: int) -> Option<Seq<char>>
    decreases entries.len() - k,
{
    if k < 0 || k >= entries.len() {
        None
    } else {
        match variant_at(entries[k], parent, name) {
            Some(n) => Some(n),
            None => first_variant(entries, parent, name, k + 1),
        }
    }
}

/// The path of an entry of the repository that differs from `resolved` in
/// the case of its name only: its directory, `/`, and its name.
pub open spec fn spec_find_case_variant(ctx: RepoContext, resolved: Seq<char>) -> Option<Seq<char>> {
    match spec_parent(resolved) {
        Some(p) => match spec_file_name(resolved) {
            Some(f) => match first_variant(strings_view(ctx.entries@), p, f, 0) {
                Some(n) => Some(p + seq!['/'] + n),
                None => None,
            },
            None => None,
        },
        None => None,
    }
}

/// The entry path that matches `resolved` up to the case of its name.
pub fn find_case_variant(ctx: &RepoContext, resolved: &str) -> (r: Option<String>)
    ensures
        r matches Some(s) ==> spec_find_case_variant(*ctx, resolved@) == Some(s@),
        r is None ==> spec_find_case_variant(*ctx, resolved@) is None,
{
    let rc = chars_of(resolved);
    let p = match parent(&rc) {
        Some(p) => p,
        None => {
            return None;
        },
    };
    let f = match file_name(&rc) {
        Some(f) => f,
        None => {
            return None;
        },
    };
    let lf = chars_of(to_lowercase(string_from(&f).as_str()).as_str());
    let ghost ev = strings_view(ctx.entries@);
    let mut k = ctx.entries.len();
    let mut found: Option<Vec<char>> = None;
    while k > 0
        invariant
            k <= ctx.entries.len(),
            ev == strings_view(ctx.entries@),
            lf@ == spec_lowercase(f@),
            found matches Some(n) ==> first_variant(ev, p@, f@, k as int) == Some(n@),
            found is None ==> first_variant(ev, p@, f@, k as int) is None,
        decreases k,
    {
        k -= 1;
        let e = chars_of(ctx.entries[k].as_str());
        proof {
            assert(ev[k as int] == e@);
        }
        match parent(&e) {
            Some(ep) => match file_name(&e) {
                Some(n) => {
                    let ln = chars_of(to_lowercase(string_from(&n).as_str()).as_str());
                    if seq_eq(&ep, &p) && seq_eq(&ln, &lf) && !seq_eq(&n, &f) {
                        found = Some(n);
                    }
                },
                None => {},
            },
            None => {},
        }
    }
    match found {
        Some(n) => {
            let mut out = string_from(&p);
            crate::text::push_char(&mut out, '/');
            crate::text::push_all(&mut out, &n);
            Some(out)
        },
        None => None,
    }
}

/// The issue for a non-relative import whose resolved path is missing but
/// exists with another case: reported at line 0.
pub open spec fn spec_case_issue(ctx: RepoContext, path: Seq<char>, from_file: Seq<char>) -> Option<IssueView> {
    let resolved = spec_resolve_relative(from_file, path);
    if ctx.exists_rel(resolved) {
        None
    } else {
        match spec_find_case_variant(ctx, resolved) {
            Some(actual) => if actual != resolved {
                Some(
                    IssueView {
                        file: from_file,
                        line: 0,
                        import_path: path,
                        kind: IssueKind::CaseMismatch,
                        detail: "Import casing '"@ + resolved + "' does not match actual file '"@ + actual + "'"@,
                    },
                )
            } else {
                None
            },
            None => None,
        }
    }
}

/// The case-mismatch issue of an import, if any.
pub fn check_case_sensitivity(ctx: &RepoContext, path: &str, from_file: &str) -> (r: Option<ImportIssue>)
    ensures
        r matches Some(i) ==> spec_case_issue(*ctx, path@, from_file@) == Some(issue_view(i)),
        r is None ==> spec_case_issue(*ctx, path@, from_file@) is None,
{
    let resolved = resolve_relative(from_file, path);
    if ctx.entry_exists(&chars_of(resolved.as_str())) {
        return None;
    }
    let actual = match find_case_variant(ctx, resolved.as_str()) {
        Some(a) => a,
        None => {
            return None;
        },
    };
    if crate::text::str_eq(actual.as_str(), resolved.as_str()) {
        return None;
    }
    let detail = concat(
        concat(concat(concat("Import casing '", resolved.as_str()).as_str(), "' does not match actual file '").as_str(), actual.as_str()).as_str(),
        "'",
    );
    Some(
        ImportIssue {
            file: string_from(&chars_of(from_file)),
            line: 0,
            import_path: string_from(&chars_of(path)),
            kind: IssueKind::CaseMismatch,
            detail,
        },
    )
}

/// An issue of the import `imp` of the file `rel`.
pub open spec fn issue_of(rel: Seq<char>, imp: ImportView, kind: IssueKind, detail: Seq<char>) -> IssueView {
    IssueView { file: rel, line: imp.line, import_path: imp.path, kind, detail }
}

/// The issues of one import of the file `rel`, in order: a relative import
/// that resolves to nothing; an alias that resolves to nothing; a path
/// written with both `/` and `\`; a double slash; a redundant `./` segment
/// (`/./` anywhere, or a leading `./../`); a case mismatch of a
/// non-relative, non-alias import.  Apart from the mixing of separators,
/// the import path is read with `/` for `\`.
pub open spec fn spec_check_import(
    ctx: RepoContext,
    aliases: Seq<(Seq<char>, Seq<Seq<char>>)>,
    rel: Seq<char>,
    imp: ImportView,
) -> Seq<IssueView> {
    let p = spec_normalize_slashes(imp.path);
    let relative = p.len() > 0 && p[0] == '.';
    let broken = if relative {
        let resolved = spec_resolve_relative(rel, p);
        if !spec_might_exist(ctx, resolved) {
            seq![issue_of(rel, imp, IssueKind::BrokenImport, "Resolved path does not exist: "@ + resolved)]
        } else {
            Seq::empty()
        }
    } else {
        Seq::empty()
    };
    let alias = match match_alias_from(p, aliases, 0) {
        Some(m) => {
            let resolved = spec_resolve_alias(p, m.0, m.1);
            if !spec_might_exist(ctx, resolved) {
                seq![
                    issue_of(
                        rel,
                        imp,
                        IssueKind::AliasMismatch,
                        "Alias '"@ + m.0 + "' resolves to missing path: "@ + resolved,
                    ),
                ]
            } else {
                Seq::empty()
            }
        },
        None => Seq::empty(),
    };
    let mixed = if imp.path.contains('/') && imp.path.contains('\\') {
        seq![issue_of(rel, imp, IssueKind::InconsistentSlashes, "Import path mixes / and \\ separators"@)]
    } else {
        Seq::empty()
    };
    let double = if spec_contains(p, "//"@) {
        seq![issue_of(rel, imp, IssueKind::DoubleSlash, "Import path contains double slashes"@)]
    } else {
        Seq::empty()
    };
    let redundant = if spec_contains(p, "/./"@) || spec_starts_with(p, "./../"@) {
        seq![issue_of(rel, imp, IssueKind::RedundantSegment, "Import path contains redundant ./ segment"@)]
    } else {
        Seq::empty()
    };
    let case = if !relative && !spec_looks_like_alias(p, aliases) {
        opt_seq(spec_case_issue(ctx, p, rel))
    } else {
        Seq::empty()
    };
    broken + alias + mixed + double + redundant + case
}

/// Appends the issues of one import of `file` to `issues`.
#[verifier::rlimit(40)]
pub fn check_import(
    ctx: &RepoContext,
    file: &FileImports,
    imp: &ImportInfo,
    aliases: &Vec<(String, Vec<String>)>,
    issues: &mut Vec<ImportIssue>,
)
    ensures
        issue_views(final(issues)@) == issue_views(old(issues)@) + spec_check_import(
            *ctx,
            alias_views(aliases@),
            file.file.relative@,
            imp@,
        ),
{
    let ghost start = issue_views(issues@);
    let ghost av = alias_views(aliases@);
    let ghost rel = file.file.relative@;
    let path_str = normalize_slashes(imp.import_path.as_str());
    let p = chars_of(path_str.as_str());
    let relative = p.len() > 0 && p[0] == '.';
    let ghost mut expected: Seq<IssueView> = Seq::empty();
    if relative {
        let resolved = resolve_relative(file.file.relative.as_str(), path_str.as_str());
        if !might_exist(ctx, resolved.as_str()) {
            let detail = concat("Resolved path does not exist: ", resolved.as_str());
            let issue = ImportIssue {
                file: file.file.relative.clone(),
                line: imp.line_number,
                import_path: imp.import_path.clone(),
                kind: IssueKind::BrokenImport,
                detail,
            };
            proof {
                expected = expected.push(issue_view(issue));
            }
            issues.push(issue);
        }
    }
    proof {
        assert(issue_views(issues@) =~= start + expected);
    }
    let ghost after_broken = expected;
    match match_alias(path_str.as_str(), aliases) {
        Some((alias, targets)) => {
            let resolved = resolve_alias(path_str.as_str(), alias.as_str(), targets);
            if !might_exist(ctx, resolved.as_str()) {
                let detail = concat(
                    concat(concat("Alias '", alias.as_str()).as_str(), "' resolves to missing path: ").as_str(),
                    resolved.as_str(),
                );
                let issue = ImportIssue {
                    file: file.file.relative.clone(),
                    line: imp.line_number,
                    import_path: imp.import_path.clone(),
                    kind: IssueKind::AliasMismatch,
                    detail,
                };
                proof {
                    expected = expected.push(issue_view(issue));
                }
                issues.push(issue);
            }
        },
        None => {},
    }
    proof {
        assert(issue_views(issues@) =~= start + expected);
    }
    let ghost after_alias = expected;
    let raw = chars_of(imp.import_path.as_str());
    if contains_char(&raw, '/') && contains_char(&raw, '\\') {
        let issue = ImportIssue {
            file: file.file.relative.clone(),
            line: imp.line_number,
            import_path: imp.import_path.clone(),
            kind: IssueKind::InconsistentSlashes,
            detail: string_from(&chars_of("Import path mixes / and \\ separators")),
        };
        proof {
            expected = expected.push(issue_view(issue));
        }
        issues.push(issue);
    }
    proof {
        assert(issue_views(issues@) =~= start + expected);
    }
    let ghost after_mixed = expected;
    if contains(&p, &chars_of("//")) {
        let issue = ImportIssue {
            file: file.file.relative.clone(),
            line: imp.line_number,
            import_path: imp.import_path.clone(),
            kind: IssueKind::DoubleSlash,
            detail: string_from(&chars_of("Import path contains double slashes")),
        };
        proof {
            expected = expected.push(issue_view(issue));
        }
        issues.push(issue);
    }
    proof {
        assert(issue_views(issues@) =~= start + expected);
    }
    let ghost after_double = expected;
    if contains(&p, &chars_of("/./")) || starts_with(&p, &chars_of("./../")) {
        let issue = ImportIssue {
            file: file.file.relative.clone(),
            line: imp.line_number,
            import_path: imp.import_path.clone(),
            kind: IssueKind::RedundantSegment,
            detail: string_from(&chars_of("Import path contains redundant ./ segment")),
        };
        proof {
            expected = expected.push(issue_view(issue));
        }
        issues.push(issue);
    }
    proof {
        assert(issue_views(issues@) =~= start + expected);
    }
    let ghost after_redundant = expected;
    if !relative && !looks_like_alias(path_str.as_str(), aliases) {
        match check_case_sensitivity(ctx, path_str.as_str(), file.file.relative.as_str()) {
            Some(issue) => {
                proof {
                    expected = expected.push(issue_view(issue));
                }
                issues.push(issue);
            },
            None => {},
        }
    }
    proof {
        assert(issue_views(issues@) =~= start + expected);
        let sp = spec_normalize_slashes(imp@.path);
        assert(path_str@ == sp);
        assert(after_broken =~= (if relative {
            let resolved = spec_resolve_relative(rel, sp);
            if !spec_might_exist(*ctx, resolved) {
                seq![issue_of(rel, imp@, IssueKind::BrokenImport, "Resolved path does not exist: "@ + resolved)]
            } else {
                Seq::empty()
            }
        } else {
            Seq::empty()
        }));
        assert(expected =~= spec_check_import(*ctx, av, rel, imp@));
    }
}

/// The issues of the first `k` imports of the file `rel`.
pub open spec fn issues_of_imports(
    ctx: RepoContext,
    aliases: Seq<(Seq<char>, Seq<Seq<char>>)>,
    rel: Seq<char>,
    imps: Seq<ImportView>,
    k: int,
) -> Seq<IssueView>
    decreases k,
{
    if k <= 0 || k > imps.len() {
        Seq::empty()
    } else {
        issues_of_imports(ctx, aliases, rel, imps, k - 1) + spec_check_import(ctx, aliases, rel, imps[k - 1])
    }
}

/// The issues of the imports of the first `k` scanned files.
pub open spec fn issues_of_files(
    ctx: RepoContext,
    aliases: Seq<(Seq<char>, Seq<Seq<char>>)>,
    files: Seq<(Seq<char>, Seq<char>, Seq<ImportView>, Seq<ImportView>)>,
    k: int,
) -> Seq<IssueView>
    decreases k,
{
    if k <= 0 || k > files.len() {
        Seq::empty()
    } else {
        let f = files[k - 1];
        issues_of_files(ctx, aliases, files, k - 1) + issues_of_imports(ctx, aliases, f.1, f.2, f.2.len() as int)
    }
}

/// The issues of every import of every scanned file, file by file and
/// import by import.
pub fn check_import_consistency(
    ctx: &RepoContext,
    file_imports: &Vec<FileImports>,
    aliases: &Vec<(String, Vec<String>)>,
) -> (r: Vec<ImportIssue>)
    ensures
        issue_views(r@) == issues_of_files(
            *ctx,
            alias_views(aliases@),
            file_imports_views(file_imports@),
            file_imports@.len() as int,
        ),
{
    let ghost av = alias_views(aliases@);
    let ghost fv = file_imports_views(file_imports@);
    let mut issues: Vec<ImportIssue> = Vec::new();
    proof {
        assert(issue_views(issues@) =~= Seq::<IssueView>::empty());
    }
    let mut i: usize = 0;
    while i < file_imports.len()
        invariant
            i <= file_imports.len(),
            av == alias_views(aliases@),
            fv == file_imports_views(file_imports@),
            issue_views(issues@) == issues_of_files(*ctx, av, fv, i as int),
        decreases file_imports.len() - i,
    {
        let file = &file_imports[i];
        let ghost base = issue_views(issues@);
        let ghost iv = import_views(file.imports@);
        proof {
            assert(fv[i as int] == file_imports_view(*file));
        }
        let mut j: usize = 0;
        while j < file.imports.len()
            invariant
                j <= file.imports.len(),
                av == alias_views(aliases@),
                iv == import_views(file.imports@),
                issue_views(issues@) == base + issues_of_imports(*ctx, av, file.file.relative@, iv, j as int),
            decreases file.imports.len() - j,
        {
            let ghost before = issue_views(issues@);
            proof {
                assert(iv[j as int] == file.imports@[j as int]@);
                assert(iv.len() == file.imports@.len());
                assert(issues_of_imports(*ctx, av, file.file.relative@, iv, j + 1) == issues_of_imports(
                    *ctx,
                    av,
                    file.file.relative@,
                    iv,
                    j as int,
                ) + spec_check_import(*ctx, av, file.file.relative@, iv[j as int]));
            }
            check_import(ctx, file, &file.imports[j], aliases, &mut issues);
            proof {
                assert(issue_views(issues@) == before + spec_check_import(*ctx, av, file.file.relative@, iv[j as int]));
                assert(issue_views(issues@) =~= base + issues_of_imports(*ctx, av, file.file.relative@, iv, j + 1));
            }
            j += 1;
        }
        i += 1;
    }
    issues
}

} // verus!
