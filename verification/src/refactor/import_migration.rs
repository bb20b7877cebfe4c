//! Import migrations: every import of a module path (or of a path below it)
//! rewritten to another path, line by line.
use vstd::prelude::*;
use crate::languages::{detect_language, import_views, ImportInfo, ImportView, LanguageAnalyzer};
use crate::scanner::content_scanner::file_imports_of;
use crate::scanner::{texts_fit, LoadedFile};
use crate::text::{
    chars_of, lemma_split_inclusive_len, push_all, replace_str, seq_eq, slice_vec, spec_replace,
    spec_split_inclusive,
    spec_starts_with, split_inclusive, starts_with, str_eq, string_from,
};

verus! {

/// One import to rewrite.
#[derive(Clone)]
pub struct ImportChange {
    pub path: String,
    pub relative: String,
    pub old_import: String,
    pub new_import: String,
    pub line_number: usize,
    pub new_line: String,
}

/// The plan of an import migration.
pub struct ImportMigrationPlan {
    pub files_affected: usize,
    pub imports_updated: usize,
    pub changes: Vec<ImportChange>,
}

/// The mathematical value of an [`ImportChange`].
pub struct ChangeView {
    pub path: Seq<char>,
    pub relative: Seq<char>,
    pub old_import: Seq<char>,
    pub new_import: Seq<char>,
    pub line: int,
    pub new_line: Seq<char>,
}

/// The view of a change.
pub open spec fn change_view(c: ImportChange) -> ChangeView {
    ChangeView {
        path: c.path@,
        relative: c.relative@,
        old_import: c.old_import@,
        new_import: c.new_import@,
        line: c.line_number as int,
        new_line: c.new_line@,
    }
}

/// The views of changes.
pub open spec fn change_views(v: Seq<ImportChange>) -> Seq<ChangeView> {
    v.map_values(|c: ImportChange| change_view(c))
}

/// The migrated form of an import path: `new` for `old` itself, `new`
/// followed by the rest for a path below `old`; `None` for any other path.
pub open spec fn migrated(path: Seq<char>, old: Seq<char>, new: Seq<char>) -> Option<Seq<char>> {
    if path == old {
        Some(new)
    } else if spec_starts_with(path, old + seq!['/']) {
        Some(new + path.skip(old.len() as int))
    } else {
        None
    }
}

/// The change of one import of a file, if the import is migrated.
pub open spec fn import_change(f: LoadedFile, imp: ImportView, old: Seq<char>, new: Seq<char>) -> Option<ChangeView> {
    match migrated(imp.path, old, new) {
        Some(rep) => Some(
            ChangeView {
                path: f.entry.path@,
                relative: f.entry.relative@,
                old_import: imp.path,
                new_import: rep,
                line: imp.line,
                new_line: spec_replace(imp.content, imp.path, rep),
            },
        ),
        None => None,
    }
}

/// The changes of the first `k` imports of a file.
pub open spec fn changes_of_imports(f: LoadedFile, imps: Seq<ImportView>, old: Seq<char>, new: Seq<char>, k: int) -> Seq<
    ChangeView,
>
    decreases k,
{
    if k <= 0 || k > imps.len() {
        Seq::empty()
    } else {
        changes_of_imports(f, imps, old, new, k - 1) + match import_change(f, imps[k - 1], old, new) {
            Some(c) => seq![c],
            None => Seq::empty(),
        }
    }
}

/// The changes of the first `k` files.
pub open spec fn migration_changes(files: Seq<LoadedFile>, old: Seq<char>, new: Seq<char>, k: int) -> Seq<ChangeView>
    decreases k,
{
    if k <= 0 || k > files.len() {
        Seq::empty()
    } else {
        let f = files[k - 1];
        migration_changes(files, old, new, k - 1) + match f.text {
            Some(t) => {
                let imps = file_imports_of(f.entry.path@, t@);
                changes_of_imports(f, imps, old, new, imps.len() as int)
            },
            None => Seq::empty(),
        }
    }
}

/// Number of distinct texts among the first `k`.
pub open spec fn distinct_count(s: Seq<Seq<char>>, k: int) -> nat
    decreases k,
{
    if k <= 0 || k > s.len() {
        0
    } else {
        distinct_count(s, k - 1) + if s.take(k - 1).contains(s[k - 1]) {
            0nat
        } else {
            1nat
        }
    }
}

/// The file paths of changes.
pub open spec fn change_paths(v: Seq<ChangeView>) -> Seq<Seq<char>> {
    v.map_values(|c: ChangeView| c.path)
}

proof fn lemma_distinct_bound(s: Seq<Seq<char>>, k: int)
    requires
        0 <= k <= s.len(),
    ensures
        distinct_count(s, k) <= k,
    decreases k,
{
    if k > 0 {
        lemma_distinct_bound(s, k - 1);
    }
}

/// The change of one import, if it is migrated.
fn change_for(f: &LoadedFile, imp: &ImportInfo, old: &str, new: &str) -> (r: Option<ImportChange>)
    ensures
        r matches Some(c) ==> import_change(*f, imp@, old@, new@) == Some(change_view(c)),
        r is None ==> import_change(*f, imp@, old@, new@) is None,
{
    let p = chars_of(imp.import_path.as_str());
    let o = chars_of(old);
    let mut o_slash = slice_vec(&o, 0, o.len());
    o_slash.push('/');
    proof {
        assert(o@.subrange(0, o@.len() as int) =~= o@);
        assert(o_slash@ =~= old@ + seq!['/']);
    }
    let replacement = if seq_eq(&p, &o) {
        string_from(&chars_of(new))
    } else if starts_with(&p, &o_slash) {
        let rest = slice_vec(&p, o.len(), p.len());
        let mut r = string_from(&chars_of(new));
        push_all(&mut r, &rest);
        proof {
            assert(rest@ =~= p@.skip(o@.len() as int));
        }
        r
    } else {
        return None;
    };
    let new_line = replace_str(&chars_of(imp.line_content.as_str()), &p, &chars_of(replacement.as_str()));
    Some(
        ImportChange {
            path: f.entry.path.clone(),
            relative: f.entry.relative.clone(),
            old_import: imp.import_path.clone(),
            new_import: replacement,
            line_number: imp.line_number,
            new_line,
        },
    )
}

/// Whether `changes[k]` repeats the file of an earlier change.
fn seen_before(changes: &Vec<ImportChange>, k: usize) -> (r: bool)
    requires
        k < changes@.len(),
    ensures
        r == change_paths(change_views(changes@)).take(k as int).contains(change_paths(change_views(changes@))[k as int]),
{
    let ghost ps = change_paths(change_views(changes@));
    let target = chars_of(changes[k].path.as_str());
    proof {
        assert(ps[k as int] == target@);
    }
    let mut j: usize = 0;
    while j < k
        invariant
            j <= k < changes@.len(),
            ps == change_paths(change_views(changes@)),
            target@ == ps[k as int],
            forall|m: int| 0 <= m < j ==> ps[m] != target@,
        decreases k - j,
    {
        proof {
            assert(ps[j as int] == changes@[j as int].path@);
        }
        if seq_eq(&chars_of(changes[j].path.as_str()), &target) {
            proof {
                assert(ps.take(k as int)[j as int] == ps[k as int]);
            }
            return true;
        }
        j += 1;
    }
    proof {
        if ps.take(k as int).contains(ps[k as int]) {
            let m = choose|m: int| 0 <= m < ps.take(k as int).len() && ps.take(k as int)[m] == ps[k as int];
            assert(ps[m] != target@);
        }
    }
    false
}

/// The plan of migrating `old` to `new`: every import of every loaded file
/// whose path is `old` or lies below it, file by file and import by import,
/// with the rewritten path and line; the number of distinct files changed
/// and the number of imports.
pub fn plan_import_migration(files: &Vec<LoadedFile>, old: &str, new: &str) -> (r: ImportMigrationPlan)
    requires
        texts_fit(files@),
    ensures
        change_views(r.changes@) == migration_changes(files@, old@, new@, files@.len() as int),
        r.imports_updated == r.changes@.len(),
        r.files_affected == distinct_count(change_paths(change_views(r.changes@)), r.changes@.len() as int),
{
    let mut changes: Vec<ImportChange> = Vec::new();
    let mut i: usize = 0;
    proof {
        assert(change_views(changes@) =~= Seq::<ChangeView>::empty());
    }
    while i < files.len()
        invariant
            i <= files.len(),
            texts_fit(files@),
            change_views(changes@) == migration_changes(files@, old@, new@, i as int),
        decreases files.len() - i,
    {
        let f = &files[i];
        proof {
            assert(files@[i as int] == *f);
        }
        let ghost base = change_views(changes@);
        match &f.text {
            Some(t) => {
                proof {
                    assert(t@.len() < usize::MAX);
                }
                let lang = detect_language(f.entry.path.as_str());
                let imports = lang.analyze_imports(t.as_str(), f.entry.path.as_str());
                let ghost iv = import_views(imports@);
                let mut j: usize = 0;
                while j < imports.len()
                    invariant
                        j <= imports.len(),
                        iv == import_views(imports@),
                        iv == file_imports_of(f.entry.path@, t@),
                        change_views(changes@) == base + changes_of_imports(*f, iv, old@, new@, j as int),
                    decreases imports.len() - j,
                {
                    let ghost before = change_views(changes@);
                    proof {
                        assert(iv[j as int] == imports@[j as int]@);
                    }
                    match change_for(f, &imports[j], old, new) {
                        Some(c) => {
                            let ghost cv = change_view(c);
                            changes.push(c);
                            proof {
                                assert(change_views(changes@) =~= before.push(cv));
                            }
                        },
                        None => {},
                    }
                    proof {
                        assert(change_views(changes@) =~= base + changes_of_imports(*f, iv, old@, new@, j + 1));
                    }
                    j += 1;
                }
            },
            None => {
                proof {
                    assert(change_views(changes@) =~= base + Seq::<ChangeView>::empty());
                }
            },
        }
        i += 1;
    }
    let ghost ps = change_paths(change_views(changes@));
    let mut distinct: usize = 0;
    let mut k: usize = 0;
    while k < changes.len()
        invariant
            k <= changes.len(),
            ps == change_paths(change_views(changes@)),
            distinct == distinct_count(ps, k as int),
        decreases changes.len() - k,
    {
        proof {
            lemma_distinct_bound(ps, k as int);
        }
        if !seen_before(&changes, k) {
            distinct = distinct + 1;
        }
        k += 1;
    }
    let total = changes.len();
    ImportMigrationPlan { files_affected: distinct, imports_updated: total, changes }
}

// ---------------------------------------------------------------------------
// Applying the edits of one file
// ---------------------------------------------------------------------------

/// A line without its trailing `\r` and `\n` characters.
pub open spec fn trim_end_crlf(s: Seq<char>) -> Seq<char>
    decreases s.len(),
{
    if s.len() > 0 && (s.last() == '\r' || s.last() == '\n') {
        trim_end_crlf(s.drop_last())
    } else {
        s
    }
}

/// The text built from the first `k` lines (pieces that keep their line
/// endings) and the index of the next change to apply.  A change applies to
/// the line whose number (from 1) it names: its import path is replaced in
/// the line without its ending, and the ending is kept.  The next change is
/// taken once its line is reached or passed.
pub open spec fn edit_state(segs: Seq<Seq<char>>, changes: Seq<ChangeView>, k: int) -> (Seq<char>, int)
    decreases k,
{
    if k <= 0 || k > segs.len() {
        (Seq::empty(), 0)
    } else {
        let prev = edit_state(segs, changes, k - 1);
        let seg = segs[k - 1];
        if 0 <= prev.1 < changes.len() {
            let c = changes[prev.1];
            let piece = if c.line == k {
                let body = trim_end_crlf(seg);
                spec_replace(body, c.old_import, c.new_import) + seg.skip(body.len() as int)
            } else {
                seg
            };
            (prev.0 + piece, if c.line <= k {
                prev.1 + 1
            } else {
                prev.1
            })
        } else {
            (prev.0 + seg, prev.1)
        }
    }
}

/// The text with the changes applied, line by line.
pub open spec fn spec_apply_line_edits(text: Seq<char>, changes: Seq<ChangeView>) -> Seq<char> {
    edit_state(spec_split_inclusive(text), changes, spec_split_inclusive(text).len() as int).0
}

proof fn lemma_edit_index(segs: Seq<Seq<char>>, changes: Seq<ChangeView>, k: int)
    requires
        0 <= k <= segs.len(),
    ensures
        0 <= edit_state(segs, changes, k).1 <= k,
    decreases k,
{
    if k > 0 {
        lemma_edit_index(segs, changes, k - 1);
    }
}

/// The length of `s` without its trailing `\r` and `\n` characters.
fn trimmed_len(s: &Vec<char>) -> (r: usize)
    ensures
        r <= s@.len(),
        r == trim_end_crlf(s@).len(),
        trim_end_crlf(s@) == s@.take(r as int),
{
    let mut n = s.len();
    proof {
        assert(s@.take(n as int) =~= s@);
    }
    while n > 0 && (s[n - 1] == '\r' || s[n - 1] == '\n')
        invariant
            n <= s.len(),
            trim_end_crlf(s@.take(n as int)) == trim_end_crlf(s@),
        decreases n,
    {
        proof {
            assert(s@.take(n as int).drop_last() =~= s@.take(n - 1));
        }
        n -= 1;
    }
    proof {
        assert(trim_end_crlf(s@.take(n as int)) == s@.take(n as int));
    }
    n
}

/// `text` with the changes of one file applied, in order, line by line.
pub fn apply_line_edits(text: &str, changes: &Vec<ImportChange>) -> (r: String)
    ensures
        r@ == spec_apply_line_edits(text@, change_views(changes@)),
{
    let ghost cv = change_views(changes@);
    let segs = split_inclusive(&chars_of(text));
    let ghost sv = spec_split_inclusive(text@);
    let mut result = String::new();
    let mut idx: usize = 0;
    let mut k: usize = 0;
    proof {
        lemma_split_inclusive_len(text@);
    }
    while k < segs.len()
        invariant
            k <= segs.len(),
            segs@.map_values(|v: Vec<char>| v@) == sv,
            sv.len() <= text@.len(),
            cv == change_views(changes@),
            (result@, idx as int) == edit_state(sv, cv, k as int),
        decreases segs.len() - k,
    {
        let seg = &segs[k];
        proof {
            assert(sv[k as int] == seg@);
            lemma_edit_index(sv, cv, k as int);
        }
        let line = k + 1;
        if idx < changes.len() {
            let c = &changes[idx];
            proof {
                assert(cv[idx as int] == change_view(*c));
            }
            if c.line_number == line {
                let n = trimmed_len(seg);
                let body = slice_vec(seg, 0, n);
                let edited = replace_str(&body, &chars_of(c.old_import.as_str()), &chars_of(c.new_import.as_str()));
                push_all(&mut result, &chars_of(edited.as_str()));
                let ending = slice_vec(seg, n, seg.len());
                push_all(&mut result, &ending);
                proof {
                    assert(body@ =~= seg@.take(n as int));
                    assert(ending@ =~= seg@.skip(n as int));
                }
            } else {
                push_all(&mut result, seg);
            }
            if c.line_number <= line {
                idx += 1;
            }
        } else {
            push_all(&mut result, seg);
        }
        k += 1;
    }
    result
}

// ---------------------------------------------------------------------------
// Laws
// ---------------------------------------------------------------------------

/// The pieces of a text, joined back together.
pub open spec fn join_pieces(segs: Seq<Seq<char>>, k: int) -> Seq<char>
    decreases k,
{
    if k <= 0 || k > segs.len() {
        Seq::empty()
    } else {
        join_pieces(segs, k - 1) + segs[k - 1]
    }
}

proof fn lemma_join_split(s: Seq<char>)
    ensures
        join_pieces(spec_split_inclusive(s), spec_split_inclusive(s).len() as int) == s,
    decreases s.len(),
{
    if s.len() > 0 {
        let init = s.drop_last();
        lemma_join_split(init);
        let p = spec_split_inclusive(init);
        let c = s.last();
        let q = spec_split_inclusive(s);
        if p.len() == 0 || p.last().last() == '\n' {
            assert(q == p.push(seq![c]));
            assert(q.len() == p.len() + 1);
            assert forall|k: int| 0 <= k <= p.len() implies join_pieces(q, k) == join_pieces(p, k) by {
                lemma_join_prefix(p, q, k);
            }
            assert(join_pieces(q, q.len() as int) == join_pieces(p, p.len() as int) + seq![c]);
            assert(s =~= init + seq![c]);
        } else {
            let last = p.last().push(c);
            assert(q == p.drop_last().push(last));
            let d = p.drop_last();
            assert forall|k: int| 0 <= k <= d.len() implies join_pieces(q, k) == join_pieces(d, k) by {
                lemma_join_prefix(d, q, k);
            }
            assert forall|k: int| 0 <= k <= d.len() implies join_pieces(p, k) == join_pieces(d, k) by {
                lemma_join_prefix(d, p, k);
            }
            assert(join_pieces(p, p.len() as int) == join_pieces(d, d.len() as int) + p.last());
            assert(join_pieces(q, q.len() as int) == join_pieces(d, d.len() as int) + last);
            assert(s =~= init + seq![c]);
            assert(join_pieces(q, q.len() as int) =~= join_pieces(p, p.len() as int) + seq![c]);
        }
    }
}

proof fn lemma_join_prefix(p: Seq<Seq<char>>, q: Seq<Seq<char>>, k: int)
    requires
        0 <= k <= p.len(),
        k <= q.len(),
        forall|m: int| 0 <= m < k ==> p[m] == q[m],
    ensures
        join_pieces(q, k) == join_pieces(p, k),
    decreases k,
{
    if k > 0 {
        lemma_join_prefix(p, q, k - 1);
    }
}

proof fn lemma_no_edits(segs: Seq<Seq<char>>, k: int)
    requires
        0 <= k <= segs.len(),
    ensures
        edit_state(segs, Seq::<ChangeView>::empty(), k).0 == join_pieces(segs, k),
    decreases k,
{
    if k > 0 {
        lemma_no_edits(segs, k - 1);
        lemma_edit_index(segs, Seq::<ChangeView>::empty(), k - 1);
    }
}

/// Applying no edits gives the text back unchanged, line endings included.
pub proof fn law_no_edits_identity(text: Seq<char>)
    ensures
        spec_apply_line_edits(text, Seq::empty()) == text,
{
    let segs = spec_split_inclusive(text);
    lemma_no_edits(segs, segs.len() as int);
    lemma_join_split(text);
}


/// The files of the first `k` paths, each once, in the order in which they
/// first occur.
pub open spec fn files_of(s: Seq<Seq<char>>, k: int) -> Seq<Seq<char>>
    decreases k,
{
    if k <= 0 || k > s.len() {
        Seq::empty()
    } else {
        let r = files_of(s, k - 1);
        if s.take(k - 1).contains(s[k - 1]) {
            r
        } else {
            r.push(s[k - 1])
        }
    }
}

/// The changes of the file `path` among the first `k` changes, in order.
pub open spec fn changes_in(v: Seq<ChangeView>, path: Seq<char>, k: int) -> Seq<ChangeView>
    decreases k,
{
    if k <= 0 || k > v.len() {
        Seq::empty()
    } else {
        let r = changes_in(v, path, k - 1);
        if v[k - 1].path == path {
            r.push(v[k - 1])
        } else {
            r
        }
    }
}

proof fn lemma_files_of_len(s: Seq<Seq<char>>, k: int)
    requires
        0 <= k <= s.len(),
    ensures
        files_of(s, k).len() == distinct_count(s, k),
    decreases k,
{
    if k > 0 {
        lemma_files_of_len(s, k - 1);
    }
}

/// A copy of a change.
fn copy_change(c: &ImportChange) -> (r: ImportChange)
    ensures
        change_view(r) == change_view(*c),
{
    ImportChange {
        path: c.path.clone(),
        relative: c.relative.clone(),
        old_import: c.old_import.clone(),
        new_import: c.new_import.clone(),
        line_number: c.line_number,
        new_line: c.new_line.clone(),
    }
}

/// The files an import migration changes, each once, in the order of their
/// first change; as many as the plan counts.
pub fn changed_files(plan: &ImportMigrationPlan) -> (r: Vec<String>)
    ensures
        crate::config::strings_view(r@) == files_of(
            change_paths(change_views(plan.changes@)),
            plan.changes@.len() as int,
        ),
        r@.len() == distinct_count(change_paths(change_views(plan.changes@)), plan.changes@.len() as int),
{
    let ghost ps = change_paths(change_views(plan.changes@));
    let mut r: Vec<String> = Vec::new();
    let mut k: usize = 0;
    while k < plan.changes.len()
        invariant
            k <= plan.changes@.len(),
            ps == change_paths(change_views(plan.changes@)),
            crate::config::strings_view(r@) == files_of(ps, k as int),
        decreases plan.changes.len() - k,
    {
        let ghost before = crate::config::strings_view(r@);
        if !seen_before(&plan.changes, k) {
            r.push(plan.changes[k].path.clone());
            proof {
                assert(ps[k as int] == plan.changes@[k as int].path@);
                assert(crate::config::strings_view(r@) =~= before.push(ps[k as int]));
            }
        }
        k += 1;
    }
    proof {
        lemma_files_of_len(ps, ps.len() as int);
    }
    r
}

/// The changes of the file `path`, in order.
pub fn changes_of_file(plan: &ImportMigrationPlan, path: &str) -> (r: Vec<ImportChange>)
    ensures
        change_views(r@) == changes_in(change_views(plan.changes@), path@, plan.changes@.len() as int),
{
    let ghost cv = change_views(plan.changes@);
    let p = chars_of(path);
    let mut r: Vec<ImportChange> = Vec::new();
    let mut k: usize = 0;
    proof {
        assert(change_views(r@) =~= Seq::<ChangeView>::empty());
    }
    while k < plan.changes.len()
        invariant
            k <= plan.changes@.len(),
            cv == change_views(plan.changes@),
            p@ == path@,
            change_views(r@) == changes_in(cv, path@, k as int),
        decreases plan.changes.len() - k,
    {
        let ghost before = change_views(r@);
        proof {
            assert(cv[k as int] == change_view(plan.changes@[k as int]));
        }
        if seq_eq(&chars_of(plan.changes[k].path.as_str()), &p) {
            let c = copy_change(&plan.changes[k]);
            r.push(c);
            proof {
                assert(change_views(r@) =~= before.push(cv[k as int]));
            }
        }
        k += 1;
    }
    r
}

} // verus!
