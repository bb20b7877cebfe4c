//! Path migrations: every line that mentions a path, and the rewrite of that
//! path throughout a file.
use vstd::prelude::*;
use crate::refactor::import_migration::distinct_count;
use crate::scanner::{texts_fit, LoadedFile};
use crate::text::{chars_of, contains, lines, replace_str, seq_eq, spec_contains, spec_lines, spec_replace, string_from};

verus! {

/// One line that mentions the migrated path.
pub struct PathChange {
    pub path: String,
    pub relative: String,
    pub old_path: String,
    pub new_path: String,
    pub line_number: usize,
}

/// The plan of a path migration.
pub struct PathMigrationPlan {
    pub files_affected: usize,
    pub paths_updated: usize,
    pub changes: Vec<PathChange>,
}

/// The mathematical value of a [`PathChange`].
pub struct PathChangeView {
    pub path: Seq<char>,
    pub relative: Seq<char>,
    pub old_path: Seq<char>,
    pub new_path: Seq<char>,
    pub line: int,
}

/// The views of path changes.
pub open spec fn path_change_views(v: Seq<PathChange>) -> Seq<PathChangeView> {
    v.map_values(
        |c: PathChange|
            PathChangeView {
                path: c.path@,
                relative: c.relative@,
                old_path: c.old_path@,
                new_path: c.new_path@,
                line: c.line_number as int,
            },
    )
}

/// The changes of the first `k` lines of a file: one per line containing `old`.
pub open spec fn line_changes(f: LoadedFile, ls: Seq<Seq<char>>, old: Seq<char>, new: Seq<char>, k: int) -> Seq<PathChangeView>
    decreases k,
{
    if k <= 0 || k > ls.len() {
        Seq::empty()
    } else {
        line_changes(f, ls, old, new, k - 1) + if spec_contains(ls[k - 1], old) {
            seq![PathChangeView { path: f.entry.path@, relative: f.entry.relative@, old_path: old, new_path: new, line: k }]
        } else {
            Seq::empty()
        }
    }
}

/// The changes of the first `k` files.
pub open spec fn path_changes(files: Seq<LoadedFile>, old: Seq<char>, new: Seq<char>, k: int) -> Seq<PathChangeView>
    decreases k,
{
    if k <= 0 || k > files.len() {
        Seq::empty()
    } else {
        let f = files[k - 1];
        path_changes(files, old, new, k - 1) + match f.text {
            Some(t) => line_changes(f, spec_lines(t@), old, new, spec_lines(t@).len() as int),
            None => Seq::empty(),
        }
    }
}

/// The file paths of path changes.
pub open spec fn path_change_paths(v: Seq<PathChangeView>) -> Seq<Seq<char>> {
    v.map_values(|c: PathChangeView| c.path)
}

proof fn lemma_distinct_bound(s: Seq<Seq<char>>, k: int)
    requires
        0 <= k <= s.len(),
    ensures
        distinct_count(s, k) <= k,
    decreases k,
{
    if k > 0 {
        lemma_distinct_bound(s, k - 1);
    }
}

/// Whether `changes[k]` repeats the file of an earlier change.
fn seen_before(changes: &Vec<PathChange>, k: usize) -> (r: bool)
    requires
        k < changes@.len(),
    ensures
        r == path_change_paths(path_change_views(changes@)).take(k as int).contains(
            path_change_paths(path_change_views(changes@))[k as int],
        ),
{
    let ghost ps = path_change_paths(path_change_views(changes@));
    let target = chars_of(changes[k].path.as_str());
    proof {
        assert(ps[k as int] == target@);
    }
    let mut j: usize = 0;
    while j < k
        invariant
            j <= k < changes@.len(),
            ps == path_change_paths(path_change_views(changes@)),
            target@ == ps[k as int],
            forall|m: int| 0 <= m < j ==> ps[m] != target@,
        decreases k - j,
    {
        proof {
            assert(ps[j as int] == changes@[j as int].path@);
        }
        if seq_eq(&chars_of(changes[j].path.as_str()), &target) {
            proof {
                assert(ps.take(k as int)[j as int] == ps[k as int]);
            }
            return true;
        }
        j += 1;
    }
    proof {
        if ps.take(k as int).contains(ps[k as int]) {
            let m = choose|m: int| 0 <= m < ps.take(k as int).len() && ps.take(k as int)[m] == ps[k as int];
            assert(ps[m] != target@);
        }
    }
    false
}

/// The plan of migrating the path `old` to `new`: one change per line (from
/// 1) of every loaded file that contains `old`; the number of distinct files
/// and of lines.
pub fn plan_path_migration(files: &Vec<LoadedFile>, old: &str, new: &str) -> (r: PathMigrationPlan)
    requires
        texts_fit(files@),
    ensures
        path_change_views(r.changes@) == path_changes(files@, old@, new@, files@.len() as int),
        r.paths_updated == r.changes@.len(),
        r.files_affected == distinct_count(path_change_paths(path_change_views(r.changes@)), r.changes@.len() as int),
{
    let o = chars_of(old);
    let mut changes: Vec<PathChange> = Vec::new();
    let mut i: usize = 0;
    proof {
        assert(path_change_views(changes@) =~= Seq::<PathChangeView>::empty());
    }
    while i < files.len()
        invariant
            i <= files.len(),
            texts_fit(files@),
            o@ == old@,
            path_change_views(changes@) == path_changes(files@, old@, new@, i as int),
        decreases files.len() - i,
    {
        let f = &files[i];
        proof {
            assert(files@[i as int] == *f);
        }
        let ghost base = path_change_views(changes@);
        match &f.text {
            Some(t) => {
                proof {
                    assert(t@.len() < usize::MAX);
                    crate::text::lemma_lines_len(t@);
                }
                let ls = lines(&chars_of(t.as_str()));
                let ghost sl = spec_lines(t@);
                let mut j: usize = 0;
                while j < ls.len()
                    invariant
                        j <= ls.len(),
                        o@ == old@,
                        ls@.len() == sl.len(),
                        sl.len() < usize::MAX,
                        sl == spec_lines(t@),
                        forall|m: int| 0 <= m < ls@.len() ==> #[trigger] ls@[m]@ == sl[m],
                        path_change_views(changes@) == base + line_changes(*f, sl, old@, new@, j as int),
                    decreases ls.len() - j,
                {
                    let ghost before = path_change_views(changes@);
                    proof {
                        assert(ls@[j as int]@ == sl[j as int]);
                    }
                    if contains(&ls[j], &o) {
                        let c = PathChange {
                            path: f.entry.path.clone(),
                            relative: f.entry.relative.clone(),
                            old_path: string_from(&chars_of(old)),
                            new_path: string_from(&chars_of(new)),
                            line_number: j + 1,
                        };
                        changes.push(c);
                        proof {
                            let item = PathChangeView {
                                path: f.entry.path@,
                                relative: f.entry.relative@,
                                old_path: old@,
                                new_path: new@,
                                line: j + 1,
                            };
                            assert(path_change_views(changes@) =~= before.push(item));
                            assert(spec_contains(sl[j as int], old@));
                            assert(line_changes(*f, sl, old@, new@, j + 1) == line_changes(*f, sl, old@, new@, j as int) + seq![item]);
                            assert(path_change_views(changes@) =~= base + line_changes(*f, sl, old@, new@, j + 1));
                        }
                    } else {
                        proof {
                            assert(path_change_views(changes@) =~= base + line_changes(*f, sl, old@, new@, j + 1));
                        }
                    }
                    j += 1;
                }
            },
            None => {
                proof {
                    assert(path_change_views(changes@) =~= base + Seq::<PathChangeView>::empty());
                }
            },
        }
        i += 1;
    }
    let ghost ps = path_change_paths(path_change_views(changes@));
    let mut distinct: usize = 0;
    let mut k: usize = 0;
    while k < changes.len()
        invariant
            k <= changes.len(),
            ps == path_change_paths(path_change_views(changes@)),
            distinct == distinct_count(ps, k as int),
        decreases changes.len() - k,
    {
        proof {
            lemma_distinct_bound(ps, k as int);
        }
        if !seen_before(&changes, k) {
            distinct = distinct + 1;
        }
        k += 1;
    }
    let total = changes.len();
    PathMigrationPlan { files_affected: distinct, paths_updated: total, changes }
}

/// The new text of a file of the plan: every occurrence of the migrated
/// path replaced; `None` when nothing changes.
pub fn migrated_text(text: &str, change: &PathChange) -> (r: Option<String>)
    ensures
        r matches Some(s) ==> s@ == spec_replace(text@, change.old_path@, change.new_path@) && s@ != text@,
        r is None ==> spec_replace(text@, change.old_path@, change.new_path@) == text@,
{
    let s = replace_str(&chars_of(text), &chars_of(change.old_path.as_str()), &chars_of(change.new_path.as_str()));
    if crate::text::str_eq(s.as_str(), text) {
        None
    } else {
        Some(s)
    }
}


/// The first change of each file among the first `k` changes, in order.
pub open spec fn first_changes(v: Seq<PathChangeView>, k: int) -> Seq<PathChangeView>
    decreases k,
{
    if k <= 0 || k > v.len() {
        Seq::empty()
    } else {
        let r = first_changes(v, k - 1);
        if path_change_paths(v).take(k - 1).contains(v[k - 1].path) {
            r
        } else {
            r.push(v[k - 1])
        }
    }
}

/// Whether `changes[k]` is in a file of an earlier change.
fn path_seen_before(changes: &Vec<PathChange>, k: usize) -> (r: bool)
    requires
        k < changes@.len(),
    ensures
        r == path_change_paths(path_change_views(changes@)).take(k as int).contains(changes@[k as int].path@),
{
    let ghost ps = path_change_paths(path_change_views(changes@));
    let target = chars_of(changes[k].path.as_str());
    let mut j: usize = 0;
    while j < k
        invariant
            j <= k < changes@.len(),
            ps == path_change_paths(path_change_views(changes@)),
            target@ == changes@[k as int].path@,
            forall|m: int| 0 <= m < j ==> ps[m] != target@,
        decreases k - j,
    {
        proof {
            assert(ps[j as int] == changes@[j as int].path@);
        }
        if seq_eq(&chars_of(changes[j].path.as_str()), &target) {
            proof {
                assert(ps.take(k as int)[j as int] == target@);
            }
            return true;
        }
        j += 1;
    }
    proof {
        if ps.take(k as int).contains(target@) {
            let m = choose|m: int| 0 <= m < ps.take(k as int).len() && ps.take(k as int)[m] == target@;
            assert(ps[m] != target@);
        }
    }
    false
}

/// The first change of each file of the plan, in order: the one that a
/// file's rewrite goes by.
pub fn changes_per_file(plan: &PathMigrationPlan) -> (r: Vec<PathChange>)
    ensures
        path_change_views(r@) == first_changes(path_change_views(plan.changes@), plan.changes@.len() as int),
{
    let ghost cv = path_change_views(plan.changes@);
    let mut r: Vec<PathChange> = Vec::new();
    let mut k: usize = 0;
    proof {
        assert(path_change_views(r@) =~= Seq::<PathChangeView>::empty());
    }
    while k < plan.changes.len()
        invariant
            k <= plan.changes@.len(),
            cv == path_change_views(plan.changes@),
            path_change_views(r@) == first_changes(cv, k as int),
        decreases plan.changes.len() - k,
    {
        let ghost before = path_change_views(r@);
        if !path_seen_before(&plan.changes, k) {
            let c = &plan.changes[k];
            r.push(
                PathChange {
                    path: c.path.clone(),
                    relative: c.relative.clone(),
                    old_path: c.old_path.clone(),
                    new_path: c.new_path.clone(),
                    line_number: c.line_number,
                },
            );
            proof {
                assert(path_change_views(r@) =~= before.push(cv[k as int]));
            }
        }
        k += 1;
    }
    r
}

} // verus!
