//! `clean`: temporary files, cache directories and empty directories.
use vstd::prelude::*;
use crate::analyzers::references::vviews;
use crate::cli::CleanArgs;
use crate::config::strings_view;
use crate::context::RepoContext;
use crate::output::{line_views, out_heading, out_info, out_success, wrote, LineKind, Output};
use crate::paths::{components, file_name, spec_components, spec_file_name};
use crate::refactor::rename::same_path;
use crate::text::{
    chars_of, concat, decimal, ends_with, seq_eq, spec_decimal, spec_ends_with, spec_starts_with,
    spec_trim_end_pat, starts_with, str_eq, string_from, trim_end_pat,
};

verus! {

/// A temporary file: its name ends with `.tmp` or `.bak`, or starts with `.~`.
pub open spec fn spec_is_temp_name(name: Seq<char>) -> bool {
    spec_ends_with(name, ".tmp"@) || spec_ends_with(name, ".bak"@) || spec_starts_with(name, ".~"@)
}

/// Whether a file name is that of a temporary file.
pub fn is_temp_file_name(name: &str) -> (r: bool)
    ensures
        r == spec_is_temp_name(name@),
{
    let n = chars_of(name);
    ends_with(&n, &chars_of(".tmp")) || ends_with(&n, &chars_of(".bak")) || starts_with(&n, &chars_of(".~"))
}

/// A cache directory: `.cache`, `__pycache__` or `.pytest_cache`.
pub open spec fn spec_is_cache_name(name: Seq<char>) -> bool {
    name == ".cache"@ || name == "__pycache__"@ || name == ".pytest_cache"@
}

/// Law: the cache directories are exactly those named `.cache`,
/// `__pycache__` and `.pytest_cache`.
pub proof fn law_cache_dir_names(name: Seq<char>)
    ensures
        spec_is_cache_name(name) <==> set![".cache"@, "__pycache__"@, ".pytest_cache"@].contains(name),
{
}

/// Law: a name that ends with `.tmp` or `.bak`, or starts with `.~`, is a
/// temporary file's; a name with none of these is not.
pub proof fn law_temp_names(stem: Seq<char>, name: Seq<char>)
    ensures
        spec_is_temp_name(stem + ".tmp"@),
        spec_is_temp_name(stem + ".bak"@),
        spec_is_temp_name(".~"@ + stem),
        !(name.len() >= 4 && name.skip(name.len() - 4) == ".tmp"@) && !(name.len() >= 4 && name.skip(name.len() - 4)
            == ".bak"@) && !(name.len() >= 2 && name.take(2) == ".~"@) ==> !spec_is_temp_name(name),
{
    reveal_strlit(".tmp");
    reveal_strlit(".bak");
    reveal_strlit(".~");
    let a = stem + ".tmp"@;
    assert(a.subrange(a.len() - 4, a.len() as int) =~= ".tmp"@);
    let b = stem + ".bak"@;
    assert(b.subrange(b.len() - 4, b.len() as int) =~= ".bak"@);
    let c = ".~"@ + stem;
    assert(c.subrange(0, 2) =~= ".~"@);
    if spec_is_temp_name(name) {
        if crate::text::spec_ends_with(name, ".tmp"@) {
            assert(name.skip(name.len() - 4) =~= name.subrange(name.len() - 4, name.len() as int));
        } else if crate::text::spec_ends_with(name, ".bak"@) {
            assert(name.skip(name.len() - 4) =~= name.subrange(name.len() - 4, name.len() as int));
        } else {
            assert(name.take(2) =~= name.subrange(0, 2));
        }
    }
}

/// Whether a directory name is that of a cache directory.
pub fn is_cache_dir_name(name: &str) -> (r: bool)
    ensures
        r == spec_is_cache_name(name@),
{
    str_eq(name, ".cache") || str_eq(name, "__pycache__") || str_eq(name, ".pytest_cache")
}

/// An entry met by the walk of the repository: its path, its file name,
/// and whether it is a regular file or a directory.
pub struct WalkEntry {
    pub path: String,
    pub name: String,
    pub is_file: bool,
    pub is_dir: bool,
}

/// The paths of the first `k` entries that `keep` selects, in walk order.
pub open spec fn selected(v: Seq<WalkEntry>, keep: spec_fn(WalkEntry) -> bool, k: int) -> Seq<Seq<char>>
    decreases k,
{
    if k <= 0 || k > v.len() {
        Seq::empty()
    } else {
        let r = selected(v, keep, k - 1);
        if keep(v[k - 1]) {
            r.push(v[k - 1].path@)
        } else {
            r
        }
    }
}

/// A temporary file: a regular file with a temporary name.
pub open spec fn temp_target(e: WalkEntry) -> bool {
    e.is_file && spec_is_temp_name(e.name@)
}

/// A cache directory: a directory with a cache name.
pub open spec fn cache_target(e: WalkEntry) -> bool {
    e.is_dir && spec_is_cache_name(e.name@)
}

/// The temporary files among the walked entries, in walk order.
pub fn temp_targets(entries: &Vec<WalkEntry>) -> (r: Vec<String>)
    ensures
        strings_view(r@) == selected(entries@, |e: WalkEntry| temp_target(e), entries@.len() as int),
{
    let ghost keep = |e: WalkEntry| temp_target(e);
    let mut r: Vec<String> = Vec::new();
    let mut k: usize = 0;
    while k < entries.len()
        invariant
            k <= entries@.len(),
            keep == (|e: WalkEntry| temp_target(e)),
            strings_view(r@) == selected(entries@, keep, k as int),
        decreases entries.len() - k,
    {
        let ghost before = strings_view(r@);
        let e = &entries[k];
        if e.is_file && is_temp_file_name(e.name.as_str()) {
            r.push(e.path.clone());
            proof {
                assert(strings_view(r@) =~= before.push(e.path@));
            }
        }
        k += 1;
    }
    r
}

/// The cache directories among the walked entries, in walk order.
pub fn cache_targets(entries: &Vec<WalkEntry>) -> (r: Vec<String>)
    ensures
        strings_view(r@) == selected(entries@, |e: WalkEntry| cache_target(e), entries@.len() as int),
{
    let ghost keep = |e: WalkEntry| cache_target(e);
    let mut r: Vec<String> = Vec::new();
    let mut k: usize = 0;
    while k < entries.len()
        invariant
            k <= entries@.len(),
            keep == (|e: WalkEntry| cache_target(e)),
            strings_view(r@) == selected(entries@, keep, k as int),
        decreases entries.len() - k,
    {
        let ghost before = strings_view(r@);
        let e = &entries[k];
        if e.is_dir && is_cache_dir_name(e.name.as_str()) {
            r.push(e.path.clone());
            proof {
                assert(strings_view(r@) =~= before.push(e.path@));
            }
        }
        k += 1;
    }
    r
}

/// The name of a directory (empty when it has none) equals an excluded
/// name, with or without trailing `/`.
pub open spec fn spec_is_ignored_dir(path: Seq<char>, ignores: Seq<Seq<char>>) -> bool {
    let name = match spec_file_name(path) {
        Some(n) => n,
        None => Seq::empty(),
    };
    exists|k: int| 0 <= k < ignores.len() && (#[trigger] ignores[k] == name || spec_trim_end_pat(ignores[k], seq!['/']) == name)
}

/// Whether a directory is excluded by name.
pub fn is_ignored_dir(path: &str, ignores: &Vec<String>) -> (r: bool)
    ensures
        r == spec_is_ignored_dir(path@, strings_view(ignores@)),
{
    let ghost iv = strings_view(ignores@);
    let name = match file_name(&chars_of(path)) {
        Some(n) => n,
        None => Vec::new(),
    };
    let slash = vec!['/'];
    proof {
        assert(slash@ =~= seq!['/']);
    }
    let mut k: usize = 0;
    while k < ignores.len()
        invariant
            k <= ignores.len(),
            iv == strings_view(ignores@),
            slash@ == seq!['/'],
            name@ == match spec_file_name(path@) {
                Some(n) => n,
                None => Seq::<char>::empty(),
            },
            forall|m: int| 0 <= m < k ==> !(#[trigger] iv[m] == name@ || spec_trim_end_pat(iv[m], seq!['/']) == name@),
        decreases ignores.len() - k,
    {
        let ic = chars_of(ignores[k].as_str());
        proof {
            assert(iv[k as int] == ic@);
        }
        if seq_eq(&ic, &name) || seq_eq(&trim_end_pat(&ic, &slash), &name) {
            return true;
        }
        k += 1;
    }
    false
}

/// The depth of a path: its number of components.
pub open spec fn depth(p: Seq<char>) -> nat {
    spec_components(p).len()
}

/// The index of the first deepest path among the first `k`.
pub open spec fn first_deepest(v: Seq<Seq<char>>, k: int) -> int
    decreases k,
{
    if k <= 1 {
        0
    } else {
        let m = first_deepest(v, k - 1);
        if depth(v[k - 1]) > depth(v[m]) {
            k - 1
        } else {
            m
        }
    }
}

pub proof fn lemma_first_deepest(v: Seq<Seq<char>>, k: int)
    requires
        1 <= k <= v.len(),
    ensures
        0 <= first_deepest(v, k) < k,
    decreases k,
{
    if k > 1 {
        lemma_first_deepest(v, k - 1);
    }
}

/// The paths, deepest first, paths of equal depth in their order (a stable
/// sort by decreasing depth).
pub open spec fn deepest_first(v: Seq<Seq<char>>) -> Seq<Seq<char>>
    decreases v.len(),
{
    if v.len() == 0 {
        Seq::empty()
    } else {
        let m = first_deepest(v, v.len() as int);
        proof {
            lemma_first_deepest(v, v.len() as int);
        }
        seq![v[m]] + deepest_first(v.remove(m))
    }
}

/// The candidates for removal as empty directories, deepest first: every
/// directory but the root and those excluded by name.
pub open spec fn spec_empty_dir_candidates(ctx: RepoContext, dirs: Seq<Seq<char>>) -> Seq<Seq<char>> {
    deepest_first(dirs).filter(removable_dir(ctx))
}

/// A directory that may go when empty: not the root, not excluded by name.
pub open spec fn removable_dir(ctx: RepoContext) -> spec_fn(Seq<char>) -> bool {
    |d: Seq<char>| spec_components(d) != spec_components(ctx.root@) && !spec_is_ignored_dir(d, strings_view(ctx.exclude_dirs@))
}

fn path_depth(p: &str) -> (r: usize)
    ensures
        r == depth(p@),
{
    components(&chars_of(p)).len()
}

/// The walked directories, deepest first, without the root and the
/// directories excluded by name: the order in which empty ones are removed.
pub fn empty_dir_candidates(ctx: &RepoContext, dirs: &Vec<String>) -> (r: Vec<String>)
    ensures
        strings_view(r@) == spec_empty_dir_candidates(*ctx, strings_view(dirs@)),
{
    let ghost orig = strings_view(dirs@);
    let mut rest: Vec<String> = dirs.clone();
    proof {
        assert(strings_view(rest@) =~= orig);
    }
    let mut sorted: Vec<String> = Vec::new();
    while rest.len() > 0
        invariant
            strings_view(sorted@) + deepest_first(strings_view(rest@)) == deepest_first(orig),
        decreases rest.len(),
    {
        let ghost rv = strings_view(rest@);
        let mut m: usize = 0;
        let mut best = path_depth(rest[0].as_str());
        let mut j: usize = 1;
        while j < rest.len()
            invariant
                1 <= j <= rest.len(),
                rv == strings_view(rest@),
                m < j,
                m as int == first_deepest(rv, j as int),
                best == depth(rv[m as int]),
            decreases rest.len() - j,
        {
            let d = path_depth(rest[j].as_str());
            proof {
                assert(rv[j as int] == rest@[j as int]@);
            }
            if d > best {
                m = j;
                best = d;
            }
            j += 1;
        }
        proof {
            lemma_first_deepest(rv, rv.len() as int);
        }
        let e = rest.remove(m);
        proof {
            assert(strings_view(rest@) =~= rv.remove(m as int));
            assert(deepest_first(rv) == seq![rv[m as int]] + deepest_first(rv.remove(m as int)));
        }
        let ghost before = strings_view(sorted@);
        sorted.push(e);
        proof {
            assert(strings_view(sorted@) =~= before.push(rv[m as int]));
            assert(strings_view(sorted@) + deepest_first(strings_view(rest@)) =~= deepest_first(orig));
        }
    }
    proof {
        assert(deepest_first(strings_view(rest@)) =~= Seq::<Seq<char>>::empty());
        assert(strings_view(sorted@) =~= deepest_first(orig));
    }
    let ghost sv = strings_view(sorted@);
    let ghost pred = removable_dir(*ctx);
    let mut out: Vec<String> = Vec::new();
    let mut i: usize = 0;
    proof {
        assert(sv.take(0).filter(pred) =~= Seq::<Seq<char>>::empty());
    }
    while i < sorted.len()
        invariant
            i <= sorted.len(),
            sv == strings_view(sorted@),
            pred == removable_dir(*ctx),
            strings_view(out@) == sv.take(i as int).filter(pred),
        decreases sorted.len() - i,
    {
        let d = &sorted[i];
        let ghost before = strings_view(out@);
        proof {
            assert(sv.take(i + 1).drop_last() =~= sv.take(i as int));
            assert(sv[i as int] == d@);
            assert(sv.take(i + 1).filter(pred) == if pred(d@) {
                sv.take(i as int).filter(pred).push(d@)
            } else {
                sv.take(i as int).filter(pred)
            }) by {
                assert(sv.take(i + 1) =~= sv.take(i as int).push(d@));
                sv.take(i as int).lemma_filter_push(d@, pred);
            }
        }
        let keep = !same_path(d.as_str(), ctx.root.as_str()) && !is_ignored_dir(d.as_str(), &ctx.exclude_dirs);
        proof {
            assert(keep == pred(d@));
        }
        if keep {
            out.push(d.clone());
            proof {
                assert(strings_view(out@) =~= before.push(d@));
            }
        }
        i += 1;
    }
    proof {
        assert(sv.take(sv.len() as int) =~= sv);
    }
    out
}

/// What one clean-up target reports: the scan, then how many items went.
pub open spec fn target_report(o: Output, what: Seq<char>, preview: Seq<char>, count: nat) -> Seq<(LineKind, Seq<char>)> {
    out_info(o, "Scanning for "@ + what + preview + "..."@) + out_info(o, "Removed "@ + spec_decimal(count) + " "@ + what)
}

/// The total of the selected targets' counts.
pub open spec fn clean_total(args: CleanArgs, temp: nat, cache: nat, empty: nat) -> nat {
    (if args.temp_files {
        temp
    } else {
        0
    }) + (if args.cache {
        cache
    } else {
        0
    }) + (if args.empty_dirs {
        empty
    } else {
        0
    })
}

/// What `clean` writes, given the number of items each selected target
/// removed (or would remove).
pub open spec fn clean_lines(o: Output, args: CleanArgs, dry_run: bool, temp: nat, cache: nat, empty: nat) -> Seq<(LineKind, Seq<char>)> {
    let preview = if dry_run {
        " (dry run)"@
    } else {
        Seq::empty()
    };
    let total = clean_total(args, temp, cache, empty);
    out_heading(o, "Clean"@) + (if args.temp_files {
        target_report(o, "temporary files"@, preview, temp)
    } else {
        Seq::empty()
    }) + (if args.cache {
        target_report(o, "cache files"@, preview, cache)
    } else {
        Seq::empty()
    }) + (if args.empty_dirs {
        target_report(o, "empty directories"@, preview, empty)
    } else {
        Seq::empty()
    }) + no_target_lines(o, args) + finish_lines(o, dry_run, total)
}

fn target_lines(output: &mut Output, what: &str, preview: &str, count: usize)
    ensures
        wrote(*final(output), *old(output), target_report(*old(output), what@, preview@, count as nat)),
{
    let ghost o = *output;
    let ghost s0 = line_views(output.lines@);
    let a = concat(concat(concat("Scanning for ", what).as_str(), preview).as_str(), "...");
    output.info(a.as_str());
    let b = concat(concat(concat("Removed ", decimal(count).as_str()).as_str(), " ").as_str(), what);
    output.info(b.as_str());
    proof {
        assert(line_views(output.lines@) =~= s0 + target_report(o, what@, preview@, count as nat));
    }
}

/// Reports each selected target; returns the total of their counts.
fn report_targets(output: &mut Output, args: &CleanArgs, preview: &str, temp: usize, cache: usize, empty: usize) -> (total: usize)
    requires
        temp + cache + empty <= usize::MAX,
    ensures
        total == clean_total(*args, temp as nat, cache as nat, empty as nat),
        wrote(
            *final(output),
            *old(output),
            (if args.temp_files {
                target_report(*old(output), "temporary files"@, preview@, temp as nat)
            } else {
                Seq::empty()
            }) + (if args.cache {
                target_report(*old(output), "cache files"@, preview@, cache as nat)
            } else {
                Seq::empty()
            }) + (if args.empty_dirs {
                target_report(*old(output), "empty directories"@, preview@, empty as nat)
            } else {
                Seq::empty()
            }),
        ),
{
    let ghost o = *output;
    let ghost s0 = line_views(output.lines@);
    let mut total: usize = 0;
    if args.temp_files {
        target_lines(output, "temporary files", preview, temp);
        total = total + temp;
    }
    let ghost acc1 = if args.temp_files {
        target_report(o, "temporary files"@, preview@, temp as nat)
    } else {
        Seq::empty()
    };
    assert(line_views(output.lines@) =~= s0 + acc1);
    if args.cache {
        target_lines(output, "cache files", preview, cache);
        total = total + cache;
    }
    let ghost acc2 = acc1 + if args.cache {
        target_report(o, "cache files"@, preview@, cache as nat)
    } else {
        Seq::empty()
    };
    assert(line_views(output.lines@) =~= s0 + acc2);
    if args.empty_dirs {
        target_lines(output, "empty directories", preview, empty);
        total = total + empty;
    }
    let ghost acc3 = acc2 + if args.empty_dirs {
        target_report(o, "empty directories"@, preview@, empty as nat)
    } else {
        Seq::empty()
    };
    assert(line_views(output.lines@) =~= s0 + acc3);
    total
}

/// The closing line: a preview note, nothing cleaned, or the total.
pub open spec fn finish_lines(o: Output, dry_run: bool, total: nat) -> Seq<(LineKind, Seq<char>)> {
    if dry_run {
        out_info(o, "Dry run \u{2014} no changes were made."@)
    } else if total == 0 {
        out_success(o, "Nothing to clean"@)
    } else {
        out_success(o, "Cleaned "@ + spec_decimal(total) + " items"@)
    }
}

/// The hint written when no target was selected.
pub open spec fn no_target_lines(o: Output, args: CleanArgs) -> Seq<(LineKind, Seq<char>)> {
    if !args.temp_files && !args.cache && !args.empty_dirs {
        out_info(o, "No cleanup targets specified."@) + out_info(o, "Use --empty-dirs, --temp-files, or --cache to specify targets."@)
    } else {
        Seq::empty()
    }
}

fn write_no_target(output: &mut Output, args: &CleanArgs)
    ensures
        wrote(*final(output), *old(output), no_target_lines(*old(output), *args)),
{
    let ghost s0 = line_views(output.lines@);
    if !args.temp_files && !args.cache && !args.empty_dirs {
        output.info("No cleanup targets specified.");
        output.info("Use --empty-dirs, --temp-files, or --cache to specify targets.");
    }
    assert(line_views(output.lines@) =~= s0 + no_target_lines(*old(output), *args));
}

fn write_finish(output: &mut Output, dry_run: bool, total: usize)
    ensures
        wrote(*final(output), *old(output), finish_lines(*old(output), dry_run, total as nat)),
{
    let ghost s0 = line_views(output.lines@);
    if dry_run {
        output.info("Dry run \u{2014} no changes were made.");
    } else if total == 0 {
        output.success("Nothing to clean");
    } else {
        output.success(concat(concat("Cleaned ", decimal(total).as_str()).as_str(), " items").as_str());
    }
}

/// Reports a clean-up.
pub fn run(output: &mut Output, args: &CleanArgs, dry_run: bool, temp: usize, cache: usize, empty: usize) -> (r: i32)
    requires
        temp + cache + empty <= usize::MAX,
    ensures
        r == 0,
        wrote(*final(output), *old(output), clean_lines(*old(output), *args, dry_run, temp as nat, cache as nat, empty as nat)),
{
    let ghost o = *output;
    let ghost s0 = line_views(output.lines@);
    let ghost pv = if dry_run {
        " (dry run)"@
    } else {
        Seq::<char>::empty()
    };
    output.heading("Clean");
    let preview = if dry_run {
        string_from(&chars_of(" (dry run)"))
    } else {
        String::new()
    };
    assert(preview@ == pv);
    let ghost s1 = line_views(output.lines@);
    let total = report_targets(output, args, preview.as_str(), temp, cache, empty);
    let ghost s2 = line_views(output.lines@);
    write_no_target(output, args);
    let ghost s3 = line_views(output.lines@);
    write_finish(output, dry_run, total);
    assert(line_views(output.lines@) =~= s0 + clean_lines(o, *args, dry_run, temp as nat, cache as nat, empty as nat));
    0
}

} // verus!
