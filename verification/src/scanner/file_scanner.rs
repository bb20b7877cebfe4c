//! The inventory of a repository: files per extension, directories, and
//! source files.
use vstd::prelude::*;
use crate::filesystem::walker::FileEntry;
use crate::paths::{extension, spec_extension};
use crate::text::{chars_of, seq_eq, spec_lowercase, string_from, to_lowercase};

verus! {

/// Counts of a repository scan.  `by_extension` holds each lowercased file
/// extension once, with the number of files that have it, in the order in
/// which the extensions were first met.
pub struct FileStats {
    pub by_extension: Vec<(String, usize)>,
    pub total_files: usize,
    pub total_dirs: usize,
    pub source_files: usize,
}

/// The lowercased extension of a path, if it has one.
pub open spec fn ext_key(path: Seq<char>) -> Option<Seq<char>> {
    match spec_extension(path) {
        Some(e) => Some(spec_lowercase(e)),
        None => None,
    }
}

/// Number of the first `k` paths whose lowercased extension is `key`.
pub open spec fn count_key(paths: Seq<Seq<char>>, key: Seq<char>, k: int) -> nat
    decreases k,
{
    if k <= 0 || k > paths.len() {
        0
    } else {
        count_key(paths, key, k - 1) + if ext_key(paths[k - 1]) == Some(key) {
            1nat
        } else {
            0nat
        }
    }
}

/// The extensions that count as source files (compared as written).
pub open spec fn source_file_exts() -> Seq<Seq<char>> {
    seq!["ts"@, "tsx"@, "js"@, "jsx"@, "php"@, "json"@, "css"@, "scss"@, "vue"@, "svelte"@]
}

/// Law: a path is a source file exactly when its extension, as written,
/// is one of `ts`, `tsx`, `js`, `jsx`, `php`, `json`, `css`, `scss`, `vue`,
/// `svelte`.
pub proof fn law_source_files(path: Seq<char>)
    ensures
        is_source(path) <==> (spec_extension(path) matches Some(e) && set![
            "ts"@,
            "tsx"@,
            "js"@,
            "jsx"@,
            "php"@,
            "json"@,
            "css"@,
            "scss"@,
            "vue"@,
            "svelte"@,
        ].contains(e)),
{
    let x = source_file_exts();
    assert(x[0] == "ts"@ && x[1] == "tsx"@ && x[2] == "js"@ && x[3] == "jsx"@ && x[4] == "php"@);
    assert(x[5] == "json"@ && x[6] == "css"@ && x[7] == "scss"@ && x[8] == "vue"@ && x[9] == "svelte"@);
    match spec_extension(path) {
        Some(e) => {
            if x.contains(e) {
                let k = choose|k: int| 0 <= k < x.len() && x[k] == e;
                assert(k == 0 || k == 1 || k == 2 || k == 3 || k == 4 || k == 5 || k == 6 || k == 7 || k == 8 || k == 9);
            }
            if e == "ts"@ { assert(x[0] == e); }
            if e == "tsx"@ { assert(x[1] == e); }
            if e == "js"@ { assert(x[2] == e); }
            if e == "jsx"@ { assert(x[3] == e); }
            if e == "php"@ { assert(x[4] == e); }
            if e == "json"@ { assert(x[5] == e); }
            if e == "css"@ { assert(x[6] == e); }
            if e == "scss"@ { assert(x[7] == e); }
            if e == "vue"@ { assert(x[8] == e); }
            if e == "svelte"@ { assert(x[9] == e); }
        },
        None => {},
    }
}

/// The path's extension, as written, is a source extension.
pub open spec fn is_source(path: Seq<char>) -> bool {
    match spec_extension(path) {
        Some(e) => source_file_exts().contains(e),
        None => false,
    }
}

/// Number of source files among the first `k` paths.
pub open spec fn count_source(paths: Seq<Seq<char>>, k: int) -> nat
    decreases k,
{
    if k <= 0 || k > paths.len() {
        0
    } else {
        count_source(paths, k - 1) + if is_source(paths[k - 1]) {
            1nat
        } else {
            0nat
        }
    }
}

/// The paths of file entries.
pub open spec fn entry_paths(files: Seq<FileEntry>) -> Seq<Seq<char>> {
    files.map_values(|f: FileEntry| f.path@)
}

proof fn lemma_count_key_bound(paths: Seq<Seq<char>>, key: Seq<char>, k: int)
    requires
        0 <= k <= paths.len(),
    ensures
        count_key(paths, key, k) <= k,
    decreases k,
{
    if k > 0 {
        lemma_count_key_bound(paths, key, k - 1);
    }
}

proof fn lemma_count_source_bound(paths: Seq<Seq<char>>, k: int)
    requires
        0 <= k <= paths.len(),
    ensures
        count_source(paths, k) <= k,
    decreases k,
{
    if k > 0 {
        lemma_count_source_bound(paths, k - 1);
    }
}

fn source_ext_list() -> (r: Vec<Vec<char>>)
    ensures
        r@.map_values(|v: Vec<char>| v@) == source_file_exts(),
{
    let mut r: Vec<Vec<char>> = Vec::new();
    r.push(chars_of("ts"));
    r.push(chars_of("tsx"));
    r.push(chars_of("js"));
    r.push(chars_of("jsx"));
    r.push(chars_of("php"));
    r.push(chars_of("json"));
    r.push(chars_of("css"));
    r.push(chars_of("scss"));
    r.push(chars_of("vue"));
    r.push(chars_of("svelte"));
    proof {
        assert(r@.map_values(|v: Vec<char>| v@) =~= source_file_exts());
    }
    r
}

/// Whether `e` is one of the source extensions.
fn is_source_ext(e: &Vec<char>, list: &Vec<Vec<char>>) -> (r: bool)
    requires
        list@.map_values(|v: Vec<char>| v@) == source_file_exts(),
    ensures
        r == source_file_exts().contains(e@),
{
    let ghost lv = list@.map_values(|v: Vec<char>| v@);
    let mut k: usize = 0;
    while k < list.len()
        invariant
            k <= list.len(),
            lv == list@.map_values(|v: Vec<char>| v@),
            lv == source_file_exts(),
            forall|m: int| 0 <= m < k ==> lv[m] != e@,
        decreases list.len() - k,
    {
        proof {
            assert(lv[k as int] == list@[k as int]@);
        }
        if seq_eq(&list[k], e) {
            proof {
                assert(lv[k as int] == e@);
            }
            return true;
        }
        k += 1;
    }
    proof {
        if source_file_exts().contains(e@) {
            let m = choose|m: int| 0 <= m < lv.len() && lv[m] == e@;
            assert(lv[m] == e@);
        }
    }
    false
}

/// `key` is one of the counted extensions.
pub open spec fn has_key(by: Seq<(String, usize)>, key: Seq<char>) -> bool {
    exists|j: int| 0 <= j < by.len() && #[trigger] by[j].0@ == key
}

/// The index of `key` among the extensions counted so far.
fn find_key(by: &Vec<(String, usize)>, key: &Vec<char>) -> (r: Option<usize>)
    ensures
        r matches Some(j) ==> j < by@.len() && by@[j as int].0@ == key@,
        r is None ==> forall|m: int| 0 <= m < by@.len() ==> by@[m].0@ != key@,
{
    let mut j: usize = 0;
    while j < by.len()
        invariant
            j <= by.len(),
            forall|m: int| 0 <= m < j ==> by@[m].0@ != key@,
        decreases by.len() - j,
    {
        if seq_eq(&chars_of(by[j].0.as_str()), key) {
            return Some(j);
        }
        j += 1;
    }
    None
}

/// The inventory of the walked files and directories: the number of files
/// per lowercased extension, the totals, and the number of source files.
pub fn scan_repository(files: &Vec<FileEntry>, dirs: &Vec<String>) -> (r: FileStats)
    ensures
        r.total_files == files@.len(),
        r.total_dirs == dirs@.len(),
        r.source_files == count_source(entry_paths(files@), files@.len() as int),
        forall|j: int, m: int|
            0 <= j < m < r.by_extension@.len() ==> r.by_extension@[j].0@ != r.by_extension@[m].0@,
        forall|j: int|
            0 <= j < r.by_extension@.len() ==> #[trigger] r.by_extension@[j].1 == count_key(
                entry_paths(files@),
                r.by_extension@[j].0@,
                files@.len() as int,
            ),
        forall|key: Seq<char>|
            #[trigger] count_key(entry_paths(files@), key, files@.len() as int) > 0 ==> has_key(r.by_extension@, key),
{
    let ghost paths = entry_paths(files@);
    let list = source_ext_list();
    let mut by: Vec<(String, usize)> = Vec::new();
    let mut source: usize = 0;
    let mut i: usize = 0;
    while i < files.len()
        invariant
            i <= files.len(),
            paths == entry_paths(files@),
            list@.map_values(|v: Vec<char>| v@) == source_file_exts(),
            source == count_source(paths, i as int),
            forall|j: int, m: int| 0 <= j < m < by@.len() ==> by@[j].0@ != by@[m].0@,
            forall|j: int| 0 <= j < by@.len() ==> #[trigger] by@[j].1 == count_key(paths, by@[j].0@, i as int),
            forall|key: Seq<char>|
                count_key(paths, key, i as int) > 0 ==> exists|j: int| 0 <= j < by@.len() && #[trigger] by@[j].0@ == key,
        decreases files.len() - i,
    {
        let p = chars_of(files[i].path.as_str());
        proof {
            assert(paths[i as int] == p@);
            lemma_count_source_bound(paths, i as int);
        }
        let ext = extension(&p);
        let ghost key_i = ext_key(p@);
        let ghost ni: int = i + 1;
        let ghost ci: int = i as int;
        match ext {
            Some(e) => {
                let lower = to_lowercase(string_from(&e).as_str());
                let lc = chars_of(lower.as_str());
                proof {
                    assert(key_i == Some(lc@));
                }
                let pos = find_key(&by, &lc);
                let ghost old_by = by@;
                if let Some(j) = pos {
                    proof {
                        lemma_count_key_bound(paths, lc@, i as int);
                        assert(by@[j as int].1 == count_key(paths, by@[j as int].0@, i as int));
                    }
                    let (name, n) = by.remove(j);
                    by.insert(j, (name, n + 1));
                    proof {
                        assert forall|m: int| 0 <= m < by@.len() implies #[trigger] by@[m].1 == count_key(
                            paths,
                            by@[m].0@,
                            ni,
                        ) by {
                            if m != j {
                                assert(by@[m] == old_by[m]);
                            }
                        }
                        assert forall|key: Seq<char>| #[trigger] count_key(paths, key, ni) > 0 implies exists|m: int|
                            0 <= m < by@.len() && #[trigger] by@[m].0@ == key by {
                            if count_key(paths, key, i as int) > 0 {
                                let m = choose|m: int| 0 <= m < old_by.len() && #[trigger] old_by[m].0@ == key;
                                assert(by@[m].0@ == key);
                            } else {
                                assert(by@[j as int].0@ == key);
                            }
                        }
                    }
                } else {
                    proof {
                        assert(count_key(paths, lc@, ci) == 0) by {
                            if count_key(paths, lc@, ci) > 0 {
                                let m = choose|m: int| 0 <= m < old_by.len() && #[trigger] old_by[m].0@ == lc@;
                                assert(old_by[m].0@ != lc@);
                            }
                        }
                    }
                    by.push((lower, 1));
                    proof {
                        assert forall|m: int| 0 <= m < by@.len() implies #[trigger] by@[m].1 == count_key(
                            paths,
                            by@[m].0@,
                            ni,
                        ) by {
                            if m < old_by.len() {
                                assert(by@[m] == old_by[m]);
                            }
                        }
                        assert forall|key: Seq<char>| #[trigger] count_key(paths, key, ni) > 0 implies exists|m: int|
                            0 <= m < by@.len() && #[trigger] by@[m].0@ == key by {
                            if count_key(paths, key, i as int) > 0 {
                                let m = choose|m: int| 0 <= m < old_by.len() && #[trigger] old_by[m].0@ == key;
                                assert(by@[m].0@ == key);
                            } else {
                                assert(by@[old_by.len() as int].0@ == key);
                            }
                        }
                    }
                }
                if is_source_ext(&e, &list) {
                    source = source + 1;
                }
            },
            None => {
                proof {
                    assert forall|key: Seq<char>| #[trigger] count_key(paths, key, ni) == count_key(paths, key, ci) by {
                    }
                }
            },
        }
        i += 1;
    }
    proof {
        assert forall|key: Seq<char>|
            #[trigger] count_key(entry_paths(files@), key, files@.len() as int) > 0 implies has_key(by@, key) by {
            assert(count_key(paths, key, i as int) > 0);
        }
    }
    FileStats { by_extension: by, total_files: files.len(), total_dirs: dirs.len(), source_files: source }
}

} // verus!
