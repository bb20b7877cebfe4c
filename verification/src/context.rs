//! The repository a command works on.
use vstd::prelude::*;
use crate::config::{Config, strings_view};
use crate::paths::{
    join_path, normalized, path_starts_with, spec_join, spec_normalized, spec_path_starts_with,
    spec_strip_prefix, strip_path_prefix,
};
use crate::text::{chars_of, seq_eq, string_from};

verus! {

/// A repository: its absolute root, the effective configuration, whether it
/// is a git work tree, and the paths (relative to the root, written with
/// single `/` separators) of the files and directories found under the root
/// when the context was made.
pub struct RepoContext {
    pub root: String,
    pub config: Config,
    pub is_git: bool,
    pub extensions: Vec<String>,
    pub exclude_dirs: Vec<String>,
    pub include_paths: Vec<String>,
    pub entries: Vec<String>,
}

/// `"tsconfig.json"`
pub open spec fn tsconfig_json() -> Seq<char> {
    seq!['t', 's', 'c', 'o', 'n', 'f', 'i', 'g', '.', 'j', 's', 'o', 'n']
}

/// `"tsconfig.app.json"`
pub open spec fn tsconfig_app_json() -> Seq<char> {
    seq!['t', 's', 'c', 'o', 'n', 'f', 'i', 'g', '.', 'a', 'p', 'p', '.', 'j', 's', 'o', 'n']
}

impl RepoContext {
    /// The path `q`, relative to the root, exists: it is the root itself or
    /// one of the recorded entries once its separators and `.` segments are
    /// normalized; an absolute `q` is not looked up.
    pub open spec fn exists_rel(self, q: Seq<char>) -> bool {
        match spec_normalized(q) {
            None => false,
            Some(n) => n.len() == 0 || strings_view(self.entries@).contains(n),
        }
    }

    /// The `tsconfig` of the repository: the configured one, else
    /// `tsconfig.json` or `tsconfig.app.json` when present.
    pub open spec fn spec_tsconfig_path(self) -> Option<Seq<char>> {
        match self.config.typescript.tsconfig {
            Some(p) => Some(spec_join(self.root@, p@)),
            None => if self.exists_rel(tsconfig_json()) {
                Some(spec_join(self.root@, tsconfig_json()))
            } else if self.exists_rel(tsconfig_app_json()) {
                Some(spec_join(self.root@, tsconfig_app_json()))
            } else {
                None
            },
        }
    }

    /// A context for `root` with `config`; the scanned extensions, the
    /// excluded directories and the included paths come from the
    /// configuration.
    pub fn new(root: String, config: Config, is_git: bool, entries: Vec<String>) -> (r: Self)
        ensures
            r.root@ == root@,
            r.is_git == is_git,
            r.entries@ == entries@,
            strings_view(r.extensions@) == strings_view(config.scan.extensions@),
            strings_view(r.exclude_dirs@) == strings_view(config.scan.exclude@),
            strings_view(r.include_paths@) == strings_view(config.scan.include_paths@),
            r.config == config,
    {
        let extensions = config.scan.extensions.clone();
        let exclude_dirs = config.scan.exclude.clone();
        let include_paths = config.scan.include_paths.clone();
        proof {
            assert(strings_view(extensions@) =~= strings_view(config.scan.extensions@));
            assert(strings_view(exclude_dirs@) =~= strings_view(config.scan.exclude@));
            assert(strings_view(include_paths@) =~= strings_view(config.scan.include_paths@));
        }
        RepoContext { root, config, is_git, extensions, exclude_dirs, include_paths, entries }
    }

    /// `path` relative to the root, when it lies under the root.
    pub fn relative_path(&self, path: &str) -> (r: Option<String>)
        ensures
            r matches Some(s) ==> spec_strip_prefix(path@, self.root@) == Some(s@),
            r is None ==> spec_strip_prefix(path@, self.root@) is None,
    {
        let p = chars_of(path);
        let root = chars_of(self.root.as_str());
        match strip_path_prefix(&p, &root) {
            Some(v) => Some(string_from(&v)),
            None => None,
        }
    }

    /// `path` lies under the root, component by component.
    pub fn is_in_root(&self, path: &str) -> (r: bool)
        ensures
            r == spec_path_starts_with(path@, self.root@),
    {
        let p = chars_of(path);
        let root = chars_of(self.root.as_str());
        path_starts_with(&p, &root)
    }

    /// Whether the path `q`, relative to the root, exists.
    pub fn entry_exists(&self, q: &Vec<char>) -> (r: bool)
        ensures
            r == self.exists_rel(q@),
    {
        let n = match normalized(q) {
            None => {
                return false;
            },
            Some(n) => n,
        };
        if n.len() == 0 {
            return true;
        }
        let mut i: usize = 0;
        while i < self.entries.len()
            invariant
                0 <= i <= self.entries.len(),
                spec_normalized(q@) == Some(n@),
                forall|k: int| 0 <= k < i ==> self.entries@[k]@ != n@,
            decreases self.entries.len() - i,
        {
            let e = chars_of(self.entries[i].as_str());
            if seq_eq(&e, &n) {
                proof {
                    assert(strings_view(self.entries@)[i as int] == n@);
                }
                return true;
            }
            i += 1;
        }
        proof {
            if strings_view(self.entries@).contains(n@) {
                let k = choose|k: int| 0 <= k < strings_view(self.entries@).len() && strings_view(self.entries@)[k] == n@;
                assert(self.entries@[k]@ == n@);
            }
        }
        false
    }

    /// The `tsconfig` path of the repository, absolute.
    pub fn tsconfig_path(&self) -> (r: Option<String>)
        ensures
            r matches Some(s) ==> self.spec_tsconfig_path() == Some(s@),
            r is None ==> self.spec_tsconfig_path() is None,
    {
        let root = chars_of(self.root.as_str());
        match &self.config.typescript.tsconfig {
            Some(p) => {
                let j = join_path(&root, &chars_of(p.as_str()));
                return Some(string_from(&j));
            },
            None => {},
        }
        let a = vec!['t', 's', 'c', 'o', 'n', 'f', 'i', 'g', '.', 'j', 's', 'o', 'n'];
        let b = vec!['t', 's', 'c', 'o', 'n', 'f', 'i', 'g', '.', 'a', 'p', 'p', '.', 'j', 's', 'o', 'n'];
        proof {
            assert(a@ =~= tsconfig_json());
            assert(b@ =~= tsconfig_app_json());
        }
        if self.entry_exists(&a) {
            return Some(string_from(&join_path(&root, &a)));
        }
        if self.entry_exists(&b) {
            return Some(string_from(&join_path(&root, &b)));
        }
        None
    }
}

} // verus!
