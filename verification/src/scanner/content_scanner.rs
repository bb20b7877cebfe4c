//! The imports and re-exports of every file of a repository.
use vstd::prelude::*;
use crate::filesystem::walker::FileEntry;
use crate::languages::{
    detect_language, ext_or_empty, import_views, spec_analyzer_exports, spec_analyzer_for,
    spec_analyzer_imports, ImportInfo, ImportView, LanguageAnalyzer,
};
use crate::scanner::{copy_entry, texts_fit, LoadedFile};
use crate::text::spec_lowercase;

verus! {

/// The imports and re-exports of one file.
pub struct FileImports {
    pub file: FileEntry,
    pub imports: Vec<ImportInfo>,
    pub exports: Vec<ImportInfo>,
}

/// The view of a [`FileImports`]: (path, relative path, imports, re-exports).
pub open spec fn file_imports_view(f: FileImports) -> (Seq<char>, Seq<char>, Seq<ImportView>, Seq<ImportView>) {
    (f.file.path@, f.file.relative@, import_views(f.imports@), import_views(f.exports@))
}

/// The views of a sequence of [`FileImports`].
pub open spec fn file_imports_views(v: Seq<FileImports>) -> Seq<(Seq<char>, Seq<char>, Seq<ImportView>, Seq<ImportView>)> {
    v.map_values(|f: FileImports| file_imports_view(f))
}

/// The imports of a file found by the analyzer of its extension.
pub open spec fn file_imports_of(path: Seq<char>, text: Seq<char>) -> Seq<ImportView> {
    spec_analyzer_imports(spec_analyzer_for(spec_lowercase(ext_or_empty(path))), text)
}

/// The re-exports of a file found by the analyzer of its extension.
pub open spec fn file_exports_of(path: Seq<char>, text: Seq<char>) -> Seq<ImportView> {
    spec_analyzer_exports(spec_analyzer_for(spec_lowercase(ext_or_empty(path))), text)
}

/// The scan of the first `k` files: each readable file with at least one
/// import or re-export, in order.
pub open spec fn imports_scan(files: Seq<LoadedFile>, k: int) -> Seq<(Seq<char>, Seq<char>, Seq<ImportView>, Seq<ImportView>)>
    decreases k,
{
    if k <= 0 || k > files.len() {
        Seq::empty()
    } else {
        let f = files[k - 1];
        imports_scan(files, k - 1) + match f.text {
            Some(t) => {
                let imps = file_imports_of(f.entry.path@, t@);
                let exps = file_exports_of(f.entry.path@, t@);
                if imps.len() == 0 && exps.len() == 0 {
                    Seq::empty()
                } else {
                    seq![(f.entry.path@, f.entry.relative@, imps, exps)]
                }
            },
            None => Seq::empty(),
        }
    }
}

/// The imports and re-exports of the loaded files, skipping files that have
/// neither.
pub fn scan_imports(files: &Vec<LoadedFile>) -> (r: Vec<FileImports>)
    requires
        texts_fit(files@),
    ensures
        file_imports_views(r@) == imports_scan(files@, files@.len() as int),
{
    let mut out: Vec<FileImports> = Vec::new();
    let mut i: usize = 0;
    proof {
        assert(file_imports_views(out@) =~= imports_scan(files@, 0));
    }
    while i < files.len()
        invariant
            i <= files.len(),
            texts_fit(files@),
            file_imports_views(out@) == imports_scan(files@, i as int),
        decreases files.len() - i,
    {
        let f = &files[i];
        let ghost before = file_imports_views(out@);
        proof {
            assert(files@[i as int] == *f);
        }
        match &f.text {
            Some(t) => {
                proof {
                    assert(t@.len() < usize::MAX);
                }
                let lang = detect_language(f.entry.path.as_str());
                let imports = lang.analyze_imports(t.as_str(), f.entry.path.as_str());
                let exports = lang.analyze_exports(t.as_str(), f.entry.path.as_str());
                if imports.len() == 0 && exports.len() == 0 {
                    proof {
                        assert(file_imports_views(out@) =~= before + Seq::<(Seq<char>, Seq<char>, Seq<ImportView>, Seq<ImportView>)>::empty());
                    }
                } else {
                    let fi = FileImports { file: copy_entry(&f.entry), imports, exports };
                    let ghost item = file_imports_view(fi);
                    out.push(fi);
                    proof {
                        assert(file_imports_views(out@) =~= before.push(item));
                    }
                }
            },
            None => {
                proof {
                    assert(file_imports_views(out@) =~= before + Seq::<(Seq<char>, Seq<char>, Seq<ImportView>, Seq<ImportView>)>::empty());
                }
            },
        }
        i += 1;
    }
    out
}

} // verus!
