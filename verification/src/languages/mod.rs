//! Language-aware extraction of imports and path references from source text.
use vstd::prelude::*;
use crate::config::strings_view;
use crate::paths::{extension, spec_extension};
use crate::text::{chars_of, spec_lowercase, string_from, to_lowercase};

pub mod javascript;
pub mod json;
pub mod php;

verus! {

/// One import found in a source file.
#[derive(Debug, Clone)]
pub struct ImportInfo {
    pub import_path: String,
    pub line_number: usize,
    pub line_content: String,
    pub import_type: ImportType,
}

/// How a module is imported.
#[derive(Debug, Clone, Copy, PartialEq, Eq, Structural)]
pub enum ImportType {
    Static,
    Dynamic,
    Require,
    ReExport,
}

/// A path-like reference found in a source file.
#[derive(Debug, Clone)]
pub struct ReferenceInfo {
    pub text: String,
    pub line_number: usize,
    pub line_content: String,
    pub ref_type: ReferenceType,
}

/// The syntactic form of a reference.
#[derive(Debug, Clone, Copy, PartialEq, Eq, Structural)]
pub enum ReferenceType {
    Import,
    Export,
    Require,
    DynamicImport,
    PathString,
    UrlPath,
}

/// The mathematical value of an [`ImportInfo`].
pub struct ImportView {
    pub path: Seq<char>,
    pub line: int,
    pub content: Seq<char>,
    pub kind: ImportType,
}

/// The mathematical value of a [`ReferenceInfo`].
pub struct ReferenceView {
    pub text: Seq<char>,
    pub line: int,
    pub content: Seq<char>,
    pub kind: ReferenceType,
}

impl View for ImportInfo {
    type V = ImportView;

    open spec fn view(&self) -> ImportView {
        ImportView {
            path: self.import_path@,
            line: self.line_number as int,
            content: self.line_content@,
            kind: self.import_type,
        }
    }
}

impl View for ReferenceInfo {
    type V = ReferenceView;

    open spec fn view(&self) -> ReferenceView {
        ReferenceView {
            text: self.text@,
            line: self.line_number as int,
            content: self.line_content@,
            kind: self.ref_type,
        }
    }
}

/// The views of a vector of imports.
pub open spec fn import_views(v: Seq<ImportInfo>) -> Seq<ImportView> {
    v.map_values(|i: ImportInfo| i@)
}

/// The views of a vector of references.
pub open spec fn reference_views(v: Seq<ReferenceInfo>) -> Seq<ReferenceView> {
    v.map_values(|r: ReferenceInfo| r@)
}

/// The element of an optional value, as a sequence of zero or one elements.
pub open spec fn opt_seq<T>(o: Option<T>) -> Seq<T> {
    match o {
        Some(x) => seq![x],
        None => Seq::empty(),
    }
}

/// Which analyzer a file gets, by its (lowercased) extension.
#[derive(Debug)]
pub enum Analyzer {
    TypeScript,
    JavaScript,
    Php,
    /// A JSON file, with its document when the source parsed as JSON.
    Json(Option<json::JsonValue>),
    Generic,
}

/// The analyzer for a lowercased extension.
pub open spec fn spec_analyzer_for(ext: Seq<char>) -> Analyzer {
    if ext == seq!['t', 's'] || ext == seq!['t', 's', 'x'] {
        Analyzer::TypeScript
    } else if ext == seq!['j', 's'] || ext == seq!['j', 's', 'x'] || ext == seq!['m', 'j', 's']
        || ext == seq!['c', 'j', 's'] {
        Analyzer::JavaScript
    } else if ext == seq!['p', 'h', 'p'] {
        Analyzer::Php
    } else if ext == seq!['j', 's', 'o', 'n'] {
        Analyzer::Json(None)
    } else {
        Analyzer::Generic
    }
}

/// Law: the analyzer chosen for an extension is the one that lists it:
/// TypeScript for `ts` and `tsx`, JavaScript for `js`, `jsx`, `mjs` and
/// `cjs`, PHP for `php`, JSON for `json`; every other extension gets the
/// generic analyzer.  Whatever analyzer is chosen lists the extension.
pub proof fn law_analyzer_for_extension(e: Seq<char>)
    ensures
        (e == "ts"@ || e == "tsx"@) <==> spec_analyzer_for(e) == Analyzer::TypeScript,
        (e == "js"@ || e == "jsx"@ || e == "mjs"@ || e == "cjs"@) <==> spec_analyzer_for(e) == Analyzer::JavaScript,
        e == "php"@ <==> spec_analyzer_for(e) == Analyzer::Php,
        e == "json"@ <==> spec_analyzer_for(e) is Json,
        spec_analyzer_for(e) !is Generic ==> spec_analyzer_exts(spec_analyzer_for(e)).contains(e),
{
    reveal_strlit("ts");
    reveal_strlit("tsx");
    reveal_strlit("js");
    reveal_strlit("jsx");
    reveal_strlit("mjs");
    reveal_strlit("cjs");
    reveal_strlit("php");
    reveal_strlit("json");
    assert("ts"@ =~= seq!['t', 's']);
    assert("tsx"@ =~= seq!['t', 's', 'x']);
    assert("js"@ =~= seq!['j', 's']);
    assert("jsx"@ =~= seq!['j', 's', 'x']);
    assert("mjs"@ =~= seq!['m', 'j', 's']);
    assert("cjs"@ =~= seq!['c', 'j', 's']);
    assert("php"@ =~= seq!['p', 'h', 'p']);
    assert("json"@ =~= seq!['j', 's', 'o', 'n']);
    let a = spec_analyzer_for(e);
    if a !is Generic {
        let xs = spec_analyzer_exts(a);
        if a is TypeScript {
            assert(xs[0] == "ts"@ && xs[1] == "tsx"@);
            if e == "ts"@ { assert(xs[0] == e); } else { assert(xs[1] == e); }
        } else if a is JavaScript {
            assert(xs[0] == "js"@ && xs[1] == "jsx"@ && xs[2] == "mjs"@ && xs[3] == "cjs"@);
            if e == "js"@ { assert(xs[0] == e); } else if e == "jsx"@ { assert(xs[1] == e); } else if e == "mjs"@ { assert(xs[2] == e); } else { assert(xs[3] == e); }
        } else if a is Php {
            assert(xs[0] == e);
        } else {
            assert(xs[0] == e);
        }
    }
}

/// The extension of a path, or the empty text when it has none.
pub open spec fn ext_or_empty(path: Seq<char>) -> Seq<char> {
    match spec_extension(path) {
        Some(e) => e,
        None => Seq::empty(),
    }
}

/// The analyzer for the file at `path`, chosen by its lowercased extension.
/// A JSON analyzer starts without a document; the caller that parses the
/// file supplies it.
pub fn detect_language(path: &str) -> (r: Analyzer)
    ensures
        r == spec_analyzer_for(spec_lowercase(ext_or_empty(path@))),
        crate::text::all_ascii(ext_or_empty(path@)) ==> r == spec_analyzer_for(
            ext_or_empty(path@).map_values(|c: char| crate::text::ascii_lower_char(c)),
        ),
{
    let p = chars_of(path);
    let ext = match extension(&p) {
        Some(e) => string_from(&e),
        None => String::new(),
    };
    proof {
        assert(ext@ == ext_or_empty(path@));
    }
    let lower = to_lowercase(ext.as_str());
    let l = chars_of(lower.as_str());
    analyzer_for(&l)
}

/// The analyzer for a lowercased extension.
pub fn analyzer_for(ext: &Vec<char>) -> (r: Analyzer)
    ensures
        r == spec_analyzer_for(ext@),
{
    let n = ext.len();
    if (n == 2 && ext[0] == 't' && ext[1] == 's') || (n == 3 && ext[0] == 't' && ext[1] == 's'
        && ext[2] == 'x') {
        proof {
            if n == 2 {
                assert(ext@ =~= seq!['t', 's']);
            } else {
                assert(ext@ =~= seq!['t', 's', 'x']);
            }
        }
        return Analyzer::TypeScript;
    }
    proof {
        assert(ext@ != seq!['t', 's'] && ext@ != seq!['t', 's', 'x']) by {
            if ext@ == seq!['t', 's'] {
                assert(ext@[0] == 't' && ext@[1] == 's');
            }
            if ext@ == seq!['t', 's', 'x'] {
                assert(ext@[0] == 't' && ext@[1] == 's' && ext@[2] == 'x');
            }
        }
    }
    if (n == 2 && ext[0] == 'j' && ext[1] == 's') || (n == 3 && ext[0] == 'j' && ext[1] == 's'
        && ext[2] == 'x') || (n == 3 && ext[0] == 'm' && ext[1] == 'j' && ext[2] == 's') || (n
        == 3 && ext[0] == 'c' && ext[1] == 'j' && ext[2] == 's') {
        proof {
            if n == 2 {
                assert(ext@ =~= seq!['j', 's']);
            } else if ext[0] == 'j' {
                assert(ext@ =~= seq!['j', 's', 'x']);
            } else if ext[0] == 'm' {
                assert(ext@ =~= seq!['m', 'j', 's']);
            } else {
                assert(ext@ =~= seq!['c', 'j', 's']);
            }
        }
        return Analyzer::JavaScript;
    }
    proof {
        if ext@ == seq!['j', 's'] {
            assert(ext@[0] == 'j' && ext@[1] == 's');
        }
        if ext@ == seq!['j', 's', 'x'] {
            assert(ext@[0] == 'j' && ext@[1] == 's' && ext@[2] == 'x');
        }
        if ext@ == seq!['m', 'j', 's'] {
            assert(ext@[0] == 'm' && ext@[1] == 'j' && ext@[2] == 's');
        }
        if ext@ == seq!['c', 'j', 's'] {
            assert(ext@[0] == 'c' && ext@[1] == 'j' && ext@[2] == 's');
        }
    }
    if n == 3 && ext[0] == 'p' && ext[1] == 'h' && ext[2] == 'p' {
        proof {
            assert(ext@ =~= seq!['p', 'h', 'p']);
        }
        return Analyzer::Php;
    }
    proof {
        if ext@ == seq!['p', 'h', 'p'] {
            assert(ext@[0] == 'p' && ext@[1] == 'h' && ext@[2] == 'p');
        }
    }
    if n == 4 && ext[0] == 'j' && ext[1] == 's' && ext[2] == 'o' && ext[3] == 'n' {
        proof {
            assert(ext@ =~= seq!['j', 's', 'o', 'n']);
        }
        return Analyzer::Json(None);
    }
    proof {
        if ext@ == seq!['j', 's', 'o', 'n'] {
            assert(ext@[0] == 'j' && ext@[1] == 's' && ext@[2] == 'o' && ext@[3] == 'n');
        }
    }
    Analyzer::Generic
}

/// What an analyzer extracts from a source file.
pub trait LanguageAnalyzer {
    /// The extensions of the files an analyzer reads.
    fn extensions(&self) -> Vec<String>;

    /// The imports of `source` (the file at `path`).
    fn analyze_imports(&self, source: &str, path: &str) -> Vec<ImportInfo>
        requires
            source@.len() < usize::MAX,
    ;

    /// The re-exports of `source` (the file at `path`).
    fn analyze_exports(&self, source: &str, path: &str) -> Vec<ImportInfo>
        requires
            source@.len() < usize::MAX,
    ;

    /// The path references of `source`.
    fn analyze_references(&self, source: &str) -> Vec<ReferenceInfo>
        requires
            source@.len() < usize::MAX,
    ;
}

/// The imports an analyzer finds in a source.
pub open spec fn spec_analyzer_imports(a: Analyzer, source: Seq<char>) -> Seq<ImportView> {
    match a {
        Analyzer::TypeScript => javascript::spec_js_imports(source, true),
        Analyzer::JavaScript => javascript::spec_js_imports(source, false),
        Analyzer::Php => php::spec_php_imports(source),
        _ => Seq::empty(),
    }
}

/// The re-exports an analyzer finds in a source.
pub open spec fn spec_analyzer_exports(a: Analyzer, source: Seq<char>) -> Seq<ImportView> {
    match a {
        Analyzer::TypeScript => javascript::spec_js_exports(source, true),
        Analyzer::JavaScript => javascript::spec_js_exports(source, false),
        _ => Seq::empty(),
    }
}

/// The references an analyzer finds in a source.
pub open spec fn spec_analyzer_refs(a: Analyzer, source: Seq<char>) -> Seq<ReferenceView> {
    match a {
        Analyzer::TypeScript => javascript::spec_js_refs(source),
        Analyzer::JavaScript => javascript::spec_js_refs(source),
        Analyzer::Php => php::spec_php_refs(source),
        Analyzer::Json(Some(v)) => json::json_refs(v, Seq::empty(), source),
        _ => Seq::empty(),
    }
}

/// The extensions of the files an analyzer reads.
pub open spec fn spec_analyzer_exts(a: Analyzer) -> Seq<Seq<char>> {
    match a {
        Analyzer::TypeScript => seq!["ts"@, "tsx"@],
        Analyzer::JavaScript => seq!["js"@, "jsx"@, "mjs"@, "cjs"@],
        Analyzer::Php => seq!["php"@],
        Analyzer::Json(_) => seq!["json"@],
        Analyzer::Generic => Seq::empty(),
    }
}

fn string_list(items: Vec<&str>) -> (r: Vec<String>)
    ensures
        strings_view(r@) == items@.map_values(|t: &str| t@),
{
    let mut out: Vec<String> = Vec::new();
    let mut i: usize = 0;
    while i < items.len()
        invariant
            i <= items.len(),
            strings_view(out@) == items@.take(i as int).map_values(|t: &str| t@),
        decreases items.len() - i,
    {
        let ghost before = strings_view(out@);
        let t = string_from(&chars_of(items[i]));
        proof {
            assert(t@ == items@[i as int]@);
        }
        out.push(t);
        proof {
            assert(strings_view(out@) =~= before.push(items@[i as int]@));
            assert(items@.take(i + 1) =~= items@.take(i as int).push(items@[i as int]));
            assert(strings_view(out@) =~= items@.take(i + 1).map_values(|t: &str| t@));
        }
        i += 1;
    }
    proof {
        assert(items@.take(items@.len() as int) =~= items@);
    }
    out
}

impl LanguageAnalyzer for Analyzer {
    fn extensions(&self) -> (r: Vec<String>)
        ensures
            strings_view(r@) == spec_analyzer_exts(*self),
    {
        let items: Vec<&str> = match self {
            Analyzer::TypeScript => vec!["ts", "tsx"],
            Analyzer::JavaScript => vec!["js", "jsx", "mjs", "cjs"],
            Analyzer::Php => vec!["php"],
            Analyzer::Json(_) => vec!["json"],
            Analyzer::Generic => Vec::new(),
        };
        let r = string_list(items);
        proof {
            assert(strings_view(r@) =~= spec_analyzer_exts(*self));
        }
        r
    }

    fn analyze_imports(&self, source: &str, path: &str) -> (r: Vec<ImportInfo>)
        ensures
            import_views(r@) == spec_analyzer_imports(*self, source@),
    {
        match self {
            Analyzer::TypeScript => javascript::analyze_js_imports(source, true),
            Analyzer::JavaScript => javascript::analyze_js_imports(source, false),
            Analyzer::Php => php::analyze_php_imports(source),
            _ => {
                let r: Vec<ImportInfo> = Vec::new();
                proof {
                    assert(import_views(r@) =~= Seq::<ImportView>::empty());
                }
                r
            },
        }
    }

    fn analyze_exports(&self, source: &str, path: &str) -> (r: Vec<ImportInfo>)
        ensures
            import_views(r@) == spec_analyzer_exports(*self, source@),
    {
        match self {
            Analyzer::TypeScript => javascript::analyze_js_exports(source, true),
            Analyzer::JavaScript => javascript::analyze_js_exports(source, false),
            _ => {
                let r: Vec<ImportInfo> = Vec::new();
                proof {
                    assert(import_views(r@) =~= Seq::<ImportView>::empty());
                }
                r
            },
        }
    }

    fn analyze_references(&self, source: &str) -> (r: Vec<ReferenceInfo>)
        ensures
            reference_views(r@) == spec_analyzer_refs(*self, source@),
    {
        match self {
            Analyzer::TypeScript => javascript::analyze_js_references(source),
            Analyzer::JavaScript => javascript::analyze_js_references(source),
            Analyzer::Php => php::analyze_php_references(source),
            Analyzer::Json(doc) => json::json_references(doc, source),
            _ => {
                let r: Vec<ReferenceInfo> = Vec::new();
                proof {
                    assert(reference_views(r@) =~= Seq::<ReferenceView>::empty());
                }
                r
            },
        }
    }
}

} // verus!
