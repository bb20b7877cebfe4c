//! Imports, re-exports and references in JavaScript and TypeScript sources,
//! read line by line.
use vstd::prelude::*;
use super::{
    ImportInfo, ImportType, ImportView, ReferenceInfo, ReferenceType, ReferenceView, import_views,
    opt_seq, reference_views,
};
use crate::paths::slice_vec_to_end;
use crate::text::{
    chars_of, contains, find_in, lemma_find_from_bounds, lemma_lines_len, lemma_rfind_bounds,
    lines, rfind_in, spec_contains, spec_find, spec_lines, spec_rfind, spec_starts_with, spec_trim,
    starts_with, string_from, string_of, trim,
};

verus! {

// ---------------------------------------------------------------------------
// Keywords
// ---------------------------------------------------------------------------

/// `" from "`
pub open spec fn kw_from() -> Seq<char> {
    seq![' ', 'f', 'r', 'o', 'm', ' ']
}

/// `"from '"`
pub open spec fn kw_from_sq() -> Seq<char> {
    seq!['f', 'r', 'o', 'm', ' ', '\'']
}

/// `"from \""`
pub open spec fn kw_from_dq() -> Seq<char> {
    seq!['f', 'r', 'o', 'm', ' ', '"']
}

/// `"import "`
pub open spec fn kw_import() -> Seq<char> {
    seq!['i', 'm', 'p', 'o', 'r', 't', ' ']
}

/// `"import{"`
pub open spec fn kw_import_brace() -> Seq<char> {
    seq!['i', 'm', 'p', 'o', 'r', 't', '{']
}

/// `"export "`
pub open spec fn kw_export() -> Seq<char> {
    seq!['e', 'x', 'p', 'o', 'r', 't', ' ']
}

/// `"export"`
pub open spec fn kw_export_word() -> Seq<char> {
    seq!['e', 'x', 'p', 'o', 'r', 't']
}

/// `"require("`
pub open spec fn kw_require_open() -> Seq<char> {
    seq!['r', 'e', 'q', 'u', 'i', 'r', 'e', '(']
}

/// `"require('"`
pub open spec fn kw_require_sq() -> Seq<char> {
    seq!['r', 'e', 'q', 'u', 'i', 'r', 'e', '(', '\'']
}

/// `"require(\""`
pub open spec fn kw_require_dq() -> Seq<char> {
    seq!['r', 'e', 'q', 'u', 'i', 'r', 'e', '(', '"']
}

/// `"import("`
pub open spec fn kw_import_open() -> Seq<char> {
    seq!['i', 'm', 'p', 'o', 'r', 't', '(']
}

/// `"import('"`
pub open spec fn kw_import_open_sq() -> Seq<char> {
    seq!['i', 'm', 'p', 'o', 'r', 't', '(', '\'']
}

/// `"import(\""`
pub open spec fn kw_import_open_dq() -> Seq<char> {
    seq!['i', 'm', 'p', 'o', 'r', 't', '(', '"']
}

/// `"//"`
pub open spec fn kw_comment() -> Seq<char> {
    seq!['/', '/']
}

fn v_from() -> (r: Vec<char>)
    ensures
        r@ == kw_from(),
{
    let r = vec![' ', 'f', 'r', 'o', 'm', ' '];
    proof {
        assert(r@ =~= kw_from());
    }
    r
}

fn v_from_sq() -> (r: Vec<char>)
    ensures
        r@ == kw_from_sq(),
{
    let r = vec!['f', 'r', 'o', 'm', ' ', '\''];
    proof {
        assert(r@ =~= kw_from_sq());
    }
    r
}

fn v_from_dq() -> (r: Vec<char>)
    ensures
        r@ == kw_from_dq(),
{
    let r = vec!['f', 'r', 'o', 'm', ' ', '"'];
    proof {
        assert(r@ =~= kw_from_dq());
    }
    r
}

fn v_import() -> (r: Vec<char>)
    ensures
        r@ == kw_import(),
{
    let r = vec!['i', 'm', 'p', 'o', 'r', 't', ' '];
    proof {
        assert(r@ =~= kw_import());
    }
    r
}

fn v_import_brace() -> (r: Vec<char>)
    ensures
        r@ == kw_import_brace(),
{
    let r = vec!['i', 'm', 'p', 'o', 'r', 't', '{'];
    proof {
        assert(r@ =~= kw_import_brace());
    }
    r
}

fn v_export() -> (r: Vec<char>)
    ensures
        r@ == kw_export(),
{
    let r = vec!['e', 'x', 'p', 'o', 'r', 't', ' '];
    proof {
        assert(r@ =~= kw_export());
    }
    r
}

fn v_export_word() -> (r: Vec<char>)
    ensures
        r@ == kw_export_word(),
{
    let r = vec!['e', 'x', 'p', 'o', 'r', 't'];
    proof {
        assert(r@ =~= kw_export_word());
    }
    r
}

fn v_require_open() -> (r: Vec<char>)
    ensures
        r@ == kw_require_open(),
{
    let r = vec!['r', 'e', 'q', 'u', 'i', 'r', 'e', '('];
    proof {
        assert(r@ =~= kw_require_open());
    }
    r
}

fn v_require_sq() -> (r: Vec<char>)
    ensures
        r@ == kw_require_sq(),
{
    let r = vec!['r', 'e', 'q', 'u', 'i', 'r', 'e', '(', '\''];
    proof {
        assert(r@ =~= kw_require_sq());
    }
    r
}

fn v_require_dq() -> (r: Vec<char>)
    ensures
        r@ == kw_require_dq(),
{
    let r = vec!['r', 'e', 'q', 'u', 'i', 'r', 'e', '(', '"'];
    proof {
        assert(r@ =~= kw_require_dq());
    }
    r
}

fn v_import_open() -> (r: Vec<char>)
    ensures
        r@ == kw_import_open(),
{
    let r = vec!['i', 'm', 'p', 'o', 'r', 't', '('];
    proof {
        assert(r@ =~= kw_import_open());
    }
    r
}

fn v_import_open_sq() -> (r: Vec<char>)
    ensures
        r@ == kw_import_open_sq(),
{
    let r = vec!['i', 'm', 'p', 'o', 'r', 't', '(', '\''];
    proof {
        assert(r@ =~= kw_import_open_sq());
    }
    r
}

fn v_import_open_dq() -> (r: Vec<char>)
    ensures
        r@ == kw_import_open_dq(),
{
    let r = vec!['i', 'm', 'p', 'o', 'r', 't', '(', '"'];
    proof {
        assert(r@ =~= kw_import_open_dq());
    }
    r
}

/// `"//"` as a vector.
pub fn v_comment() -> (r: Vec<char>)
    ensures
        r@ == kw_comment(),
{
    let r = vec!['/', '/'];
    proof {
        assert(r@ =~= kw_comment());
    }
    r
}

// ---------------------------------------------------------------------------
// Specifications
// ---------------------------------------------------------------------------

/// The text between a leading quote of `t` and the next occurrence of the same
/// quote; `None` when `t` does not start with `'` or `"`, the quote is not
/// closed, or nothing stands between the quotes.
pub open spec fn spec_extract_quoted(t: Seq<char>) -> Option<Seq<char>> {
    if t.len() == 0 {
        None
    } else if t[0] != '\'' && t[0] != '"' {
        None
    } else {
        let rest = t.skip(1);
        match spec_find(rest, seq![t[0]]) {
            None => None,
            Some(e) => if e == 0 {
                None
            } else {
                Some(rest.take(e))
            },
        }
    }
}

/// The quoted specifier after the last `" from "` of a line.
pub open spec fn spec_path_from_statement(line: Seq<char>) -> Option<Seq<char>> {
    match spec_rfind(line, kw_from()) {
        None => None,
        Some(p) => spec_extract_quoted(spec_trim(line.skip(p + 6))),
    }
}

/// The quoted specifier right after the first `require(` of a line.
pub open spec fn spec_require_path(line: Seq<char>) -> Option<Seq<char>> {
    match spec_find(line, kw_require_open()) {
        None => None,
        Some(p) => spec_extract_quoted(line.skip(p + 8)),
    }
}

/// The quoted specifier right after the first `import(` of a line.
pub open spec fn spec_dynamic_import_path(line: Seq<char>) -> Option<Seq<char>> {
    match spec_find(line, kw_import_open()) {
        None => None,
        Some(p) => spec_extract_quoted(line.skip(p + 7)),
    }
}

/// An import of the given kind at line `n` with the specifier `p`.
pub open spec fn import_at(p: Option<Seq<char>>, n: int, line: Seq<char>, kind: ImportType) -> Option<
    ImportView,
> {
    match p {
        Some(path) => Some(ImportView { path, line: n, content: line, kind }),
        None => None,
    }
}

/// `parse_from_import`.
pub open spec fn spec_parse_from_import(line: Seq<char>, n: int) -> Option<ImportView> {
    import_at(spec_path_from_statement(line), n, line, ImportType::Static)
}

/// `parse_reexport`.
pub open spec fn spec_parse_reexport(line: Seq<char>, n: int) -> Option<ImportView> {
    import_at(spec_path_from_statement(line), n, line, ImportType::ReExport)
}

/// `parse_require`.
pub open spec fn spec_parse_require(line: Seq<char>, n: int) -> Option<ImportView> {
    import_at(spec_require_path(line), n, line, ImportType::Require)
}

/// `parse_dynamic_import`.
pub open spec fn spec_parse_dynamic_import(line: Seq<char>, n: int) -> Option<ImportView> {
    import_at(spec_dynamic_import_path(line), n, line, ImportType::Dynamic)
}

/// `parse_js_import`: a line starting with `import`.
pub open spec fn spec_parse_js_import(line: Seq<char>, n: int, typescript: bool) -> Option<ImportView> {
    if spec_contains(line, kw_from()) {
        spec_parse_from_import(line, n)
    } else if typescript && (spec_starts_with(line, kw_import_open_sq()) || spec_starts_with(
        line,
        kw_import_open_dq(),
    )) {
        spec_parse_dynamic_import(line, n)
    } else {
        import_at(spec_path_from_statement(line), n, line, ImportType::Static)
    }
}

/// The imports found on one trimmed, non-comment line `t` numbered `n`.
pub open spec fn js_line_imports(t: Seq<char>, n: int, typescript: bool) -> Seq<ImportView> {
    let a = if spec_starts_with(t, kw_import()) || spec_starts_with(t, kw_import_brace()) {
        opt_seq(spec_parse_js_import(t, n, typescript))
    } else {
        Seq::empty()
    };
    let b = if (spec_contains(t, kw_from_sq()) || spec_contains(t, kw_from_dq())) && a.len() == 0 {
        opt_seq(spec_parse_from_import(t, n))
    } else {
        Seq::empty()
    };
    let c = if typescript && spec_starts_with(t, kw_export()) && spec_contains(t, kw_from()) {
        opt_seq(spec_parse_reexport(t, n))
    } else {
        Seq::empty()
    };
    let d = if !typescript && (spec_contains(t, kw_require_sq()) || spec_contains(
        t,
        kw_require_dq(),
    )) {
        opt_seq(spec_parse_require(t, n))
    } else {
        Seq::empty()
    };
    let e = if spec_contains(t, kw_import_open()) {
        opt_seq(spec_parse_dynamic_import(t, n))
    } else {
        Seq::empty()
    };
    a + b + c + d + e
}

/// The imports of the first `k` lines.
pub open spec fn js_imports_of_lines(ls: Seq<Seq<char>>, typescript: bool, k: int) -> Seq<ImportView>
    decreases k,
{
    if k <= 0 || k > ls.len() {
        Seq::empty()
    } else {
        let t = spec_trim(ls[k - 1]);
        js_imports_of_lines(ls, typescript, k - 1) + if spec_starts_with(t, kw_comment()) {
            Seq::empty()
        } else {
            js_line_imports(t, k, typescript)
        }
    }
}

/// All imports of a JavaScript or TypeScript source.
pub open spec fn spec_js_imports(source: Seq<char>, typescript: bool) -> Seq<ImportView> {
    js_imports_of_lines(spec_lines(source), typescript, spec_lines(source).len() as int)
}

/// The re-exports of the first `k` lines of a TypeScript source.
pub open spec fn js_exports_of_lines(ls: Seq<Seq<char>>, k: int) -> Seq<ImportView>
    decreases k,
{
    if k <= 0 || k > ls.len() {
        Seq::empty()
    } else {
        let t = spec_trim(ls[k - 1]);
        js_exports_of_lines(ls, k - 1) + if spec_starts_with(t, kw_export()) && (spec_contains(
            t,
            kw_from_sq(),
        ) || spec_contains(t, kw_from_dq())) {
            opt_seq(spec_parse_reexport(t, k))
        } else {
            Seq::empty()
        }
    }
}

/// All re-exports of a source (none for plain JavaScript).
pub open spec fn spec_js_exports(source: Seq<char>, typescript: bool) -> Seq<ImportView> {
    if !typescript {
        Seq::empty()
    } else {
        js_exports_of_lines(spec_lines(source), spec_lines(source).len() as int)
    }
}

/// The references on one line (`line` as written, `t` trimmed) numbered `n`.
pub open spec fn js_line_refs(line: Seq<char>, t: Seq<char>, n: int) -> Seq<ReferenceView> {
    let a = if spec_starts_with(t, kw_import()) || spec_starts_with(t, kw_export()) {
        match spec_path_from_statement(t) {
            Some(p) => seq![
                ReferenceView {
                    text: p,
                    line: n,
                    content: line,
                    kind: if spec_starts_with(t, kw_export_word()) {
                        ReferenceType::Export
                    } else {
                        ReferenceType::Import
                    },
                },
            ],
            None => Seq::empty(),
        }
    } else {
        Seq::empty()
    };
    let b = if spec_contains(t, kw_require_open()) {
        match spec_require_path(t) {
            Some(p) => seq![
                ReferenceView { text: p, line: n, content: line, kind: ReferenceType::Require },
            ],
            None => Seq::empty(),
        }
    } else {
        Seq::empty()
    };
    a + b
}

/// The references of the first `k` lines.
pub open spec fn js_refs_of_lines(ls: Seq<Seq<char>>, k: int) -> Seq<ReferenceView>
    decreases k,
{
    if k <= 0 || k > ls.len() {
        Seq::empty()
    } else {
        let t = spec_trim(ls[k - 1]);
        js_refs_of_lines(ls, k - 1) + if spec_starts_with(t, kw_comment()) {
            Seq::empty()
        } else {
            js_line_refs(ls[k - 1], t, k)
        }
    }
}

/// All references of a JavaScript or TypeScript source.
pub open spec fn spec_js_refs(source: Seq<char>) -> Seq<ReferenceView> {
    js_refs_of_lines(spec_lines(source), spec_lines(source).len() as int)
}

// ---------------------------------------------------------------------------
// Parsing
// ---------------------------------------------------------------------------

/// The text between the opening quote of `t` and its match.
pub fn extract_quoted(t: &Vec<char>) -> (r: Option<String>)
    ensures
        r matches Some(p) ==> spec_extract_quoted(t@) == Some(p@),
        r is None ==> spec_extract_quoted(t@) is None,
{
    if t.len() == 0 {
        return None;
    }
    let q = t[0];
    if q != '\'' && q != '"' {
        return None;
    }
    let rest = slice_vec_to_end(t, 1);
    let pat = vec![q];
    proof {
        assert(pat@ =~= seq![t@[0]]);
    }
    match find_in(&rest, &pat, 0) {
        None => None,
        Some(e) => {
            proof {
                lemma_find_from_bounds(rest@, pat@, 0);
            }
            if e == 0 {
                None
            } else {
                proof {
                    assert(rest@.subrange(0, e as int) =~= rest@.take(e as int));
                }
                Some(string_of(&rest, 0, e))
            }
        },
    }
}

/// The quoted specifier after the last `" from "` of a line.
pub fn extract_path_from_statement(line: &str) -> (r: Option<String>)
    ensures
        r matches Some(p) ==> spec_path_from_statement(line@) == Some(p@),
        r is None ==> spec_path_from_statement(line@) is None,
{
    let c = chars_of(line);
    let kw = v_from();
    match rfind_in(&c, &kw) {
        None => None,
        Some(p) => {
            proof {
                lemma_rfind_bounds(c@, kw@, c@.len() - kw@.len());
                assert(p + 6 <= c@.len());
                assert(c@.len() == c.len());
            }
            let after = slice_vec_to_end(&c, p + 6);
            let t = trim(&after);
            extract_quoted(&t)
        },
    }
}

/// The quoted specifier right after the first `require(` of a line.
pub fn extract_require_path(line: &str) -> (r: Option<String>)
    ensures
        r matches Some(p) ==> spec_require_path(line@) == Some(p@),
        r is None ==> spec_require_path(line@) is None,
{
    let c = chars_of(line);
    let kw = v_require_open();
    match find_in(&c, &kw, 0) {
        None => None,
        Some(p) => {
            proof {
                lemma_find_from_bounds(c@, kw@, 0);
                assert(p + 8 <= c@.len());
                assert(c@.len() == c.len());
            }
            let rest = slice_vec_to_end(&c, p + 8);
            extract_quoted(&rest)
        },
    }
}

/// The quoted specifier right after the first `import(` of a line.
pub fn extract_dynamic_import_path(line: &str) -> (r: Option<String>)
    ensures
        r matches Some(p) ==> spec_dynamic_import_path(line@) == Some(p@),
        r is None ==> spec_dynamic_import_path(line@) is None,
{
    let c = chars_of(line);
    let kw = v_import_open();
    match find_in(&c, &kw, 0) {
        None => None,
        Some(p) => {
            proof {
                lemma_find_from_bounds(c@, kw@, 0);
                assert(p + 7 <= c@.len());
                assert(c@.len() == c.len());
            }
            let rest = slice_vec_to_end(&c, p + 7);
            extract_quoted(&rest)
        },
    }
}

/// An import of `kind` for an extracted specifier.
fn make_import(path: Option<String>, line: &str, line_num: usize, kind: ImportType) -> (r: Option<
    ImportInfo,
>)
    ensures
        r matches Some(i) ==> (path matches Some(p) && i@ == ImportView {
            path: p@,
            line: line_num as int,
            content: line@,
            kind,
        }),
        r is None ==> path is None,
{
    match path {
        Some(p) => Some(
            ImportInfo {
                import_path: p,
                line_number: line_num,
                line_content: string_from(&chars_of(line)),
                import_type: kind,
            },
        ),
        None => None,
    }
}

/// An import of the specifier after `from` on a line.
pub fn parse_from_import(line: &str, line_num: usize) -> (r: Option<ImportInfo>)
    ensures
        r matches Some(i) ==> spec_parse_from_import(line@, line_num as int) == Some(i@),
        r is None ==> spec_parse_from_import(line@, line_num as int) is None,
{
    make_import(extract_path_from_statement(line), line, line_num, ImportType::Static)
}

/// A re-export (`export ... from '...'`) on a line.
pub fn parse_reexport(line: &str, line_num: usize) -> (r: Option<ImportInfo>)
    ensures
        r matches Some(i) ==> spec_parse_reexport(line@, line_num as int) == Some(i@),
        r is None ==> spec_parse_reexport(line@, line_num as int) is None,
{
    make_import(extract_path_from_statement(line), line, line_num, ImportType::ReExport)
}

/// A `require('...')` on a line.
pub fn parse_require(line: &str, line_num: usize) -> (r: Option<ImportInfo>)
    ensures
        r matches Some(i) ==> spec_parse_require(line@, line_num as int) == Some(i@),
        r is None ==> spec_parse_require(line@, line_num as int) is None,
{
    make_import(extract_require_path(line), line, line_num, ImportType::Require)
}

/// A dynamic `import('...')` on a line.
pub fn parse_dynamic_import(line: &str, line_num: usize) -> (r: Option<ImportInfo>)
    ensures
        r matches Some(i) ==> spec_parse_dynamic_import(line@, line_num as int) == Some(i@),
        r is None ==> spec_parse_dynamic_import(line@, line_num as int) is None,
{
    make_import(extract_dynamic_import_path(line), line, line_num, ImportType::Dynamic)
}

/// An import on a line that starts with `import`.
pub fn parse_js_import(line: &str, line_num: usize, typescript: bool) -> (r: Option<ImportInfo>)
    ensures
        r matches Some(i) ==> spec_parse_js_import(line@, line_num as int, typescript) == Some(i@),
        r is None ==> spec_parse_js_import(line@, line_num as int, typescript) is None,
{
    let c = chars_of(line);
    if contains(&c, &v_from()) {
        return parse_from_import(line, line_num);
    }
    if typescript && (starts_with(&c, &v_import_open_sq()) || starts_with(&c, &v_import_open_dq())) {
        return parse_dynamic_import(line, line_num);
    }
    make_import(extract_path_from_statement(line), line, line_num, ImportType::Static)
}

// ---------------------------------------------------------------------------
// Analysis
// ---------------------------------------------------------------------------

/// Appends an optional import to `v`.
fn push_opt_import(v: &mut Vec<ImportInfo>, o: Option<ImportInfo>)
    ensures
        import_views(final(v)@) == import_views(old(v)@) + opt_seq(
            match o {
                Some(i) => Some(i@),
                None => None,
            },
        ),
{
    match o {
        Some(i) => {
            v.push(i);
            proof {
                assert(import_views(v@) =~= import_views(old(v)@) + seq![i@]);
            }
        },
        None => {
            proof {
                assert(import_views(v@) =~= import_views(old(v)@) + Seq::<ImportView>::empty());
            }
        },
    }
}

/// The imports found on one trimmed, non-comment line numbered `n`.
pub fn js_line_imports_of(t: &Vec<char>, n: usize, typescript: bool) -> (r: Vec<ImportInfo>)
    ensures
        import_views(r@) == js_line_imports(t@, n as int, typescript),
{
    let ts = string_from(t);
    let line = ts.as_str();
    let mut out: Vec<ImportInfo> = Vec::new();
    proof {
        assert(import_views(out@) =~= Seq::<ImportView>::empty());
    }
    let mut a_len: usize = 0;
    if starts_with(t, &v_import()) || starts_with(t, &v_import_brace()) {
        let imp = parse_js_import(line, n, typescript);
        if imp.is_some() {
            a_len = 1;
        }
        push_opt_import(&mut out, imp);
    }
    let ghost after_a = import_views(out@);
    if (contains(t, &v_from_sq()) || contains(t, &v_from_dq())) && a_len == 0 {
        push_opt_import(&mut out, parse_from_import(line, n));
    }
    let ghost after_b = import_views(out@);
    if typescript && starts_with(t, &v_export()) && contains(t, &v_from()) {
        push_opt_import(&mut out, parse_reexport(line, n));
    }
    let ghost after_c = import_views(out@);
    if !typescript && (contains(t, &v_require_sq()) || contains(t, &v_require_dq())) {
        push_opt_import(&mut out, parse_require(line, n));
    }
    let ghost after_d = import_views(out@);
    if contains(t, &v_import_open()) {
        push_opt_import(&mut out, parse_dynamic_import(line, n));
    }
    proof {
        let a = if spec_starts_with(t@, kw_import()) || spec_starts_with(t@, kw_import_brace()) {
            opt_seq(spec_parse_js_import(t@, n as int, typescript))
        } else {
            Seq::empty()
        };
        assert(after_a == a);
        assert(a.len() == a_len);
        assert(import_views(out@) =~= js_line_imports(t@, n as int, typescript));
    }
    out
}

/// Imports, re-exports, `require` calls and dynamic imports of a JavaScript
/// (`typescript == false`) or TypeScript source, line by line; lines that
/// start with `//` are skipped, and a `from` clause already reported by an
/// `import` statement on the same line is not reported twice.
pub fn analyze_js_imports(source: &str, typescript: bool) -> (r: Vec<ImportInfo>)
    requires
        source@.len() < usize::MAX,
    ensures
        import_views(r@) == spec_js_imports(source@, typescript),
{
    let s = chars_of(source);
    let ls = lines(&s);
    let ghost sl = spec_lines(source@);
    proof {
        lemma_lines_len(source@);
    }
    let mut imports: Vec<ImportInfo> = Vec::new();
    proof {
        assert(import_views(imports@) =~= Seq::<ImportView>::empty());
    }
    let mut k: usize = 0;
    while k < ls.len()
        invariant
            0 <= k <= ls.len(),
            ls@.len() == sl.len(),
            sl.len() < usize::MAX,
            sl == spec_lines(source@),
            forall|m: int| 0 <= m < ls@.len() ==> #[trigger] ls@[m]@ == sl[m],
            import_views(imports@) == js_imports_of_lines(sl, typescript, k as int),
        decreases ls.len() - k,
    {
        let t = trim(&ls[k]);
        proof {
            assert(ls@[k as int]@ == sl[k as int]);
        }
        let ghost before = import_views(imports@);
        if !starts_with(&t, &v_comment()) {
            let mut line_imps = js_line_imports_of(&t, k + 1, typescript);
            imports.append(&mut line_imps);
            proof {
                assert(import_views(imports@) =~= before + js_line_imports(t@, k + 1, typescript));
            }
        } else {
            proof {
                assert(import_views(imports@) =~= before + Seq::<ImportView>::empty());
            }
        }
        k += 1;
    }
    imports
}

/// Re-exports (`export ... from '...'`) of a TypeScript source; none for
/// JavaScript.
pub fn analyze_js_exports(source: &str, typescript: bool) -> (r: Vec<ImportInfo>)
    requires
        source@.len() < usize::MAX,
    ensures
        import_views(r@) == spec_js_exports(source@, typescript),
{
    let mut exports: Vec<ImportInfo> = Vec::new();
    proof {
        assert(import_views(exports@) =~= Seq::<ImportView>::empty());
    }
    if !typescript {
        return exports;
    }
    let s = chars_of(source);
    let ls = lines(&s);
    let ghost sl = spec_lines(source@);
    proof {
        lemma_lines_len(source@);
    }
    let mut k: usize = 0;
    while k < ls.len()
        invariant
            0 <= k <= ls.len(),
            ls@.len() == sl.len(),
            sl.len() < usize::MAX,
            sl == spec_lines(source@),
            forall|m: int| 0 <= m < ls@.len() ==> #[trigger] ls@[m]@ == sl[m],
            import_views(exports@) == js_exports_of_lines(sl, k as int),
        decreases ls.len() - k,
    {
        let t = trim(&ls[k]);
        proof {
            assert(ls@[k as int]@ == sl[k as int]);
        }
        if starts_with(&t, &v_export()) && (contains(&t, &v_from_sq()) || contains(&t, &v_from_dq())) {
            let ts = string_from(&t);
            push_opt_import(&mut exports, parse_reexport(ts.as_str(), k + 1));
        } else {
            proof {
                assert(import_views(exports@) =~= import_views(exports@) + Seq::<ImportView>::empty());
            }
        }
        k += 1;
    }
    exports
}

/// The references on one line: the `from` specifier of an `import`/`export`
/// statement, and the specifier of a `require(...)`.
pub fn js_line_refs_of(line: &Vec<char>, t: &Vec<char>, n: usize) -> (r: Vec<ReferenceInfo>)
    ensures
        reference_views(r@) == js_line_refs(line@, t@, n as int),
{
    let ts = string_from(t);
    let mut out: Vec<ReferenceInfo> = Vec::new();
    if starts_with(t, &v_import()) || starts_with(t, &v_export()) {
        match extract_path_from_statement(ts.as_str()) {
            Some(p) => {
                let kind = if starts_with(t, &v_export_word()) {
                    ReferenceType::Export
                } else {
                    ReferenceType::Import
                };
                out.push(
                    ReferenceInfo {
                        text: p,
                        line_number: n,
                        line_content: string_from(line),
                        ref_type: kind,
                    },
                );
            },
            None => {},
        }
    }
    let ghost after_a = reference_views(out@);
    if contains(t, &v_require_open()) {
        match extract_require_path(ts.as_str()) {
            Some(p) => {
                out.push(
                    ReferenceInfo {
                        text: p,
                        line_number: n,
                        line_content: string_from(line),
                        ref_type: ReferenceType::Require,
                    },
                );
            },
            None => {},
        }
    }
    proof {
        assert(reference_views(out@) =~= js_line_refs(line@, t@, n as int));
    }
    out
}

/// Path references of a JavaScript or TypeScript source, line by line; lines
/// that start with `//` are skipped.
pub fn analyze_js_references(source: &str) -> (r: Vec<ReferenceInfo>)
    requires
        source@.len() < usize::MAX,
    ensures
        reference_views(r@) == spec_js_refs(source@),
{
    let s = chars_of(source);
    let ls = lines(&s);
    let ghost sl = spec_lines(source@);
    proof {
        lemma_lines_len(source@);
    }
    let mut refs: Vec<ReferenceInfo> = Vec::new();
    proof {
        assert(reference_views(refs@) =~= Seq::<ReferenceView>::empty());
    }
    let mut k: usize = 0;
    while k < ls.len()
        invariant
            0 <= k <= ls.len(),
            ls@.len() == sl.len(),
            sl.len() < usize::MAX,
            sl == spec_lines(source@),
            forall|m: int| 0 <= m < ls@.len() ==> #[trigger] ls@[m]@ == sl[m],
            reference_views(refs@) == js_refs_of_lines(sl, k as int),
        decreases ls.len() - k,
    {
        let t = trim(&ls[k]);
        proof {
            assert(ls@[k as int]@ == sl[k as int]);
        }
        let ghost before = reference_views(refs@);
        if !starts_with(&t, &v_comment()) {
            let mut line_refs = js_line_refs_of(&ls[k], &t, k + 1);
            refs.append(&mut line_refs);
            proof {
                assert(reference_views(refs@) =~= before + js_line_refs(sl[k as int], t@, k + 1));
            }
        } else {
            proof {
                assert(reference_views(refs@) =~= before + Seq::<ReferenceView>::empty());
            }
        }
        k += 1;
    }
    refs
}

} // verus!
