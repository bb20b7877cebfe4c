//! `use`, `require` and `include` statements in PHP sources, read line by line.
use vstd::prelude::*;
use super::{
    ImportInfo, ImportType, ImportView, ReferenceInfo, ReferenceType, ReferenceView, import_views,
    opt_seq, reference_views,
};
use crate::paths::slice_vec_to_end;
use crate::text::{
    chars_of, contains_char, ends_with, find_in, lemma_find_from_bounds, lemma_lines_len, lines,
    slice_vec, spec_ends_with, spec_find, spec_lines, spec_starts_with, spec_trim, starts_with,
    string_from, string_of, trim,
};
use super::javascript::{kw_comment, v_comment};

verus! {

// ---------------------------------------------------------------------------
// Keywords
// ---------------------------------------------------------------------------

/// `"#"`
pub open spec fn kw_hash() -> Seq<char> {
    seq!['#']
}

/// `"/*"`
pub open spec fn kw_block() -> Seq<char> {
    seq!['/', '*']
}

/// `"use "`
pub open spec fn kw_use() -> Seq<char> {
    seq!['u', 's', 'e', ' ']
}

/// `"function "`
pub open spec fn kw_function() -> Seq<char> {
    seq!['f', 'u', 'n', 'c', 't', 'i', 'o', 'n', ' ']
}

/// `"const "`
pub open spec fn kw_const() -> Seq<char> {
    seq!['c', 'o', 'n', 's', 't', ' ']
}

/// `"require "`
pub open spec fn kw_require() -> Seq<char> {
    seq!['r', 'e', 'q', 'u', 'i', 'r', 'e', ' ']
}

/// `"require_once "`
pub open spec fn kw_require_once() -> Seq<char> {
    seq!['r', 'e', 'q', 'u', 'i', 'r', 'e', '_', 'o', 'n', 'c', 'e', ' ']
}

/// `"include "`
pub open spec fn kw_include() -> Seq<char> {
    seq!['i', 'n', 'c', 'l', 'u', 'd', 'e', ' ']
}

/// `"include_once "`
pub open spec fn kw_include_once() -> Seq<char> {
    seq!['i', 'n', 'c', 'l', 'u', 'd', 'e', '_', 'o', 'n', 'c', 'e', ' ']
}

/// The file-inclusion keywords, in the order they are tried.
pub open spec fn file_keywords() -> Seq<Seq<char>> {
    seq![kw_require_once(), kw_require(), kw_include_once(), kw_include()]
}

fn v_hash() -> (r: Vec<char>)
    ensures
        r@ == kw_hash(),
{
    let r = vec!['#'];
    proof {
        assert(r@ =~= kw_hash());
    }
    r
}

fn v_block() -> (r: Vec<char>)
    ensures
        r@ == kw_block(),
{
    let r = vec!['/', '*'];
    proof {
        assert(r@ =~= kw_block());
    }
    r
}

fn v_use() -> (r: Vec<char>)
    ensures
        r@ == kw_use(),
{
    let r = vec!['u', 's', 'e', ' '];
    proof {
        assert(r@ =~= kw_use());
    }
    r
}

fn v_function() -> (r: Vec<char>)
    ensures
        r@ == kw_function(),
{
    let r = vec!['f', 'u', 'n', 'c', 't', 'i', 'o', 'n', ' '];
    proof {
        assert(r@ =~= kw_function());
    }
    r
}

fn v_const() -> (r: Vec<char>)
    ensures
        r@ == kw_const(),
{
    let r = vec!['c', 'o', 'n', 's', 't', ' '];
    proof {
        assert(r@ =~= kw_const());
    }
    r
}

fn v_require() -> (r: Vec<char>)
    ensures
        r@ == kw_require(),
{
    let r = vec!['r', 'e', 'q', 'u', 'i', 'r', 'e', ' '];
    proof {
        assert(r@ =~= kw_require());
    }
    r
}

fn v_require_once() -> (r: Vec<char>)
    ensures
        r@ == kw_require_once(),
{
    let r = vec!['r', 'e', 'q', 'u', 'i', 'r', 'e', '_', 'o', 'n', 'c', 'e', ' '];
    proof {
        assert(r@ =~= kw_require_once());
    }
    r
}

fn v_include() -> (r: Vec<char>)
    ensures
        r@ == kw_include(),
{
    let r = vec!['i', 'n', 'c', 'l', 'u', 'd', 'e', ' '];
    proof {
        assert(r@ =~= kw_include());
    }
    r
}

fn v_include_once() -> (r: Vec<char>)
    ensures
        r@ == kw_include_once(),
{
    let r = vec!['i', 'n', 'c', 'l', 'u', 'd', 'e', '_', 'o', 'n', 'c', 'e', ' '];
    proof {
        assert(r@ =~= kw_include_once());
    }
    r
}

// ---------------------------------------------------------------------------
// Specifications
// ---------------------------------------------------------------------------

/// `str::strip_prefix`.
pub open spec fn spec_strip_prefix(s: Seq<char>, p: Seq<char>) -> Option<Seq<char>> {
    if spec_starts_with(s, p) {
        Some(s.skip(p.len() as int))
    } else {
        None
    }
}

/// The name of a `use function const NAME;` statement.
pub open spec fn spec_php_use_path(line: Seq<char>) -> Option<Seq<char>> {
    match spec_strip_prefix(line, kw_use()) {
        None => None,
        Some(r1) => match spec_strip_prefix(spec_trim(r1), kw_function()) {
            None => None,
            Some(r2) => match spec_strip_prefix(spec_trim(r2), kw_const()) {
                None => None,
                Some(r3) => {
                    let r = spec_trim(r3);
                    if spec_ends_with(r, seq![';']) {
                        Some(spec_trim(r.drop_last()))
                    } else {
                        None
                    }
                },
            },
        },
    }
}

/// The quoted file of an inclusion statement, trying the keywords from index `k` on.
pub open spec fn php_file_path_from(line: Seq<char>, k: int) -> Option<Seq<char>>
    decreases 4 - k,
{
    if k < 0 || k >= 4 {
        None
    } else {
        match spec_strip_prefix(line, file_keywords()[k]) {
            None => php_file_path_from(line, k + 1),
            Some(rest0) => {
                let rest = spec_trim(rest0);
                if rest.len() == 0 {
                    None
                } else if rest[0] == '\'' || rest[0] == '"' {
                    let path = rest.skip(1);
                    match spec_find(path, seq![rest[0]]) {
                        None => None,
                        Some(e) => Some(path.take(e)),
                    }
                } else {
                    php_file_path_from(line, k + 1)
                }
            },
        }
    }
}

/// The quoted file of a `require`/`require_once`/`include`/`include_once` line.
pub open spec fn spec_php_file_path(line: Seq<char>) -> Option<Seq<char>> {
    php_file_path_from(line, 0)
}

/// A static import at line `n` of the specifier `p`.
pub open spec fn static_import(p: Option<Seq<char>>, n: int, line: Seq<char>) -> Option<ImportView> {
    match p {
        Some(path) => Some(ImportView { path, line: n, content: line, kind: ImportType::Static }),
        None => None,
    }
}

/// The imports on one trimmed, non-comment line `t` numbered `n`.
pub open spec fn php_line_imports(t: Seq<char>, n: int) -> Seq<ImportView> {
    let a = if spec_starts_with(t, kw_use()) && t.contains('\\') {
        opt_seq(static_import(spec_php_use_path(t), n, t))
    } else {
        Seq::empty()
    };
    let b = if spec_starts_with(t, kw_require()) || spec_starts_with(t, kw_require_once()) {
        opt_seq(static_import(spec_php_file_path(t), n, t))
    } else {
        Seq::empty()
    };
    let c = if spec_starts_with(t, kw_include()) || spec_starts_with(t, kw_include_once()) {
        opt_seq(static_import(spec_php_file_path(t), n, t))
    } else {
        Seq::empty()
    };
    a + b + c
}

/// A trimmed PHP line that is a comment for import scanning.
pub open spec fn php_import_comment(t: Seq<char>) -> bool {
    spec_starts_with(t, kw_comment()) || spec_starts_with(t, kw_hash()) || spec_starts_with(
        t,
        kw_block(),
    )
}

/// The imports of the first `k` lines.
pub open spec fn php_imports_of_lines(ls: Seq<Seq<char>>, k: int) -> Seq<ImportView>
    decreases k,
{
    if k <= 0 || k > ls.len() {
        Seq::empty()
    } else {
        let t = spec_trim(ls[k - 1]);
        php_imports_of_lines(ls, k - 1) + if php_import_comment(t) {
            Seq::empty()
        } else {
            php_line_imports(t, k)
        }
    }
}

/// All imports of a PHP source.
pub open spec fn spec_php_imports(source: Seq<char>) -> Seq<ImportView> {
    php_imports_of_lines(spec_lines(source), spec_lines(source).len() as int)
}

/// The references of the first `k` lines.
pub open spec fn php_refs_of_lines(ls: Seq<Seq<char>>, k: int) -> Seq<ReferenceView>
    decreases k,
{
    if k <= 0 || k > ls.len() {
        Seq::empty()
    } else {
        let t = spec_trim(ls[k - 1]);
        php_refs_of_lines(ls, k - 1) + if spec_starts_with(t, kw_comment()) || spec_starts_with(
            t,
            kw_hash(),
        ) || !spec_starts_with(t, kw_use()) {
            Seq::empty()
        } else {
            match spec_php_use_path(t) {
                Some(p) => seq![
                    ReferenceView {
                        text: p,
                        line: k,
                        content: ls[k - 1],
                        kind: ReferenceType::Import,
                    },
                ],
                None => Seq::empty(),
            }
        }
    }
}

/// All references of a PHP source.
pub open spec fn spec_php_refs(source: Seq<char>) -> Seq<ReferenceView> {
    php_refs_of_lines(spec_lines(source), spec_lines(source).len() as int)
}

// ---------------------------------------------------------------------------
// Parsing
// ---------------------------------------------------------------------------

/// `str::strip_prefix`, as a new vector.
pub fn strip_prefix_vec(s: &Vec<char>, p: &Vec<char>) -> (r: Option<Vec<char>>)
    ensures
        r matches Some(v) ==> spec_strip_prefix(s@, p@) == Some(v@),
        r is None ==> spec_strip_prefix(s@, p@) is None,
{
    if starts_with(s, p) {
        Some(slice_vec_to_end(s, p.len()))
    } else {
        None
    }
}

/// The name of a `use function const NAME;` statement.
pub fn extract_php_use_path(line: &str) -> (r: Option<String>)
    ensures
        r matches Some(p) ==> spec_php_use_path(line@) == Some(p@),
        r is None ==> spec_php_use_path(line@) is None,
{
    let c = chars_of(line);
    let r1 = strip_prefix_vec(&c, &v_use())?;
    let r2 = strip_prefix_vec(&trim(&r1), &v_function())?;
    let r3 = strip_prefix_vec(&trim(&r2), &v_const())?;
    let r = trim(&r3);
    let semi = vec![';'];
    proof {
        assert(semi@ =~= seq![';']);
    }
    if !ends_with(&r, &semi) {
        return None;
    }
    let body = slice_vec(&r, 0, r.len() - 1);
    proof {
        assert(r@.subrange(0, r@.len() - 1) =~= r@.drop_last());
    }
    Some(string_from(&trim(&body)))
}

/// The keyword `k` of the file-inclusion keywords.
fn file_keyword(k: usize) -> (r: Vec<char>)
    requires
        k < 4,
    ensures
        r@ == file_keywords()[k as int],
{
    if k == 0 {
        v_require_once()
    } else if k == 1 {
        v_require()
    } else if k == 2 {
        v_include_once()
    } else {
        v_include()
    }
}

/// The quoted file of a `require`/`require_once`/`include`/`include_once` line.
pub fn extract_php_file_path(line: &str) -> (r: Option<String>)
    ensures
        r matches Some(p) ==> spec_php_file_path(line@) == Some(p@),
        r is None ==> spec_php_file_path(line@) is None,
{
    let c = chars_of(line);
    let mut k: usize = 0;
    while k < 4
        invariant
            0 <= k <= 4,
            c@ == line@,
            spec_php_file_path(line@) == php_file_path_from(line@, k as int),
        decreases 4 - k,
    {
        let kw = file_keyword(k);
        match strip_prefix_vec(&c, &kw) {
            Some(rest0) => {
                let rest = trim(&rest0);
                if rest.len() == 0 {
                    return None;
                }
                let q = rest[0];
                if q == '\'' || q == '"' {
                    let path = slice_vec_to_end(&rest, 1);
                    let pat = vec![q];
                    proof {
                        assert(pat@ =~= seq![rest@[0]]);
                    }
                    match find_in(&path, &pat, 0) {
                        None => {
                            return None;
                        },
                        Some(e) => {
                            proof {
                                lemma_find_from_bounds(path@, pat@, 0);
                                assert(path@.subrange(0, e as int) =~= path@.take(e as int));
                            }
                            return Some(string_of(&path, 0, e));
                        },
                    }
                }
            },
            None => {},
        }
        k += 1;
    }
    None
}

/// A static import for an extracted specifier.
fn php_import(path: Option<String>, line: &str, line_num: usize) -> (r: Option<ImportInfo>)
    ensures
        r matches Some(i) ==> static_import(
            match path {
                Some(p) => Some(p@),
                None => None,
            },
            line_num as int,
            line@,
        ) == Some(i@),
        r is None ==> path is None,
{
    match path {
        Some(p) => Some(
            ImportInfo {
                import_path: p,
                line_number: line_num,
                line_content: string_from(&chars_of(line)),
                import_type: ImportType::Static,
            },
        ),
        None => None,
    }
}

/// An import for a `use function const NAME;` line.
pub fn parse_php_use(line: &str, line_num: usize) -> (r: Option<ImportInfo>)
    ensures
        r matches Some(i) ==> static_import(spec_php_use_path(line@), line_num as int, line@) == Some(
            i@,
        ),
        r is None ==> spec_php_use_path(line@) is None,
{
    php_import(extract_php_use_path(line), line, line_num)
}

/// An import for a `require` line.
pub fn parse_php_require(line: &str, line_num: usize) -> (r: Option<ImportInfo>)
    ensures
        r matches Some(i) ==> static_import(spec_php_file_path(line@), line_num as int, line@)
            == Some(i@),
        r is None ==> spec_php_file_path(line@) is None,
{
    php_import(extract_php_file_path(line), line, line_num)
}

/// An import for an `include` line.
pub fn parse_php_include(line: &str, line_num: usize) -> (r: Option<ImportInfo>)
    ensures
        r matches Some(i) ==> static_import(spec_php_file_path(line@), line_num as int, line@)
            == Some(i@),
        r is None ==> spec_php_file_path(line@) is None,
{
    php_import(extract_php_file_path(line), line, line_num)
}

// ---------------------------------------------------------------------------
// Analysis
// ---------------------------------------------------------------------------

fn push_opt(v: &mut Vec<ImportInfo>, o: Option<ImportInfo>, ghost_o: Ghost<Option<ImportView>>)
    requires
        o matches Some(i) ==> ghost_o@ == Some(i@),
        o is None ==> ghost_o@ is None,
    ensures
        import_views(final(v)@) == import_views(old(v)@) + opt_seq(ghost_o@),
{
    match o {
        Some(i) => {
            v.push(i);
            proof {
                assert(import_views(v@) =~= import_views(old(v)@) + seq![i@]);
            }
        },
        None => {
            proof {
                assert(import_views(v@) =~= import_views(old(v)@) + Seq::<ImportView>::empty());
            }
        },
    }
}

/// The imports on one trimmed, non-comment line numbered `n`.
pub fn php_line_imports_of(t: &Vec<char>, n: usize) -> (r: Vec<ImportInfo>)
    ensures
        import_views(r@) == php_line_imports(t@, n as int),
{
    let ts = string_from(t);
    let line = ts.as_str();
    let mut out: Vec<ImportInfo> = Vec::new();
    proof {
        assert(import_views(out@) =~= Seq::<ImportView>::empty());
    }
    if starts_with(t, &v_use()) && contains_char(t, '\\') {
        push_opt(&mut out, parse_php_use(line, n), Ghost(static_import(spec_php_use_path(t@), n as int, t@)));
    }
    if starts_with(t, &v_require()) || starts_with(t, &v_require_once()) {
        push_opt(&mut out, parse_php_require(line, n), Ghost(static_import(spec_php_file_path(t@), n as int, t@)));
    }
    if starts_with(t, &v_include()) || starts_with(t, &v_include_once()) {
        push_opt(&mut out, parse_php_include(line, n), Ghost(static_import(spec_php_file_path(t@), n as int, t@)));
    }
    proof {
        assert(import_views(out@) =~= php_line_imports(t@, n as int));
    }
    out
}

/// `use`, `require` and `include` statements of a PHP source, line by line;
/// lines starting with `//`, `#` or `/*` are skipped.
pub fn analyze_php_imports(source: &str) -> (r: Vec<ImportInfo>)
    requires
        source@.len() < usize::MAX,
    ensures
        import_views(r@) == spec_php_imports(source@),
{
    let s = chars_of(source);
    let ls = lines(&s);
    let ghost sl = spec_lines(source@);
    proof {
        lemma_lines_len(source@);
    }
    let mut imports: Vec<ImportInfo> = Vec::new();
    proof {
        assert(import_views(imports@) =~= Seq::<ImportView>::empty());
    }
    let mut k: usize = 0;
    while k < ls.len()
        invariant
            0 <= k <= ls.len(),
            ls@.len() == sl.len(),
            sl.len() < usize::MAX,
            sl == spec_lines(source@),
            forall|m: int| 0 <= m < ls@.len() ==> #[trigger] ls@[m]@ == sl[m],
            import_views(imports@) == php_imports_of_lines(sl, k as int),
        decreases ls.len() - k,
    {
        let t = trim(&ls[k]);
        proof {
            assert(ls@[k as int]@ == sl[k as int]);
        }
        let ghost before = import_views(imports@);
        if !(starts_with(&t, &v_comment()) || starts_with(&t, &v_hash()) || starts_with(&t, &v_block())) {
            let mut line_imps = php_line_imports_of(&t, k + 1);
            imports.append(&mut line_imps);
            proof {
                assert(import_views(imports@) =~= before + php_line_imports(t@, k + 1));
            }
        } else {
            proof {
                assert(import_views(imports@) =~= before + Seq::<ImportView>::empty());
            }
        }
        k += 1;
    }
    imports
}

/// `use function const NAME;` references of a PHP source, line by line;
/// lines starting with `//` or `#` are skipped.
pub fn analyze_php_references(source: &str) -> (r: Vec<ReferenceInfo>)
    requires
        source@.len() < usize::MAX,
    ensures
        reference_views(r@) == spec_php_refs(source@),
{
    let s = chars_of(source);
    let ls = lines(&s);
    let ghost sl = spec_lines(source@);
    proof {
        lemma_lines_len(source@);
    }
    let mut refs: Vec<ReferenceInfo> = Vec::new();
    proof {
        assert(reference_views(refs@) =~= Seq::<ReferenceView>::empty());
    }
    let mut k: usize = 0;
    while k < ls.len()
        invariant
            0 <= k <= ls.len(),
            ls@.len() == sl.len(),
            sl.len() < usize::MAX,
            sl == spec_lines(source@),
            forall|m: int| 0 <= m < ls@.len() ==> #[trigger] ls@[m]@ == sl[m],
            reference_views(refs@) == php_refs_of_lines(sl, k as int),
        decreases ls.len() - k,
    {
        let t = trim(&ls[k]);
        proof {
            assert(ls@[k as int]@ == sl[k as int]);
        }
        let ghost before = reference_views(refs@);
        if !(starts_with(&t, &v_comment()) || starts_with(&t, &v_hash())) && starts_with(&t, &v_use()) {
            let ts = string_from(&t);
            match extract_php_use_path(ts.as_str()) {
                Some(p) => {
                    refs.push(
                        ReferenceInfo {
                            text: p,
                            line_number: k + 1,
                            line_content: string_from(&ls[k]),
                            ref_type: ReferenceType::Import,
                        },
                    );
                    proof {
                        assert(reference_views(refs@) =~= php_refs_of_lines(sl, k + 1));
                    }
                },
                None => {
                    proof {
                        assert(reference_views(refs@) =~= php_refs_of_lines(sl, k + 1));
                    }
                },
            }
        } else {
            proof {
                assert(reference_views(refs@) =~= php_refs_of_lines(sl, k + 1));
            }
        }
        k += 1;
    }
    refs
}

} // verus!
