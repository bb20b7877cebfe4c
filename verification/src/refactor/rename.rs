//! Renames: the plan of a file or directory move and of the relative
//! specifiers that have to follow it.
use vstd::prelude::*;
use crate::analyzers::references::{
    lemma_resolve_plain, lemma_resolve_ups, lemma_split_concat, lemma_split_join, lemma_split_no_slash,
    parent_or_empty, plain_piece, resolve_pieces, spec_resolve_gen, spec_resolve_relative, split_slash, vviews,
};
use crate::context::RepoContext;
use crate::error::RefactorError;
use crate::languages::opt_seq;
use crate::paths::{
    components, file_name, join_parts, join_path, join_segs, normalize_slashes, parent,
    has_cur_dir, is_rooted, lemma_seg_texts_plain, path_starts_with, seg_texts, spec_components,
    spec_file_name, spec_join, spec_normalize_slashes, spec_path_starts_with, spec_strip_prefix,
};
use crate::refactor::matching::{regex_escape, regex_replace, regex_replaced, regex_valid, spec_regex_escape};
use crate::scanner::LoadedFile;
use crate::output::{line_views, out_blank, out_heading, out_info, same_settings, wrote, LineKind, Output};
use crate::text::{decimal, spec_decimal};
use crate::text::{
    chars_of, concat, ends_with, lemma_count_bound, replace_all, seq_eq, slice_vec, spec_count,
    spec_ends_with, str_eq, string_from,
};

verus! {

/// A file whose references to the renamed path have to be rewritten.
pub struct AffectedFile {
    pub path: String,
    pub relative: String,
    pub reference_count: usize,
    pub old_specifier: String,
    pub new_specifier: String,
}

/// The plan of a rename.
pub struct RenamePlan {
    pub source: String,
    pub destination: String,
    pub source_relative: String,
    pub dest_relative: String,
    pub affected_files: Vec<AffectedFile>,
    pub references_to_update: usize,
}

/// The mathematical value of an [`AffectedFile`].
pub struct AffectedView {
    pub path: Seq<char>,
    pub relative: Seq<char>,
    pub count: nat,
    pub old_specifier: Seq<char>,
    pub new_specifier: Seq<char>,
}

/// The view of an affected file.
pub open spec fn affected_view(a: AffectedFile) -> AffectedView {
    AffectedView {
        path: a.path@,
        relative: a.relative@,
        count: a.reference_count as nat,
        old_specifier: a.old_specifier@,
        new_specifier: a.new_specifier@,
    }
}

/// The views of affected files.
pub open spec fn affected_views(v: Seq<AffectedFile>) -> Seq<AffectedView> {
    v.map_values(|a: AffectedFile| affected_view(a))
}

// ---------------------------------------------------------------------------
// Specifiers
// ---------------------------------------------------------------------------

/// The source extensions a module specifier leaves out.
pub open spec fn module_exts() -> Seq<Seq<char>> {
    seq!["tsx"@, "ts"@, "jsx"@, "js"@, "mjs"@, "cjs"@]
}

/// The first module extension, from index `k` on, that ends `name` after a dot.
pub open spec fn first_ext_from(name: Seq<char>, k: int) -> Option<int>
    decreases 6 - k,
{
    if k < 0 || k >= 6 {
        None
    } else if module_exts()[k].len() + 1 <= name.len() && spec_ends_with(name, seq!['.'] + module_exts()[k]) {
        Some(k)
    } else {
        first_ext_from(name, k + 1)
    }
}

/// A relative path without the module extension of its file name (`tsx`,
/// `ts`, `jsx`, `js`, `mjs`, `cjs`, first match wins); the path itself when
/// its name has none.
pub open spec fn spec_strip_source_ext(rel: Seq<char>) -> Seq<char> {
    match spec_file_name(rel) {
        None => rel,
        Some(name) => match first_ext_from(name, 0) {
            None => rel,
            Some(k) => {
                let stripped = name.take(name.len() - (module_exts()[k].len() + 1));
                let base = parent_or_empty(rel);
                (if base.len() == 0 {
                    Seq::empty()
                } else {
                    base + seq!['/']
                }) + stripped
            },
        },
    }
}

/// `e` is one of the module extensions `tsx`, `ts`, `jsx`, `js`, `mjs`,
/// `cjs`.
pub open spec fn is_module_ext(e: Seq<char>) -> bool {
    e == "tsx"@ || e == "ts"@ || e == "jsx"@ || e == "js"@ || e == "mjs"@ || e == "cjs"@
}

/// The directory part of a path, with its `/`, as a module specifier keeps
/// it: empty where the path has no parent.
pub open spec fn dir_prefix(rel: Seq<char>) -> Seq<char> {
    let b = parent_or_empty(rel);
    if b.len() == 0 {
        Seq::empty()
    } else {
        b + seq!['/']
    }
}

/// Two endings of one text: the shorter is the tail of the longer.
proof fn lemma_suffix_of_suffix(n: Seq<char>, p1: Seq<char>, p2: Seq<char>)
    requires
        spec_ends_with(n, p1),
        spec_ends_with(n, p2),
        p1.len() <= p2.len(),
    ensures
        p2.skip(p2.len() - p1.len()) == p1,
{
    let l = n.len() as int;
    assert(n.subrange(l - p2.len(), l) == p2);
    assert(n.subrange(l - p1.len(), l) == p1);
    assert(p2.skip(p2.len() - p1.len()) =~= n.subrange(l - p1.len(), l));
}

/// No text ends with two different module extensions after a dot.
proof fn lemma_module_suffix_unique(n: Seq<char>, e: Seq<char>, f: Seq<char>)
    requires
        is_module_ext(e),
        is_module_ext(f),
        spec_ends_with(n, seq!['.'] + e),
        spec_ends_with(n, seq!['.'] + f),
    ensures
        e == f,
    decreases 0int,
{
    reveal_strlit("tsx");
    reveal_strlit("ts");
    reveal_strlit("jsx");
    reveal_strlit("js");
    reveal_strlit("mjs");
    reveal_strlit("cjs");
    assert(!e.contains('.') && !f.contains('.'));
    let p1 = seq!['.'] + e;
    let p2 = seq!['.'] + f;
    if e.len() <= f.len() {
        lemma_suffix_of_suffix(n, p1, p2);
        let d = f.len() - e.len();
        assert(p2.skip(d)[0] == p1[0]);
        if d > 0 {
            assert(p2[d] == f[d - 1]);
            assert(f.contains(f[d - 1]));
        }
        assert(e =~= p1.skip(1));
        assert(f =~= p2.skip(1));
    } else {
        lemma_suffix_of_suffix(n, p2, p1);
        let d = e.len() - f.len();
        assert(p1.skip(d)[0] == p2[0]);
        assert(p1[d] == e[d - 1]);
        assert(e.contains(e[d - 1]));
    }
}

/// The search over the module extensions finds the one that ends `name`.
proof fn lemma_first_ext_found(name: Seq<char>, k: int, ke: int)
    requires
        0 <= k <= ke < 6,
        spec_ends_with(name, seq!['.'] + module_exts()[ke]),
    ensures
        first_ext_from(name, k) == Some(ke),
    decreases ke - k,
{
    let m = module_exts();
    assert(is_module_ext(m[0]) && is_module_ext(m[1]) && is_module_ext(m[2]) && is_module_ext(m[3])
        && is_module_ext(m[4]) && is_module_ext(m[5]));
    reveal_strlit("tsx");
    reveal_strlit("ts");
    reveal_strlit("jsx");
    reveal_strlit("js");
    reveal_strlit("mjs");
    reveal_strlit("cjs");
    assert("tsx"@ =~= seq!['t', 's', 'x']);
    assert("ts"@ =~= seq!['t', 's']);
    assert("jsx"@ =~= seq!['j', 's', 'x']);
    assert("js"@ =~= seq!['j', 's']);
    assert("mjs"@ =~= seq!['m', 'j', 's']);
    assert("cjs"@ =~= seq!['c', 'j', 's']);
    assert(m[0].len() == 3 && m[1].len() == 2 && m[2].len() == 3 && m[3].len() == 2 && m[4].len() == 3 && m[5].len() == 3);
    assert(m[0][0] == 't' && m[1][0] == 't' && m[2][0] == 'j' && m[3][0] == 'j' && m[4][0] == 'm' && m[5][0] == 'c');
    assert forall|i: int, j: int| 0 <= i < j < 6 implies m[i] != m[j] by {
        if m[i] == m[j] {
            assert(m[i].len() == m[j].len() && m[i][0] == m[j][0]);
        }
    }
    if m[k].len() + 1 <= name.len() && spec_ends_with(name, seq!['.'] + m[k]) {
        lemma_module_suffix_unique(name, m[k], m[ke]);
    } else if k < ke {
        lemma_first_ext_found(name, k + 1, ke);
    }
}

/// Law: a path whose file name ends with `.` and a module extension (`tsx`,
/// `ts`, `jsx`, `js`, `mjs`, `cjs`) loses exactly that ending: the result
/// followed by `.` and the extension is the path's directory part followed
/// by its file name.
pub proof fn law_strip_source_ext(rel: Seq<char>, e: Seq<char>)
    requires
        spec_file_name(rel) is Some,
        is_module_ext(e),
        spec_ends_with(spec_file_name(rel)->0, seq!['.'] + e),
    ensures
        spec_strip_source_ext(rel) + seq!['.'] + e == dir_prefix(rel) + spec_file_name(rel)->0,
{
    let name = spec_file_name(rel)->0;
    let m = module_exts();
    reveal_strlit("tsx");
    reveal_strlit("ts");
    reveal_strlit("jsx");
    reveal_strlit("js");
    reveal_strlit("mjs");
    reveal_strlit("cjs");
    let ke: int = if e == m[0] {
        0
    } else if e == m[1] {
        1
    } else if e == m[2] {
        2
    } else if e == m[3] {
        3
    } else if e == m[4] {
        4
    } else {
        5
    };
    assert(m[ke] == e);
    lemma_first_ext_found(name, 0, ke);
    let l = name.len() as int;
    let stripped = name.take(l - (e.len() + 1));
    let tail = name.subrange(l - (e.len() + 1), l);
    assert(tail == seq!['.'] + e);
    assert(name =~= stripped + tail);
    assert(stripped + seq!['.'] + e =~= stripped + tail);
    assert(spec_strip_source_ext(rel) == dir_prefix(rel) + stripped);
    assert(dir_prefix(rel) + stripped + seq!['.'] + e =~= dir_prefix(rel) + name);
}

/// Law: a path whose file name ends with no module extension after a dot
/// is kept as it is.
pub proof fn law_strip_source_ext_kept(rel: Seq<char>)
    requires
        forall|e: Seq<char>|
            is_module_ext(e) ==> !(spec_file_name(rel) matches Some(n) && spec_ends_with(n, seq!['.'] + e)),
    ensures
        spec_strip_source_ext(rel) == rel,
{
    match spec_file_name(rel) {
        None => {},
        Some(name) => {
            let m = module_exts();
            reveal_strlit("tsx");
            reveal_strlit("ts");
            reveal_strlit("jsx");
            reveal_strlit("js");
            reveal_strlit("mjs");
            reveal_strlit("cjs");
            assert(is_module_ext(m[0]) && is_module_ext(m[1]) && is_module_ext(m[2]) && is_module_ext(m[3])
                && is_module_ext(m[4]) && is_module_ext(m[5]));
            assert(!spec_ends_with(name, seq!['.'] + m[0]) && !spec_ends_with(name, seq!['.'] + m[1]));
            assert(!spec_ends_with(name, seq!['.'] + m[2]) && !spec_ends_with(name, seq!['.'] + m[3]));
            assert(!spec_ends_with(name, seq!['.'] + m[4]) && !spec_ends_with(name, seq!['.'] + m[5]));
            assert(first_ext_from(name, 6) is None);
            assert(first_ext_from(name, 5) is None);
            assert(first_ext_from(name, 4) is None);
            assert(first_ext_from(name, 3) is None);
            assert(first_ext_from(name, 2) is None);
            assert(first_ext_from(name, 1) is None);
            assert(first_ext_from(name, 0) is None);
        },
    }
}

/// The length of the common prefix of `a` and `b` from index `k` on.
pub open spec fn common_from(a: Seq<Seq<char>>, b: Seq<Seq<char>>, k: int) -> int
    decreases a.len() - k,
{
    if 0 <= k && k < a.len() && k < b.len() && a[k] == b[k] {
        common_from(a, b, k + 1)
    } else {
        k
    }
}

proof fn lemma_common_from(a: Seq<Seq<char>>, b: Seq<Seq<char>>, k: int)
    requires
        0 <= k <= a.len(),
        k <= b.len(),
    ensures
        k <= common_from(a, b, k) <= a.len(),
        common_from(a, b, k) <= b.len(),
        forall|m: int| k <= m < common_from(a, b, k) ==> a[m] == b[m],
        common_from(a, b, k) < a.len() && common_from(a, b, k) < b.len() ==> a[common_from(a, b, k)]
            != b[common_from(a, b, k)],
    decreases a.len() - k,
{
    if k < a.len() && k < b.len() && a[k] == b[k] {
        lemma_common_from(a, b, k + 1);
    }
}

/// `n` parent-directory components.
pub open spec fn dotdots(n: int) -> Seq<Seq<char>> {
    Seq::new(n as nat, |i: int| seq!['.', '.'])
}

/// The relative specifier from the directory `from_dir` to `target`: one
/// `..` per component of `from_dir` past the common prefix, then the rest of
/// `target`, joined by `/`; `.` when nothing remains. A specifier that does
/// not climb out of `from_dir` starts with `./`, one that does starts with
/// `..`.
pub open spec fn spec_pathdiff_rel(from_dir: Seq<char>, target: Seq<char>) -> Seq<char> {
    let f = spec_components(from_dir);
    let t = spec_components(target);
    let c = common_from(f, t, 0);
    let out = dotdots(f.len() - c) + t.skip(c);
    if out.len() == 0 {
        seq!['.']
    } else if c < f.len() {
        join_segs(out)
    } else {
        seq!['.', '/'] + join_segs(out)
    }
}

/// A relative path in normal form: no root, no leading `.` component, no
/// `..` component, and written as its components joined by single `/`.
pub open spec fn normal_relative(p: Seq<char>) -> bool {
    &&& !is_rooted(p)
    &&& !has_cur_dir(p)
    &&& p == join_segs(spec_components(p))
    &&& forall|k: int| 0 <= k < spec_components(p).len() ==> #[trigger] spec_components(p)[k] != seq!['.', '.']
}

proof fn lemma_normal_plain(p: Seq<char>)
    requires
        normal_relative(p),
    ensures
        spec_components(p) == seg_texts(p),
        forall|k: int| 0 <= k < spec_components(p).len() ==> plain_piece(#[trigger] spec_components(p)[k]),
{
    lemma_seg_texts_plain(p);
    assert forall|k: int| 0 <= k < spec_components(p).len() implies plain_piece(#[trigger] spec_components(p)[k]) by {
        assert(spec_components(p)[k] == seg_texts(p)[k]);
    }
}

/// The pieces of a normal relative path resolve to its components.
proof fn lemma_normal_resolves(p: Seq<char>)
    requires
        normal_relative(p),
    ensures
        resolve_pieces(split_slash(p)) == spec_components(p),
{
    let f = spec_components(p);
    lemma_normal_plain(p);
    if f.len() == 0 {
        assert(split_slash(p) =~= seq![Seq::<char>::empty()]);
        assert(seq![Seq::<char>::empty()] =~= Seq::<Seq<char>>::empty().push(Seq::empty()));
        lemma_resolve_push_empty();
    } else {
        lemma_split_join(f);
        lemma_resolve_plain(Seq::empty(), f);
        assert(Seq::<Seq<char>>::empty() + f =~= f);
    }
}

proof fn lemma_resolve_push_empty()
    ensures
        resolve_pieces(seq![Seq::<char>::empty()]) == Seq::<Seq<char>>::empty(),
{
    let one = seq![Seq::<char>::empty()];
    assert(one.drop_last() =~= Seq::<Seq<char>>::empty());
    assert(resolve_pieces(Seq::<Seq<char>>::empty()) == Seq::<Seq<char>>::empty());
    assert(one.last().len() == 0);
    assert(resolve_pieces(one) == crate::analyzers::references::resolve_step(resolve_pieces(one.drop_last()), one.last()));
}

/// Law: the relative specifier written from a directory to a target
/// resolves, from that directory, back to the target, for relative paths
/// in normal form. (A rename rewrites each import with such a specifier.)
pub proof fn law_relative_specifier_resolves(from_dir: Seq<char>, target: Seq<char>)
    requires
        normal_relative(from_dir),
        normal_relative(target),
    ensures
        spec_resolve_gen(from_dir, spec_pathdiff_rel(from_dir, target)) == target,
{
    let f = spec_components(from_dir);
    let t = spec_components(target);
    lemma_normal_plain(from_dir);
    lemma_normal_plain(target);
    lemma_common_from(f, t, 0);
    let c = common_from(f, t, 0);
    let k = f.len() - c;
    let ups = dotdots(k);
    let out = ups + t.skip(c);
    lemma_normal_resolves(from_dir);
    let fp = split_slash(from_dir);
    assert(f.take(c) =~= t.take(c));
    assert(t.take(c) + t.skip(c) =~= t);
    if out.len() == 0 {
        assert(t.len() == c);
        assert(t =~= f);
        lemma_split_concat(from_dir, seq!['.']);
        lemma_split_no_slash(seq!['.']);
        assert(from_dir + seq!['/'] + seq!['.'] == from_dir + seq!['/'] + spec_pathdiff_rel(from_dir, target));
        let all = fp + seq![seq!['.']];
        assert(all =~= fp.push(seq!['.']));
        crate::analyzers::references::lemma_resolve_push(fp, seq!['.']);
    } else if k > 0 {
        let rest = join_segs(out);
        assert(spec_pathdiff_rel(from_dir, target) == rest);
        assert forall|m: int| 0 <= m < out.len() implies !(#[trigger] out[m]).contains('/') by {
            if m < k {
                assert(out[m] == seq!['.', '.']);
                assert(seq!['.', '.'][0] != '/' && seq!['.', '.'][1] != '/');
            } else {
                assert(out[m] == t[c + m - k]);
                assert(plain_piece(t[c + m - k]));
            }
        }
        lemma_split_join(out);
        lemma_split_concat(from_dir, rest);
        let pieces = fp + out;
        assert(split_slash(from_dir + seq!['/'] + rest) == pieces);
        lemma_resolve_ups(fp, k);
        assert(ups =~= Seq::new(k as nat, |i: int| seq!['.', '.']));
        let rest_t = t.skip(c);
        assert forall|m: int| 0 <= m < rest_t.len() implies plain_piece(#[trigger] rest_t[m]) by {
            assert(rest_t[m] == t[c + m]);
        }
        lemma_resolve_plain(fp + ups, rest_t);
        assert(pieces =~= (fp + ups) + rest_t);
        assert(resolve_pieces(pieces) =~= t);
    } else {
        let rest = seq!['.'] + seq!['/'] + join_segs(out);
        assert(spec_pathdiff_rel(from_dir, target) =~= rest);
        assert forall|m: int| 0 <= m < out.len() implies !(#[trigger] out[m]).contains('/') by {
            if m < k {
                assert(out[m] == seq!['.', '.']);
                assert(seq!['.', '.'][0] != '/' && seq!['.', '.'][1] != '/');
            } else {
                assert(out[m] == t[c + m - k]);
                assert(plain_piece(t[c + m - k]));
            }
        }
        lemma_split_join(out);
        lemma_split_concat(seq!['.'], join_segs(out));
        lemma_split_no_slash(seq!['.']);
        lemma_split_concat(from_dir, rest);
        let pieces = fp + (seq![seq!['.']] + out);
        assert(split_slash(from_dir + seq!['/'] + rest) == pieces);
        let p0 = fp.push(seq!['.']);
        crate::analyzers::references::lemma_resolve_push(fp, seq!['.']);
        assert(resolve_pieces(p0) == f);
        lemma_resolve_ups(p0, k);
        assert(ups =~= Seq::new(k as nat, |i: int| seq!['.', '.']));
        let rest_t = t.skip(c);
        assert forall|m: int| 0 <= m < rest_t.len() implies plain_piece(#[trigger] rest_t[m]) by {
            assert(rest_t[m] == t[c + m]);
        }
        lemma_resolve_plain(p0 + ups, rest_t);
        assert(pieces =~= (p0 + ups) + rest_t);
        assert(resolve_pieces(pieces) =~= t);
    }
}

/// The texts looked for in a file: the source without its extension, the
/// source, and the relative specifier, each once where neighbours repeat.
pub open spec fn spec_unique_candidates(src: Seq<char>, src_noext: Seq<char>, rel: Seq<char>) -> Seq<Seq<char>> {
    let a = seq![src_noext];
    let b = if src != src_noext {
        a.push(src)
    } else {
        a
    };
    if rel != b.last() {
        b.push(rel)
    } else {
        b
    }
}

fn module_ext_list() -> (r: Vec<Vec<char>>)
    ensures
        vviews(r@) == module_exts(),
{
    let mut r: Vec<Vec<char>> = Vec::new();
    r.push(chars_of("tsx"));
    r.push(chars_of("ts"));
    r.push(chars_of("jsx"));
    r.push(chars_of("js"));
    r.push(chars_of("mjs"));
    r.push(chars_of("cjs"));
    proof {
        assert(vviews(r@) =~= module_exts());
    }
    r
}

/// A relative path without the module extension of its file name.
pub fn strip_source_ext(rel: &str) -> (r: String)
    ensures
        r@ == spec_strip_source_ext(rel@),
{
    let rc = chars_of(rel);
    let name = match file_name(&rc) {
        None => {
            return string_from(&rc);
        },
        Some(n) => n,
    };
    let exts = module_ext_list();
    proof {
        assert(module_exts().len() == 6);
        assert(vviews(exts@).len() == exts@.len());
    }
    let mut k: usize = 0;
    while k < 6
        invariant
            k <= 6,
            exts@.len() == 6,
            vviews(exts@) == module_exts(),
            rc@ == rel@,
            spec_file_name(rel@) == Some(name@),
            first_ext_from(name@, k as int) == first_ext_from(name@, 0),
        decreases 6 - k,
    {
        let mut suffix = vec!['.'];
        let mut e = slice_vec(&exts[k], 0, exts[k].len());
        suffix.append(&mut e);
        proof {
            assert(exts@[k as int]@ == module_exts()[k as int]);
            assert(suffix@ =~= seq!['.'] + module_exts()[k as int]);
        }
        if suffix.len() <= name.len() && ends_with(&name, &suffix) {
            let stripped = slice_vec(&name, 0, name.len() - suffix.len());
            let base = match parent(&rc) {
                Some(b) => b,
                None => Vec::new(),
            };
            let mut out: Vec<char> = Vec::new();
            if base.len() > 0 {
                out = slice_vec(&base, 0, base.len());
                out.push('/');
            }
            let mut st = stripped;
            out.append(&mut st);
            proof {
                assert(stripped@ =~= name@.take(name@.len() - (module_exts()[k as int].len() + 1)));
                assert(base@ == parent_or_empty(rel@));
                if base@.len() > 0 {
                    assert(out@ =~= base@ + seq!['/'] + stripped@);
                } else {
                    assert(out@ =~= Seq::<char>::empty() + stripped@);
                }
            }
            return string_from(&out);
        }
        k += 1;
    }
    string_from(&rc)
}

/// The relative specifier from the directory `from_dir` to `target`.
pub fn pathdiff_rel(from_dir: &str, target: &str) -> (r: String)
    ensures
        r@ == spec_pathdiff_rel(from_dir@, target@),
{
    let f = components(&chars_of(from_dir));
    let t = components(&chars_of(target));
    let ghost fv = spec_components(from_dir@);
    let ghost tv = spec_components(target@);
    proof {
        assert(vviews(f@) =~= fv);
        assert(vviews(t@) =~= tv);
        lemma_common_from(fv, tv, 0);
    }
    let mut c: usize = 0;
    while c < f.len() && c < t.len() && seq_eq(&f[c], &t[c])
        invariant
            c <= f.len(),
            c <= t.len(),
            vviews(f@) == fv,
            vviews(t@) == tv,
            common_from(fv, tv, c as int) == common_from(fv, tv, 0),
        decreases f.len() - c,
    {
        proof {
            assert(fv[c as int] == f@[c as int]@);
            assert(tv[c as int] == t@[c as int]@);
        }
        c += 1;
    }
    proof {
        if c < f.len() && c < t.len() {
            assert(fv[c as int] == f@[c as int]@);
            assert(tv[c as int] == t@[c as int]@);
        }
        assert(common_from(fv, tv, c as int) == c);
    }
    let mut out: Vec<Vec<char>> = Vec::new();
    let mut k = c;
    while k < f.len()
        invariant
            c <= k <= f.len(),
            vviews(out@) == dotdots(k - c),
        decreases f.len() - k,
    {
        let ghost before = vviews(out@);
        let dd = vec!['.', '.'];
        proof {
            assert(dd@ =~= seq!['.', '.']);
        }
        out.push(dd);
        proof {
            assert(vviews(out@) =~= before.push(seq!['.', '.']));
            assert(vviews(out@) =~= dotdots(k + 1 - c));
        }
        k += 1;
    }
    let mut k = c;
    while k < t.len()
        invariant
            c <= k <= t.len(),
            vviews(t@) == tv,
            vviews(out@) == dotdots(f.len() - c) + tv.subrange(c as int, k as int),
        decreases t.len() - k,
    {
        let ghost before = vviews(out@);
        let piece = slice_vec(&t[k], 0, t[k].len());
        proof {
            assert(t@[k as int]@.subrange(0, t@[k as int]@.len() as int) =~= t@[k as int]@);
            assert(tv[k as int] == t@[k as int]@);
            assert(piece@ == tv[k as int]);
        }
        out.push(piece);
        proof {
            assert(vviews(out@) =~= before.push(tv[k as int]));
            assert(vviews(out@) =~= dotdots(f.len() - c) + tv.subrange(c as int, k + 1));
        }
        k += 1;
    }
    proof {
        assert(tv.subrange(c as int, tv.len() as int) =~= tv.skip(c as int));
    }
    if out.len() == 0 {
        let r = vec!['.'];
        proof {
            assert(r@ =~= seq!['.']);
        }
        return string_from(&r);
    }
    if c < f.len() {
        let body = join_parts(&out);
        return string_from(&body);
    }
    let mut r = vec!['.', '/'];
    let mut body = join_parts(&out);
    r.append(&mut body);
    proof {
        assert(r@ =~= seq!['.', '/'] + join_segs(vviews(out@)));
    }
    string_from(&r)
}

/// The relative specifier from the directory `from_dir` to `target`.
pub fn relative_specifier(from_dir: &str, target: &str) -> (r: String)
    ensures
        r@ == spec_pathdiff_rel(from_dir@, target@),
{
    pathdiff_rel(from_dir, target)
}

/// The texts looked for in a file that may refer to the renamed path.
pub fn unique_candidates(src: &str, src_noext: &str, rel: &str) -> (r: Vec<String>)
    ensures
        crate::config::strings_view(r@) == spec_unique_candidates(src@, src_noext@, rel@),
{
    let mut out: Vec<String> = Vec::new();
    out.push(string_from(&chars_of(src_noext)));
    if !str_eq(src, src_noext) {
        out.push(string_from(&chars_of(src)));
    }
    let last = out.len() - 1;
    if !str_eq(rel, out[last].as_str()) {
        out.push(string_from(&chars_of(rel)));
    }
    proof {
        assert(crate::config::strings_view(out@) =~= spec_unique_candidates(src@, src_noext@, rel@));
    }
    out
}

/// Number of occurrences of `pattern` in `content`.
pub fn count_references(content: &str, pattern: &str) -> (r: usize)
    requires
        content@.len() + 1 < usize::MAX,
    ensures
        r as nat == spec_count(content@, pattern@),
{
    let (_, n) = replace_all(&chars_of(content), &chars_of(pattern), &Vec::new());
    n
}

// ---------------------------------------------------------------------------
// Rewriting specifiers
// ---------------------------------------------------------------------------

/// `"$"` doubled, so that a replacement text is inserted literally.
pub open spec fn escape_dollars(s: Seq<char>) -> Seq<char>
    decreases s.len(),
{
    if s.len() == 0 {
        Seq::empty()
    } else {
        escape_dollars(s.drop_last()) + if s.last() == '$' {
            seq!['$', '$']
        } else {
            seq![s.last()]
        }
    }
}

/// The pattern of a quoted specifier `old`: an opening quote, `old`
/// literally, and a closing quote, `;`, space, tab or newline.
pub open spec fn specifier_pattern(old: Seq<char>) -> Seq<char> {
    "([\"'])"@ + spec_regex_escape(old) + "([\"'; \\t\\n])"@
}

/// The replacement that keeps both delimiters around `new`.
pub open spec fn specifier_replacement(new: Seq<char>) -> Seq<char> {
    "${1}"@ + escape_dollars(new) + "${2}"@
}

/// `s` with every `$` doubled.
fn dollars_escaped(s: &str) -> (r: String)
    ensures
        r@ == escape_dollars(s@),
{
    let cs = chars_of(s);
    let mut out = String::new();
    let mut i: usize = 0;
    proof {
        assert(cs@.take(0) =~= Seq::<char>::empty());
    }
    while i < cs.len()
        invariant
            i <= cs.len(),
            cs@ == s@,
            out@ == escape_dollars(cs@.take(i as int)),
        decreases cs.len() - i,
    {
        proof {
            assert(cs@.take(i + 1).drop_last() =~= cs@.take(i as int));
        }
        if cs[i] == '$' {
            crate::text::push_char(&mut out, '$');
        }
        crate::text::push_char(&mut out, cs[i]);
        proof {
            assert(out@ =~= escape_dollars(cs@.take(i + 1)));
        }
        i += 1;
    }
    proof {
        assert(cs@.take(cs@.len() as int) =~= cs@);
    }
    out
}

/// `content` with every quoted specifier `old` (opened by a quote and closed
/// by a quote, `;`, space, tab or newline) rewritten to `new`, the
/// delimiters kept; `None` if the pattern is refused.
pub fn replace_path_specifiers(content: &str, old: &str, new: &str) -> (r: Option<String>)
    ensures
        r is Some <==> regex_valid(specifier_pattern(old@)),
        r matches Some(s) ==> s@ == regex_replaced(specifier_pattern(old@), content@, specifier_replacement(new@)),
{
    let pattern = concat(concat("([\"'])", regex_escape(old).as_str()).as_str(), "([\"'; \\t\\n])");
    let rep = concat(concat("${1}", dollars_escaped(new).as_str()).as_str(), "${2}");
    regex_replace(pattern.as_str(), content, rep.as_str())
}

/// The new content of an affected file, when rewriting its specifiers
/// changes it; `None` when nothing changes or the pattern is refused.
pub fn updated_content(content: &str, affected: &AffectedFile) -> (r: Option<String>)
    ensures
        r matches Some(s) ==> regex_valid(specifier_pattern(affected.old_specifier@)) && s@ == regex_replaced(
            specifier_pattern(affected.old_specifier@),
            content@,
            specifier_replacement(affected.new_specifier@),
        ) && s@ != content@,
        r is None ==> !regex_valid(specifier_pattern(affected.old_specifier@)) || regex_replaced(
            specifier_pattern(affected.old_specifier@),
            content@,
            specifier_replacement(affected.new_specifier@),
        ) == content@,
{
    match replace_path_specifiers(content, affected.old_specifier.as_str(), affected.new_specifier.as_str()) {
        Some(s) => {
            if str_eq(s.as_str(), content) {
                None
            } else {
                Some(s)
            }
        },
        None => None,
    }
}

// ---------------------------------------------------------------------------
// The plan
// ---------------------------------------------------------------------------

/// A path relative to the root, or the path itself where it is not under it.
pub open spec fn relative_or_self(ctx: RepoContext, p: Seq<char>) -> Seq<char> {
    match spec_strip_prefix(p, ctx.root@) {
        Some(r) => r,
        None => p,
    }
}

/// The occurrences of the first `k` candidates in `text`.
pub open spec fn sum_counts(text: Seq<char>, cands: Seq<Seq<char>>, k: int) -> nat
    decreases k,
{
    if k <= 0 || k > cands.len() {
        0
    } else {
        sum_counts(text, cands, k - 1) + spec_count(text, cands[k - 1])
    }
}

/// The entry of a loaded file when it refers to the renamed path: every
/// readable file but the source itself whose text holds one of the
/// candidates, with the specifiers from its directory to the source and to
/// the destination (both without module extension).
pub open spec fn affected_of(
    f: LoadedFile,
    source: Seq<char>,
    src_rel: Seq<char>,
    src_noext: Seq<char>,
    dst_noext: Seq<char>,
) -> Option<AffectedView> {
    if spec_components(f.entry.path@) == spec_components(source) {
        None
    } else {
        match f.text {
            None => None,
            Some(t) => {
                let from_dir = parent_or_empty(f.entry.relative@);
                let old_spec = spec_pathdiff_rel(from_dir, src_noext);
                let new_spec = spec_pathdiff_rel(from_dir, dst_noext);
                let cands = spec_unique_candidates(src_rel, src_noext, old_spec);
                let n = sum_counts(t@, cands, cands.len() as int);
                if n == 0 {
                    None
                } else {
                    Some(
                        AffectedView {
                            path: f.entry.path@,
                            relative: f.entry.relative@,
                            count: n,
                            old_specifier: old_spec,
                            new_specifier: new_spec,
                        },
                    )
                }
            },
        }
    }
}

/// The affected files among the first `k` loaded files, in order.
pub open spec fn affected_from(
    files: Seq<LoadedFile>,
    source: Seq<char>,
    src_rel: Seq<char>,
    src_noext: Seq<char>,
    dst_noext: Seq<char>,
    k: int,
) -> Seq<AffectedView>
    decreases k,
{
    if k <= 0 || k > files.len() {
        Seq::empty()
    } else {
        affected_from(files, source, src_rel, src_noext, dst_noext, k - 1) + opt_seq(
            affected_of(files[k - 1], source, src_rel, src_noext, dst_noext),
        )
    }
}

/// Every affected file carries the specifier from its directory to the
/// destination.
proof fn lemma_affected_targets(
    files: Seq<LoadedFile>,
    source: Seq<char>,
    src_rel: Seq<char>,
    src_noext: Seq<char>,
    dst_noext: Seq<char>,
    k: int,
)
    ensures
        forall|i: int|
            0 <= i < affected_from(files, source, src_rel, src_noext, dst_noext, k).len() ==> {
                let a = #[trigger] affected_from(files, source, src_rel, src_noext, dst_noext, k)[i];
                a.new_specifier == spec_pathdiff_rel(parent_or_empty(a.relative), dst_noext)
            },
    decreases k,
{
    if 0 < k <= files.len() {
        lemma_affected_targets(files, source, src_rel, src_noext, dst_noext, k - 1);
        let prev = affected_from(files, source, src_rel, src_noext, dst_noext, k - 1);
        let last = opt_seq(affected_of(files[k - 1], source, src_rel, src_noext, dst_noext));
        assert forall|i: int|
            0 <= i < affected_from(files, source, src_rel, src_noext, dst_noext, k).len() implies {
                let a = #[trigger] affected_from(files, source, src_rel, src_noext, dst_noext, k)[i];
                a.new_specifier == spec_pathdiff_rel(parent_or_empty(a.relative), dst_noext)
            } by {
            if i >= prev.len() {
                assert(affected_from(files, source, src_rel, src_noext, dst_noext, k)[i] == last[i - prev.len()]);
            } else {
                assert(affected_from(files, source, src_rel, src_noext, dst_noext, k)[i] == prev[i]);
            }
        }
    }
}

/// Law: in the plan of a rename, the new specifier of every affected file
/// resolves, from that file, to the destination without its module
/// extension, for relative paths in normal form.
pub proof fn law_rename_specifiers_resolve(
    files: Seq<LoadedFile>,
    source: Seq<char>,
    src_rel: Seq<char>,
    src_noext: Seq<char>,
    dst_noext: Seq<char>,
    k: int,
    i: int,
)
    requires
        0 <= i < affected_from(files, source, src_rel, src_noext, dst_noext, k).len(),
        normal_relative(parent_or_empty(affected_from(files, source, src_rel, src_noext, dst_noext, k)[i].relative)),
        normal_relative(dst_noext),
    ensures
        spec_resolve_relative(
            affected_from(files, source, src_rel, src_noext, dst_noext, k)[i].relative,
            affected_from(files, source, src_rel, src_noext, dst_noext, k)[i].new_specifier,
        ) == dst_noext,
{
    lemma_affected_targets(files, source, src_rel, src_noext, dst_noext, k);
    let a = affected_from(files, source, src_rel, src_noext, dst_noext, k)[i];
    law_relative_specifier_resolves(parent_or_empty(a.relative), dst_noext);
}

/// The reference counts of the affected files, summed and saturated at
/// `usize::MAX`.
pub open spec fn total_refs(v: Seq<AffectedView>) -> nat
    decreases v.len(),
{
    if v.len() == 0 {
        0
    } else {
        let t = total_refs(v.drop_last()) + v.last().count;
        if t > usize::MAX {
            usize::MAX as nat
        } else {
            t
        }
    }
}

/// The texts are small enough for their reference counts to add up.
pub open spec fn texts_countable(files: Seq<LoadedFile>) -> bool {
    forall|i: int|
        0 <= i < files.len() ==> ((#[trigger] files[i]).text matches Some(t) ==> 3 * (t@.len() + 1) < usize::MAX)
}

/// The source and destination of a rename: each path as given when absolute,
/// else under the root.
pub fn rename_paths(ctx: &RepoContext, old: &str, new: &str) -> (r: (String, String))
    ensures
        r.0@ == spec_join(ctx.root@, old@),
        r.1@ == spec_join(ctx.root@, new@),
{
    let root = chars_of(ctx.root.as_str());
    let source = string_from(&join_path(&root, &chars_of(old)));
    let destination = string_from(&join_path(&root, &chars_of(new)));
    (source, destination)
}

/// Whether two paths have the same components.
pub fn same_path(a: &str, b: &str) -> (r: bool)
    ensures
        r == (spec_components(a@) == spec_components(b@)),
{
    let ca = components(&chars_of(a));
    let cb = components(&chars_of(b));
    proof {
        assert(vviews(ca@) =~= spec_components(a@));
        assert(vviews(cb@) =~= spec_components(b@));
    }
    if ca.len() != cb.len() {
        return false;
    }
    let mut i: usize = 0;
    while i < ca.len()
        invariant
            i <= ca.len(),
            ca.len() == cb.len(),
            vviews(ca@) == spec_components(a@),
            vviews(cb@) == spec_components(b@),
            forall|m: int| 0 <= m < i ==> spec_components(a@)[m] == spec_components(b@)[m],
        decreases ca.len() - i,
    {
        proof {
            assert(spec_components(a@)[i as int] == ca@[i as int]@);
            assert(spec_components(b@)[i as int] == cb@[i as int]@);
        }
        if !seq_eq(&ca[i], &cb[i]) {
            return false;
        }
        i += 1;
    }
    proof {
        assert(spec_components(a@) =~= spec_components(b@));
    }
    true
}

/// A path relative to the root, or the path itself.
fn relative_or_self_of(ctx: &RepoContext, p: &str) -> (r: String)
    ensures
        r@ == relative_or_self(*ctx, p@),
{
    match ctx.relative_path(p) {
        Some(r) => r,
        None => string_from(&chars_of(p)),
    }
}

/// The entry of one loaded file, if it refers to the renamed path.
fn affected_file(
    f: &LoadedFile,
    source: &str,
    src_rel: &str,
    src_noext: &str,
    dst_noext: &str,
) -> (r: Option<AffectedFile>)
    requires
        f.text matches Some(t) ==> 3 * (t@.len() + 1) < usize::MAX,
    ensures
        r matches Some(a) ==> affected_of(*f, source@, src_rel@, src_noext@, dst_noext@) == Some(affected_view(a)),
        r is None ==> affected_of(*f, source@, src_rel@, src_noext@, dst_noext@) is None,
{
    if same_path(f.entry.path.as_str(), source) {
        return None;
    }
    let text = match &f.text {
        None => {
            return None;
        },
        Some(t) => t,
    };
    let from_dir = match parent(&chars_of(f.entry.relative.as_str())) {
        Some(d) => string_from(&d),
        None => String::new(),
    };
    let old_specifier = relative_specifier(from_dir.as_str(), src_noext);
    let new_specifier = relative_specifier(from_dir.as_str(), dst_noext);
    let cands = unique_candidates(src_rel, src_noext, old_specifier.as_str());
    let ghost cv = crate::config::strings_view(cands@);
    proof {
        assert(cv.len() <= 3);
    }
    let mut count: usize = 0;
    let mut k: usize = 0;
    while k < cands.len()
        invariant
            k <= cands.len(),
            cands@.len() <= 3,
            cv == crate::config::strings_view(cands@),
            3 * (text@.len() + 1) < usize::MAX,
            count == sum_counts(text@, cv, k as int),
            count <= k * (text@.len() + 1),
        decreases cands.len() - k,
    {
        proof {
            lemma_count_bound(text@, cv[k as int]);
            assert(cv[k as int] == cands@[k as int]@);
        }
        let n = count_references(text.as_str(), cands[k].as_str());
        proof {
            assert((k + 1) * (text@.len() + 1) == k * (text@.len() + 1) + (text@.len() + 1)) by (nonlinear_arith);
            assert(k * (text@.len() + 1) <= 2 * (text@.len() + 1)) by (nonlinear_arith)
                requires
                    k <= 2,
            ;
        }
        count = count + n;
        k += 1;
    }
    if count == 0 {
        return None;
    }
    Some(
        AffectedFile {
            path: f.entry.path.clone(),
            relative: f.entry.relative.clone(),
            reference_count: count,
            old_specifier,
            new_specifier,
        },
    )
}

/// The plan of renaming `old` to `new` (each taken under the root unless
/// absolute), given whether the source and the destination exist: the
/// source must exist, the destination must not, and both must lie under the
/// root.  A missing source is a usage error (exit code 2), an existing
/// destination a conflict.  The plan lists every loaded file, in order, that refers to the
/// source, with the specifiers to rewrite.
pub fn plan_rename(
    ctx: &RepoContext,
    old: &str,
    new: &str,
    source_exists: bool,
    destination_exists: bool,
    files: &Vec<LoadedFile>,
) -> (r: Result<RenamePlan, RefactorError>)
    requires
        texts_countable(files@),
    ensures
        ({
            let source = spec_join(ctx.root@, old@);
            let destination = spec_join(ctx.root@, new@);
            let src_rel = spec_normalize_slashes(relative_or_self(*ctx, source));
            let dst_rel = spec_normalize_slashes(relative_or_self(*ctx, destination));
            &&& !source_exists ==> (r matches Err(RefactorError::PathSafety(m)) && m@
                == "Source path does not exist: "@ + source)
            &&& source_exists && destination_exists ==> (r matches Err(RefactorError::Conflict(m)) && m@
                == "Destination already exists: "@ + destination)
            &&& source_exists && !destination_exists && !spec_path_starts_with(source, ctx.root@) ==> (r matches Err(
                RefactorError::PathSafety(m),
            ) && m@ == "Source path is outside repository root: "@ + source)
            &&& source_exists && !destination_exists && spec_path_starts_with(source, ctx.root@)
                && !spec_path_starts_with(destination, ctx.root@) ==> (r matches Err(RefactorError::PathSafety(m))
                && m@ == "Destination path is outside repository root: "@ + destination)
            &&& source_exists && !destination_exists && spec_path_starts_with(source, ctx.root@)
                && spec_path_starts_with(destination, ctx.root@) ==> (r matches Ok(plan) && {
                &&& plan.source@ == source
                &&& plan.destination@ == destination
                &&& plan.source_relative@ == relative_or_self(*ctx, source)
                &&& plan.dest_relative@ == relative_or_self(*ctx, destination)
                &&& affected_views(plan.affected_files@) == affected_from(
                    files@,
                    source,
                    src_rel,
                    spec_strip_source_ext(src_rel),
                    spec_strip_source_ext(dst_rel),
                    files@.len() as int,
                )
                &&& plan.references_to_update == total_refs(affected_views(plan.affected_files@))
            })
        }),
{
    let (source, destination) = rename_paths(ctx, old, new);
    if !source_exists {
        return Err(RefactorError::PathSafety(concat("Source path does not exist: ", source.as_str())));
    }
    if destination_exists {
        return Err(RefactorError::Conflict(concat("Destination already exists: ", destination.as_str())));
    }
    if !ctx.is_in_root(source.as_str()) {
        return Err(
            RefactorError::PathSafety(concat("Source path is outside repository root: ", source.as_str())),
        );
    }
    if !ctx.is_in_root(destination.as_str()) {
        return Err(
            RefactorError::PathSafety(
                concat("Destination path is outside repository root: ", destination.as_str()),
            ),
        );
    }
    let source_relative = relative_or_self_of(ctx, source.as_str());
    let dest_relative = relative_or_self_of(ctx, destination.as_str());
    let source_rel = normalize_slashes(source_relative.as_str());
    let dest_rel = normalize_slashes(dest_relative.as_str());
    let source_rel_noext = strip_source_ext(source_rel.as_str());
    let dest_rel_noext = strip_source_ext(dest_rel.as_str());
    let ghost src = source@;
    let ghost sr = source_rel@;
    let ghost sn = source_rel_noext@;
    let ghost dn = dest_rel_noext@;
    let mut affected: Vec<AffectedFile> = Vec::new();
    let mut total: usize = 0;
    let mut i: usize = 0;
    proof {
        assert(affected_views(affected@) =~= Seq::<AffectedView>::empty());
    }
    while i < files.len()
        invariant
            i <= files.len(),
            texts_countable(files@),
            source@ == src,
            source_rel@ == sr,
            source_rel_noext@ == sn,
            dest_rel_noext@ == dn,
            affected_views(affected@) == affected_from(files@, src, sr, sn, dn, i as int),
            total == total_refs(affected_views(affected@)),
        decreases files.len() - i,
    {
        let ghost before = affected_views(affected@);
        proof {
            assert(files@[i as int] == files[i as int]);
        }
        match affected_file(&files[i], source.as_str(), source_rel.as_str(), source_rel_noext.as_str(), dest_rel_noext.as_str()) {
            Some(a) => {
                let n = a.reference_count;
                let ghost av = affected_view(a);
                affected.push(a);
                proof {
                    assert(affected_views(affected@) =~= before.push(av));
                    assert(affected_views(affected@).drop_last() =~= before);
                }
                total = total.saturating_add(n);
            },
            None => {
                proof {
                    assert(affected_views(affected@) =~= before + Seq::<AffectedView>::empty());
                }
            },
        }
        i += 1;
    }
    Ok(
        RenamePlan {
            source,
            destination,
            source_relative,
            dest_relative,
            affected_files: affected,
            references_to_update: total,
        },
    )
}

/// The lines of the first `k` affected files.
pub open spec fn affected_lines(o: Output, v: Seq<AffectedView>, k: int) -> Seq<(LineKind, Seq<char>)>
    decreases k,
{
    if k <= 0 || k > v.len() {
        Seq::empty()
    } else {
        affected_lines(o, v, k - 1) + out_info(o, "  "@ + v[k - 1].relative + " ("@ + spec_decimal(v[k - 1].count) + " references)"@)
    }
}

proof fn lemma_affected_settings(a: Output, b: Output, v: Seq<AffectedView>, k: int)
    requires
        same_settings(a, b),
    ensures
        affected_lines(a, v, k) == affected_lines(b, v, k),
    decreases k,
{
    if k > 0 && k <= v.len() {
        lemma_affected_settings(a, b, v, k - 1);
    }
}

/// What showing a rename plan writes.
pub open spec fn rename_plan_lines(o: Output, plan: RenamePlan, dry_run: bool) -> Seq<(LineKind, Seq<char>)> {
    let v = affected_views(plan.affected_files@);
    out_heading(o, if dry_run {
        "DRY RUN \u{2014} Rename"@
    } else {
        "Rename Plan"@
    }) + out_info(o, "Source:      "@ + plan.source_relative@) + out_info(o, "Destination: "@ + plan.dest_relative@) + out_blank(o)
        + out_info(o, "Affected files: "@ + spec_decimal(v.len())) + out_info(
        o,
        "References to update: "@ + spec_decimal(plan.references_to_update as nat),
    ) + (if v.len() > 0 {
        out_blank(o) + out_info(o, "Files to update:"@) + affected_lines(o, v, v.len() as int)
    } else {
        Seq::empty()
    }) + out_blank(o) + if dry_run {
        out_info(o, "No changes were made."@)
    } else {
        Seq::empty()
    }
}

fn write_affected(output: &mut Output, affected: &Vec<AffectedFile>)
    ensures
        wrote(*final(output), *old(output), affected_lines(*old(output), affected_views(affected@), affected@.len() as int)),
{
    let ghost v = affected_views(affected@);
    let ghost s1 = line_views(output.lines@);
    let ghost os = *output;
    let mut i: usize = 0;
    proof {
        assert(line_views(output.lines@) =~= s1 + affected_lines(os, v, 0));
    }
    while i < affected.len()
        invariant
            i <= affected.len(),
            v == affected_views(affected@),
            same_settings(*output, os),
            line_views(output.lines@) == s1 + affected_lines(os, v, i as int),
        decreases affected.len() - i,
    {
        let a = &affected[i];
        let line = concat(
            concat(concat(a.relative.as_str(), " (").as_str(), decimal(a.reference_count).as_str()).as_str(),
            " references)",
        );
        let full = concat("  ", line.as_str());
        output.line(full.as_str());
        proof {
            assert(v[i as int] == affected_view(*a));
            assert(full@ =~= "  "@ + v[i as int].relative + " ("@ + spec_decimal(v[i as int].count) + " references)"@);
            assert(line_views(output.lines@) =~= s1 + affected_lines(os, v, i + 1));
        }
        i += 1;
    }
}

/// Shows a rename plan: source, destination, counts, and the files to
/// update with their numbers of references.
pub fn show_rename_plan(output: &mut Output, plan: &RenamePlan, dry_run: bool)
    ensures
        wrote(*final(output), *old(output), rename_plan_lines(*old(output), *plan, dry_run)),
{
    let ghost o = *output;
    let ghost s0 = line_views(output.lines@);
    let ghost v = affected_views(plan.affected_files@);
    if dry_run {
        output.heading("DRY RUN \u{2014} Rename");
    } else {
        output.heading("Rename Plan");
    }
    output.info(concat("Source:      ", plan.source_relative.as_str()).as_str());
    output.info(concat("Destination: ", plan.dest_relative.as_str()).as_str());
    output.blank();
    output.info(concat("Affected files: ", decimal(plan.affected_files.len()).as_str()).as_str());
    output.info(concat("References to update: ", decimal(plan.references_to_update).as_str()).as_str());
    let ghost s1 = line_views(output.lines@);
    proof {
        assert(s1 =~= s0 + out_heading(o, if dry_run {
            "DRY RUN \u{2014} Rename"@
        } else {
            "Rename Plan"@
        }) + out_info(o, "Source:      "@ + plan.source_relative@) + out_info(o, "Destination: "@ + plan.dest_relative@) + out_blank(o)
            + out_info(o, "Affected files: "@ + spec_decimal(v.len())) + out_info(
            o,
            "References to update: "@ + spec_decimal(plan.references_to_update as nat),
        ));
    }
    if plan.affected_files.len() > 0 {
        output.blank();
        output.info("Files to update:");
        let ghost os = *output;
        write_affected(output, &plan.affected_files);
        proof {
            lemma_affected_settings(os, o, v, v.len() as int);
        }
    }
    output.blank();
    if dry_run {
        output.info("No changes were made.");
    }
    proof {
        assert(line_views(output.lines@) =~= s0 + rename_plan_lines(o, *plan, dry_run));
    }
}

} // verus!
