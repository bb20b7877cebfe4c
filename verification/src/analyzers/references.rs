//! Resolution of relative references against the file that makes them, and
//! the existence test that tells a broken reference from a good one.
use vstd::prelude::*;
use crate::config::strings_view;
use crate::context::RepoContext;
use crate::scanner::reference_scanner::{edge_views, is_target, ReferenceGraph};
use crate::paths::{file_name, join_parts, join_segs, parent, path_segments, spec_file_name, spec_parent, spec_segs};
use crate::text::{
    chars_of, contains, lemma_rfind_bounds, rfind_in, slice_vec, spec_contains, spec_lowercase,
    spec_rfind, spec_trim_end_pat, string_from, to_lowercase, trim_end_pat,
};

verus! {

// ---------------------------------------------------------------------------
// Resolution
// ---------------------------------------------------------------------------

/// `str::split('/')`: every piece between separators, empty pieces included.
pub open spec fn split_slash(s: Seq<char>) -> Seq<Seq<char>>
    decreases s.len(),
{
    if s.len() == 0 {
        seq![Seq::empty()]
    } else {
        let init = split_slash(s.drop_last());
        if s.last() == '/' {
            init.push(Seq::empty())
        } else {
            init.update(init.len() - 1, init.last().push(s.last()))
        }
    }
}

/// One piece applied to the stack of kept pieces: empty and `.` pieces are
/// skipped, `..` drops the last kept piece (if any), any other piece is kept.
pub open spec fn resolve_step(stack: Seq<Seq<char>>, piece: Seq<char>) -> Seq<Seq<char>> {
    if piece.len() == 0 || piece == seq!['.'] {
        stack
    } else if piece == seq!['.', '.'] {
        if stack.len() > 0 {
            stack.drop_last()
        } else {
            stack
        }
    } else {
        stack.push(piece)
    }
}

/// The pieces kept after applying all of `pieces`, left to right.
pub open spec fn resolve_pieces(pieces: Seq<Seq<char>>) -> Seq<Seq<char>>
    decreases pieces.len(),
{
    if pieces.len() == 0 {
        Seq::empty()
    } else {
        resolve_step(resolve_pieces(pieces.drop_last()), pieces.last())
    }
}

/// `reference` resolved against the directory `from_dir`: the pieces of
/// `from_dir/reference` with `.`, empty pieces and `..` applied, joined by `/`.
pub open spec fn spec_resolve_gen(from_dir: Seq<char>, reference: Seq<char>) -> Seq<char> {
    join_segs(resolve_pieces(split_slash(from_dir + seq!['/'] + reference)))
}

/// The parent directory of a path, or the empty path where it has none.
pub open spec fn parent_or_empty(p: Seq<char>) -> Seq<char> {
    match spec_parent(p) {
        Some(d) => d,
        None => Seq::empty(),
    }
}

/// `reference` resolved against the directory of the file `from_file`.
pub open spec fn spec_resolve_relative(from_file: Seq<char>, reference: Seq<char>) -> Seq<char> {
    spec_resolve_gen(parent_or_empty(from_file), reference)
}

pub proof fn lemma_split_slash_len(s: Seq<char>)
    ensures
        split_slash(s).len() >= 1,
    decreases s.len(),
{
    if s.len() > 0 {
        lemma_split_slash_len(s.drop_last());
    }
}

/// A piece that resolution keeps as it is: not empty, not `.` or `..`, and
/// without a separator.
pub open spec fn plain_piece(p: Seq<char>) -> bool {
    p.len() > 0 && p != seq!['.'] && p != seq!['.', '.'] && !p.contains('/')
}

/// A text without a separator splits into itself.
pub proof fn lemma_split_no_slash(s: Seq<char>)
    requires
        !s.contains('/'),
    ensures
        split_slash(s) == seq![s],
    decreases s.len(),
{
    if s.len() > 0 {
        let d = s.drop_last();
        assert forall|i: int| 0 <= i < d.len() implies d[i] != '/' by {
            assert(s[i] != '/');
        }
        lemma_split_no_slash(d);
        assert(s[s.len() - 1] != '/');
        assert(d.push(s.last()) =~= s);
        assert(split_slash(s) =~= seq![s]);
    } else {
        assert(s =~= Seq::<char>::empty());
    }
}

/// Splitting at a separator splits each side.
pub proof fn lemma_split_concat(a: Seq<char>, b: Seq<char>)
    ensures
        split_slash(a + seq!['/'] + b) == split_slash(a) + split_slash(b),
    decreases b.len(),
{
    lemma_split_slash_len(a);
    lemma_split_slash_len(b);
    let s = a + seq!['/'] + b;
    if b.len() == 0 {
        assert(s.drop_last() =~= a);
        assert(split_slash(s) =~= split_slash(a) + split_slash(b));
    } else {
        assert(s.drop_last() =~= a + seq!['/'] + b.drop_last());
        lemma_split_concat(a, b.drop_last());
        lemma_split_slash_len(b.drop_last());
        assert(s.last() == b.last());
        assert(split_slash(s) =~= split_slash(a) + split_slash(b));
    }
}

/// Pieces without separators, joined by `/`, split back into themselves.
pub proof fn lemma_split_join(p: Seq<Seq<char>>)
    requires
        p.len() >= 1,
        forall|k: int| 0 <= k < p.len() ==> !(#[trigger] p[k]).contains('/'),
    ensures
        split_slash(join_segs(p)) == p,
    decreases p.len(),
{
    if p.len() == 1 {
        lemma_split_no_slash(p[0]);
        assert(seq![p[0]] =~= p);
    } else {
        let d = p.drop_last();
        assert forall|k: int| 0 <= k < d.len() implies !(#[trigger] d[k]).contains('/') by {
            assert(d[k] == p[k]);
        }
        lemma_split_join(d);
        lemma_split_concat(join_segs(d), p.last());
        lemma_split_no_slash(p[p.len() - 1]);
        assert(d + seq![p.last()] =~= p);
    }
}

/// Resolving one more piece is one more step.
pub proof fn lemma_resolve_push(p: Seq<Seq<char>>, x: Seq<char>)
    ensures
        resolve_pieces(p.push(x)) == resolve_step(resolve_pieces(p), x),
{
    assert(p.push(x).drop_last() =~= p);
}

/// Plain pieces after others are kept as they are.
pub proof fn lemma_resolve_plain(p: Seq<Seq<char>>, q: Seq<Seq<char>>)
    requires
        forall|k: int| 0 <= k < q.len() ==> plain_piece(#[trigger] q[k]),
    ensures
        resolve_pieces(p + q) == resolve_pieces(p) + q,
    decreases q.len(),
{
    if q.len() == 0 {
        assert(p + q =~= p);
        assert(resolve_pieces(p) + q =~= resolve_pieces(p));
    } else {
        let d = q.drop_last();
        assert forall|k: int| 0 <= k < d.len() implies plain_piece(#[trigger] d[k]) by {
            assert(d[k] == q[k]);
        }
        lemma_resolve_plain(p, d);
        assert(p + q =~= (p + d).push(q.last()));
        lemma_resolve_push(p + d, q.last());
        assert(plain_piece(q[q.len() - 1]));
        assert((resolve_pieces(p) + d).push(q.last()) =~= resolve_pieces(p) + q);
    }
}

/// `n` parent pieces drop the last `n` kept pieces.
pub proof fn lemma_resolve_ups(p: Seq<Seq<char>>, n: int)
    requires
        0 <= n <= resolve_pieces(p).len(),
    ensures
        resolve_pieces(p + Seq::new(n as nat, |i: int| seq!['.', '.'])) == resolve_pieces(p).take(
            resolve_pieces(p).len() - n,
        ),
    decreases n,
{
    let r = resolve_pieces(p);
    if n == 0 {
        assert(p + Seq::new(0, |i: int| seq!['.', '.']) =~= p);
        assert(r.take(r.len() as int) =~= r);
    } else {
        lemma_resolve_ups(p, n - 1);
        let prev = p + Seq::new((n - 1) as nat, |i: int| seq!['.', '.']);
        assert(p + Seq::new(n as nat, |i: int| seq!['.', '.']) =~= prev.push(seq!['.', '.']));
        lemma_resolve_push(prev, seq!['.', '.']);
        assert(seq!['.', '.'].len() == 2);
        assert(r.take(r.len() - n + 1).drop_last() =~= r.take(r.len() - n));
    }
}

/// The views of a vector of character vectors.
pub open spec fn vviews(v: Seq<Vec<char>>) -> Seq<Seq<char>> {
    v.map_values(|x: Vec<char>| x@)
}

/// Applies one piece to the stack of kept pieces.
fn push_piece(stack: &mut Vec<Vec<char>>, piece: Vec<char>)
    ensures
        vviews(final(stack)@) == resolve_step(vviews(old(stack)@), piece@),
{
    let ghost old_view = vviews(stack@);
    if piece.len() == 0 || (piece.len() == 1 && piece[0] == '.') {
        proof {
            if piece.len() == 1 {
                assert(piece@ =~= seq!['.']);
            }
        }
        return;
    }
    proof {
        assert(piece@ != seq!['.']);
    }
    if piece.len() == 2 && piece[0] == '.' && piece[1] == '.' {
        proof {
            assert(piece@ =~= seq!['.', '.']);
        }
        if stack.len() > 0 {
            stack.pop();
            proof {
                assert(vviews(stack@) =~= old_view.drop_last());
            }
        }
        return;
    }
    proof {
        assert(piece@ != seq!['.', '.']);
    }
    let ghost pv = piece@;
    stack.push(piece);
    proof {
        assert(vviews(stack@) =~= old_view.push(pv));
    }
}

/// `reference` resolved against the directory `from_dir`.
pub fn resolve_relative_gen(from_dir: &str, reference: &str) -> (r: String)
    ensures
        r@ == spec_resolve_gen(from_dir@, reference@),
{
    let mut combined = chars_of(from_dir);
    combined.push('/');
    let mut rest = chars_of(reference);
    combined.append(&mut rest);
    let ghost full = combined@;
    proof {
        assert(full =~= from_dir@ + seq!['/'] + reference@);
    }
    let mut stack: Vec<Vec<char>> = Vec::new();
    let mut cur: Vec<char> = Vec::new();
    let ghost mut done: Seq<Seq<char>> = Seq::empty();
    let mut i: usize = 0;
    proof {
        assert(full.take(0) =~= Seq::<char>::empty());
        assert(split_slash(full.take(0)) =~= done.push(cur@));
        assert(vviews(stack@) =~= Seq::<Seq<char>>::empty());
    }
    while i < combined.len()
        invariant
            i <= combined.len(),
            combined@ == full,
            split_slash(full.take(i as int)) == done.push(cur@),
            vviews(stack@) == resolve_pieces(done),
        decreases combined.len() - i,
    {
        let ch = combined[i];
        proof {
            let t = full.take(i + 1);
            assert(t.drop_last() =~= full.take(i as int));
            assert(t.last() == ch);
        }
        if ch == '/' {
            let ghost piece = cur@;
            let ghost old_done = done;
            push_piece(&mut stack, cur);
            cur = Vec::new();
            proof {
                done = done.push(piece);
                assert(done.drop_last() =~= old_done);
                assert(split_slash(full.take(i + 1)) =~= done.push(cur@));
            }
        } else {
            let ghost before = cur@;
            cur.push(ch);
            proof {
                let init = done.push(before);
                assert(split_slash(full.take(i + 1)) == init.update(init.len() - 1, init.last().push(ch)));
                assert(split_slash(full.take(i + 1)) =~= done.push(cur@));
            }
        }
        i += 1;
    }
    let ghost last = cur@;
    push_piece(&mut stack, cur);
    proof {
        assert(full.take(full.len() as int) =~= full);
        assert(done.push(last).drop_last() =~= done);
        assert(resolve_pieces(split_slash(full)) == resolve_step(resolve_pieces(done), last));
    }
    let joined = join_parts(&stack);
    string_from(&joined)
}

/// `reference` resolved against the directory of the file `from_file`.
pub fn resolve_relative(from_file: &str, reference: &str) -> (r: String)
    ensures
        r@ == spec_resolve_relative(from_file@, reference@),
{
    let dir = match parent(&chars_of(from_file)) {
        Some(d) => string_from(&d),
        None => String::new(),
    };
    resolve_relative_gen(dir.as_str(), reference)
}

// ---------------------------------------------------------------------------
// Existence
// ---------------------------------------------------------------------------

/// The extensions tried after a reference that names no existing path.
pub open spec fn source_exts() -> Seq<Seq<char>> {
    seq!["ts"@, "tsx"@, "js"@, "jsx"@, "php"@, "json"@, "css"@, "scss"@]
}

/// The path `c` with `.<ext>` appended.
pub open spec fn ext_candidate(c: Seq<char>, ext: Seq<char>) -> Seq<char> {
    c + "."@ + ext
}

/// The directory-index file `index.<ext>` under the path `c`.
pub open spec fn index_candidate(c: Seq<char>, ext: Seq<char>) -> Seq<char> {
    c + "/index."@ + ext
}

/// A resolved reference names something in the repository: the path itself
/// (trailing separators removed), the path with one of the source
/// extensions appended, or a directory holding `index.ts`, `index.tsx`, `index.js`
/// or `index.jsx`.
pub open spec fn spec_might_exist(ctx: RepoContext, resolved: Seq<char>) -> bool {
    let c = spec_trim_end_pat(resolved, seq!['/']);
    ||| ctx.exists_rel(c)
    ||| exists|k: int| 0 <= k < 8 && #[trigger] ctx.exists_rel(ext_candidate(c, source_exts()[k]))
    ||| exists|k: int| 0 <= k < 4 && #[trigger] ctx.exists_rel(index_candidate(c, source_exts()[k]))
}

/// Law: a resolved reference names something in the repository exactly
/// when, with trailing `/` removed, it exists itself, or with `.` and one of
/// `ts`, `tsx`, `js`, `jsx`, `php`, `json`, `css`, `scss` appended, or as a
/// directory holding `index.ts`, `index.tsx`, `index.js` or `index.jsx`.
pub proof fn law_might_exist(ctx: RepoContext, resolved: Seq<char>)
    ensures
        spec_might_exist(ctx, resolved) <==> {
            let c = spec_trim_end_pat(resolved, seq!['/']);
            let with = |e: Seq<char>| ctx.exists_rel(c + "."@ + e);
            let index = |e: Seq<char>| ctx.exists_rel(c + "/index."@ + e);
            ||| ctx.exists_rel(c)
            ||| with("ts"@) || with("tsx"@) || with("js"@) || with("jsx"@)
            ||| with("php"@) || with("json"@) || with("css"@) || with("scss"@)
            ||| index("ts"@) || index("tsx"@) || index("js"@) || index("jsx"@)
        },
{
    let c = spec_trim_end_pat(resolved, seq!['/']);
    let x = source_exts();
    assert(x[0] == "ts"@ && x[1] == "tsx"@ && x[2] == "js"@ && x[3] == "jsx"@);
    assert(x[4] == "php"@ && x[5] == "json"@ && x[6] == "css"@ && x[7] == "scss"@);
    assert forall|k: int| 0 <= k < 8 implies #[trigger] ext_candidate(c, x[k]) == c + "."@ + x[k] by {}
    assert forall|k: int| 0 <= k < 4 implies #[trigger] index_candidate(c, x[k]) == c + "/index."@ + x[k] by {}
    if ctx.exists_rel(c + "."@ + "ts"@) { assert(ctx.exists_rel(ext_candidate(c, x[0]))); }
    if ctx.exists_rel(c + "."@ + "tsx"@) { assert(ctx.exists_rel(ext_candidate(c, x[1]))); }
    if ctx.exists_rel(c + "."@ + "js"@) { assert(ctx.exists_rel(ext_candidate(c, x[2]))); }
    if ctx.exists_rel(c + "."@ + "jsx"@) { assert(ctx.exists_rel(ext_candidate(c, x[3]))); }
    if ctx.exists_rel(c + "."@ + "php"@) { assert(ctx.exists_rel(ext_candidate(c, x[4]))); }
    if ctx.exists_rel(c + "."@ + "json"@) { assert(ctx.exists_rel(ext_candidate(c, x[5]))); }
    if ctx.exists_rel(c + "."@ + "css"@) { assert(ctx.exists_rel(ext_candidate(c, x[6]))); }
    if ctx.exists_rel(c + "."@ + "scss"@) { assert(ctx.exists_rel(ext_candidate(c, x[7]))); }
    if ctx.exists_rel(c + "/index."@ + "ts"@) { assert(ctx.exists_rel(index_candidate(c, x[0]))); }
    if ctx.exists_rel(c + "/index."@ + "tsx"@) { assert(ctx.exists_rel(index_candidate(c, x[1]))); }
    if ctx.exists_rel(c + "/index."@ + "js"@) { assert(ctx.exists_rel(index_candidate(c, x[2]))); }
    if ctx.exists_rel(c + "/index."@ + "jsx"@) { assert(ctx.exists_rel(index_candidate(c, x[3]))); }
}

/// The source extensions as vectors.
fn source_ext_list() -> (r: Vec<Vec<char>>)
    ensures
        vviews(r@) == source_exts(),
{
    let mut r: Vec<Vec<char>> = Vec::new();
    r.push(chars_of("ts"));
    r.push(chars_of("tsx"));
    r.push(chars_of("js"));
    r.push(chars_of("jsx"));
    r.push(chars_of("php"));
    r.push(chars_of("json"));
    r.push(chars_of("css"));
    r.push(chars_of("scss"));
    proof {
        assert(vviews(r@) =~= source_exts());
    }
    r
}

/// Whether a resolved reference names something in the repository.
pub fn might_exist(ctx: &RepoContext, resolved: &str) -> (r: bool)
    ensures
        r == spec_might_exist(*ctx, resolved@),
{
    let slash = vec!['/'];
    proof {
        assert(slash@ =~= seq!['/']);
    }
    let c = trim_end_pat(&chars_of(resolved), &slash);
    if ctx.entry_exists(&c) {
        return true;
    }
    let exts = source_ext_list();
    proof {
        assert(source_exts().len() == 8);
        assert(vviews(exts@).len() == exts@.len());
    }
    let mut k: usize = 0;
    while k < exts.len()
        invariant
            k <= exts.len(),
            exts@.len() == 8,
            c@ == spec_trim_end_pat(resolved@, seq!['/']),
            vviews(exts@) == source_exts(),
            forall|m: int| 0 <= m < k ==> !#[trigger] ctx.exists_rel(ext_candidate(c@, source_exts()[m])),
        decreases exts.len() - k,
    {
        proof {
            assert(exts@[k as int]@ == source_exts()[k as int]);
        }
        let mut cand = slice_vec(&c, 0, c.len());
        cand.push('.');
        let mut e = slice_vec(&exts[k], 0, exts[k].len());
        cand.append(&mut e);
        proof {
            reveal_strlit(".");
            assert(exts@[k as int]@ == source_exts()[k as int]);
            assert(cand@ =~= ext_candidate(c@, source_exts()[k as int]));
        }
        if ctx.entry_exists(&cand) {
            proof {
                assert(ctx.exists_rel(ext_candidate(c@, source_exts()[k as int])));
            }
            return true;
        }
        k += 1;
    }
    proof {
        assert(source_exts().len() == 8);
        assert(vviews(exts@).len() == exts@.len());
    }
    let prefix = chars_of("/index.");
    let mut k: usize = 0;
    while k < 4
        invariant
            k <= 4,
            exts@.len() == 8,
            c@ == spec_trim_end_pat(resolved@, seq!['/']),
            prefix@ == "/index."@,
            vviews(exts@) == source_exts(),
            forall|m: int| 0 <= m < k ==> !#[trigger] ctx.exists_rel(index_candidate(c@, source_exts()[m])),
        decreases 4 - k,
    {
        let mut cand = slice_vec(&c, 0, c.len());
        let mut p = slice_vec(&prefix, 0, prefix.len());
        let mut e = slice_vec(&exts[k], 0, exts[k].len());
        cand.append(&mut p);
        cand.append(&mut e);
        proof {
            assert(exts@[k as int]@ == source_exts()[k as int]);
            assert(cand@ =~= index_candidate(c@, source_exts()[k as int]));
        }
        if ctx.entry_exists(&cand) {
            proof {
                assert(ctx.exists_rel(index_candidate(c@, source_exts()[k as int])));
            }
            return true;
        }
        k += 1;
    }
    false
}

// ---------------------------------------------------------------------------
// Entry points
// ---------------------------------------------------------------------------

/// Name fragments that mark a file as an entry point, which nothing needs to
/// reference.
pub open spec fn entry_markers() -> Seq<Seq<char>> {
    seq![
        "index."@,
        "main."@,
        "app."@,
        "server."@,
        "worker."@,
        "config."@,
        "route"@,
        "middleware"@,
        "kernel"@,
        "serviceprovider"@,
        "controller"@,
    ]
}

/// The lowercased path contains one of the entry-point markers.
pub open spec fn spec_is_entry_point(path: Seq<char>) -> bool {
    exists|k: int| 0 <= k < 11 && #[trigger] spec_contains(spec_lowercase(path), entry_markers()[k])
}

/// Law: a path is an entry point exactly when its lowercase form contains
/// one of `index.`, `main.`, `app.`, `server.`, `worker.`, `config.`,
/// `route`, `middleware`, `kernel`, `serviceprovider` or `controller`.
pub proof fn law_entry_points(path: Seq<char>)
    ensures
        spec_is_entry_point(path) <==> {
            let l = spec_lowercase(path);
            ||| spec_contains(l, "index."@)
            ||| spec_contains(l, "main."@)
            ||| spec_contains(l, "app."@)
            ||| spec_contains(l, "server."@)
            ||| spec_contains(l, "worker."@)
            ||| spec_contains(l, "config."@)
            ||| spec_contains(l, "route"@)
            ||| spec_contains(l, "middleware"@)
            ||| spec_contains(l, "kernel"@)
            ||| spec_contains(l, "serviceprovider"@)
            ||| spec_contains(l, "controller"@)
        },
{
    let l = spec_lowercase(path);
    let m = entry_markers();
    assert(m[0] == "index."@ && m[1] == "main."@ && m[2] == "app."@ && m[3] == "server."@ && m[4] == "worker."@);
    assert(m[5] == "config."@ && m[6] == "route"@ && m[7] == "middleware"@ && m[8] == "kernel"@);
    assert(m[9] == "serviceprovider"@ && m[10] == "controller"@);
    if spec_contains(l, "index."@) { assert(spec_contains(l, m[0])); }
    if spec_contains(l, "main."@) { assert(spec_contains(l, m[1])); }
    if spec_contains(l, "app."@) { assert(spec_contains(l, m[2])); }
    if spec_contains(l, "server."@) { assert(spec_contains(l, m[3])); }
    if spec_contains(l, "worker."@) { assert(spec_contains(l, m[4])); }
    if spec_contains(l, "config."@) { assert(spec_contains(l, m[5])); }
    if spec_contains(l, "route"@) { assert(spec_contains(l, m[6])); }
    if spec_contains(l, "middleware"@) { assert(spec_contains(l, m[7])); }
    if spec_contains(l, "kernel"@) { assert(spec_contains(l, m[8])); }
    if spec_contains(l, "serviceprovider"@) { assert(spec_contains(l, m[9])); }
    if spec_contains(l, "controller"@) { assert(spec_contains(l, m[10])); }
}

fn entry_marker_list() -> (r: Vec<Vec<char>>)
    ensures
        vviews(r@) == entry_markers(),
{
    let mut r: Vec<Vec<char>> = Vec::new();
    r.push(chars_of("index."));
    r.push(chars_of("main."));
    r.push(chars_of("app."));
    r.push(chars_of("server."));
    r.push(chars_of("worker."));
    r.push(chars_of("config."));
    r.push(chars_of("route"));
    r.push(chars_of("middleware"));
    r.push(chars_of("kernel"));
    r.push(chars_of("serviceprovider"));
    r.push(chars_of("controller"));
    proof {
        assert(vviews(r@) =~= entry_markers());
    }
    r
}

/// Whether a path looks like an entry point (index, main, app, server,
/// worker, config, route, middleware, kernel, service provider or
/// controller), whatever its case.
pub fn is_entry_point(path: &str) -> (r: bool)
    ensures
        r == spec_is_entry_point(path@),
{
    let lower = chars_of(to_lowercase(path).as_str());
    let markers = entry_marker_list();
    proof {
        assert(entry_markers().len() == 11);
        assert(vviews(markers@).len() == markers@.len());
    }
    let mut k: usize = 0;
    while k < markers.len()
        invariant
            k <= markers.len(),
            markers@.len() == 11,
            lower@ == spec_lowercase(path@),
            vviews(markers@) == entry_markers(),
            forall|m: int| 0 <= m < k ==> !#[trigger] spec_contains(spec_lowercase(path@), entry_markers()[m]),
        decreases markers.len() - k,
    {
        proof {
            assert(markers@[k as int]@ == entry_markers()[k as int]);
        }
        if contains(&lower, &markers[k]) {
            proof {
                assert(spec_contains(spec_lowercase(path@), entry_markers()[k as int]));
            }
            return true;
        }
        k += 1;
    }
    false
}

// ---------------------------------------------------------------------------
// Unreferenced files and broken references
// ---------------------------------------------------------------------------

/// The first `k` files that nothing references and that are no entry point.
pub open spec fn unreferenced(files: Seq<Seq<char>>, edges: Seq<(Seq<char>, Seq<char>)>, k: int) -> Seq<Seq<char>>
    decreases k,
{
    if k <= 0 || k > files.len() {
        Seq::empty()
    } else {
        unreferenced(files, edges, k - 1) + if !is_target(edges, files[k - 1]) && !spec_is_entry_point(files[k - 1]) {
            seq![files[k - 1]]
        } else {
            Seq::empty()
        }
    }
}

/// The files of the graph, in order, that no reference points at and that
/// do not look like entry points.
pub fn find_unreferenced_files(graph: &ReferenceGraph) -> (r: Vec<String>)
    ensures
        strings_view(r@) == unreferenced(strings_view(graph.files@), edge_views(graph.references@), graph.files@.len() as int),
{
    let ghost fv = strings_view(graph.files@);
    let ghost ev = edge_views(graph.references@);
    let mut r: Vec<String> = Vec::new();
    let mut i: usize = 0;
    proof {
        assert(strings_view(r@) =~= Seq::<Seq<char>>::empty());
    }
    while i < graph.files.len()
        invariant
            i <= graph.files.len(),
            fv == strings_view(graph.files@),
            ev == edge_views(graph.references@),
            strings_view(r@) == unreferenced(fv, ev, i as int),
        decreases graph.files.len() - i,
    {
        let f = &graph.files[i];
        let ghost before = strings_view(r@);
        proof {
            assert(fv[i as int] == f@);
        }
        if !graph.is_referenced(f.as_str()) && !is_entry_point(f.as_str()) {
            r.push(f.clone());
            proof {
                assert(strings_view(r@) =~= before.push(f@));
            }
        } else {
            proof {
                assert(strings_view(r@) =~= before + Seq::<Seq<char>>::empty());
            }
        }
        i += 1;
    }
    r
}

/// A relative reference whose target cannot be found.
pub struct BrokenReference {
    pub from: String,
    pub reference: String,
    pub resolved: String,
}

/// The views of broken references: (from, reference, resolved).
pub open spec fn broken_views(v: Seq<BrokenReference>) -> Seq<(Seq<char>, Seq<char>, Seq<char>)> {
    v.map_values(|b: BrokenReference| (b.from@, b.reference@, b.resolved@))
}

/// The broken references among the first `k` graph references: those whose
/// text starts with `.` and whose resolution against the referring file
/// names nothing in the repository.
pub open spec fn broken_from(ctx: RepoContext, edges: Seq<(Seq<char>, Seq<char>)>, k: int) -> Seq<(Seq<char>, Seq<char>, Seq<char>)>
    decreases k,
{
    if k <= 0 || k > edges.len() {
        Seq::empty()
    } else {
        let (from, reference) = edges[k - 1];
        let resolved = spec_resolve_relative(from, reference);
        broken_from(ctx, edges, k - 1) + if reference.len() > 0 && reference[0] == '.' && !spec_might_exist(ctx, resolved) {
            seq![(from, reference, resolved)]
        } else {
            Seq::empty()
        }
    }
}

/// The relative references of the graph, in order, that resolve to nothing
/// in the repository.
pub fn find_broken_references(ctx: &RepoContext, graph: &ReferenceGraph) -> (r: Vec<BrokenReference>)
    ensures
        broken_views(r@) == broken_from(*ctx, edge_views(graph.references@), graph.references@.len() as int),
{
    let ghost ev = edge_views(graph.references@);
    let mut r: Vec<BrokenReference> = Vec::new();
    let mut i: usize = 0;
    proof {
        assert(broken_views(r@) =~= Seq::<(Seq<char>, Seq<char>, Seq<char>)>::empty());
    }
    while i < graph.references.len()
        invariant
            i <= graph.references.len(),
            ev == edge_views(graph.references@),
            broken_views(r@) == broken_from(*ctx, ev, i as int),
        decreases graph.references.len() - i,
    {
        let (from, reference) = (&graph.references[i].0, &graph.references[i].1);
        let ghost before = broken_views(r@);
        proof {
            assert(ev[i as int] == (from@, reference@));
        }
        let rc = chars_of(reference.as_str());
        if rc.len() > 0 && rc[0] == '.' {
            let resolved = resolve_relative(from.as_str(), reference.as_str());
            if !might_exist(ctx, resolved.as_str()) {
                let ghost item = (from@, reference@, resolved@);
                r.push(BrokenReference { from: from.clone(), reference: reference.clone(), resolved });
                proof {
                    assert(broken_views(r@) =~= before.push(item));
                }
            } else {
                proof {
                    assert(broken_views(r@) =~= before + Seq::<(Seq<char>, Seq<char>, Seq<char>)>::empty());
                }
            }
        } else {
            proof {
                assert(broken_views(r@) =~= before + Seq::<(Seq<char>, Seq<char>, Seq<char>)>::empty());
            }
        }
        i += 1;
    }
    r
}

} // verus!
