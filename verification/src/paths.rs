//! `/`-separated paths, read the way `std::path::Path` reads them on Unix:
//! an optional root `/` or leading `.` component, then the non-empty segments
//! between separators, with `.` segments dropped.  The functions here give
//! the component list, the file name, the extension, the parent, prefix
//! tests and prefix stripping of such paths.
use vstd::prelude::*;
use crate::text::{lemma_rfind_bounds, rfind_in, seq_eq, slice_vec, spec_rfind};

verus! {

// ---------------------------------------------------------------------------
// Specifications
// ---------------------------------------------------------------------------

/// The path begins with the root separator.
pub open spec fn is_rooted(s: Seq<char>) -> bool {
    s.len() > 0 && s[0] == '/'
}

/// The path is relative and begins with a `.` component (`./a`, `.`).
pub open spec fn has_cur_dir(s: Seq<char>) -> bool {
    s.len() > 0 && s[0] == '.' && (s.len() == 1 || s[1] == '/')
}

/// Index at which the segments of the path start.
pub open spec fn body_start(s: Seq<char>) -> int {
    if is_rooted(s) || has_cur_dir(s) {
        1
    } else {
        0
    }
}

/// End of the run of non-separator characters that starts at `i`.
pub open spec fn seg_end(s: Seq<char>, i: int) -> int
    decreases s.len() - i,
{
    if i < 0 || i >= s.len() || s[i] == '/' {
        i
    } else {
        seg_end(s, i + 1)
    }
}

pub proof fn lemma_seg_end(s: Seq<char>, i: int)
    requires
        0 <= i,
    ensures
        i <= seg_end(s, i) <= s.len() || (i > s.len() && seg_end(s, i) == i),
        i < s.len() && s[i] != '/' ==> i < seg_end(s, i),
        forall|k: int| i <= k < seg_end(s, i) ==> s[k] != '/',
        seg_end(s, i) < s.len() ==> s[seg_end(s, i)] == '/',
    decreases s.len() - i,
{
    if i < s.len() && s[i] != '/' {
        lemma_seg_end(s, i + 1);
    }
}

/// Bounds `(start, end)` of the segments of `s` from index `i` on, skipping
/// empty and `.` segments.
pub open spec fn segs_from(s: Seq<char>, i: int) -> Seq<(int, int)>
    decreases s.len() - i,
{
    if i < 0 || i >= s.len() {
        Seq::empty()
    } else if s[i] == '/' {
        segs_from(s, i + 1)
    } else {
        let e = seg_end(s, i);
        if e <= i || e > s.len() {
            Seq::empty()
        } else if e == i + 1 && s[i] == '.' {
            segs_from(s, e)
        } else {
            seq![(i, e)] + segs_from(s, e)
        }
    }
}

/// Bounds of the body segments of `s`.
pub open spec fn spec_segs(s: Seq<char>) -> Seq<(int, int)> {
    segs_from(s, body_start(s))
}

/// The text of a segment.
pub open spec fn seg_text(s: Seq<char>, b: (int, int)) -> Seq<char> {
    s.subrange(b.0, b.1)
}

/// The texts of the body segments of `s`.
pub open spec fn seg_texts(s: Seq<char>) -> Seq<Seq<char>> {
    spec_segs(s).map_values(|b: (int, int)| seg_text(s, b))
}

/// `Path::components`, each component as its text (`/` for the root and `.`
/// for a leading current-directory component).
pub open spec fn spec_components(s: Seq<char>) -> Seq<Seq<char>> {
    if is_rooted(s) {
        seq![seq!['/']] + seg_texts(s)
    } else if has_cur_dir(s) {
        seq![seq!['.']] + seg_texts(s)
    } else {
        seg_texts(s)
    }
}

/// `Path::file_name`.
pub open spec fn spec_file_name(s: Seq<char>) -> Option<Seq<char>> {
    let g = spec_segs(s);
    if g.len() == 0 {
        None
    } else if seg_text(s, g.last()) == seq!['.', '.'] {
        None
    } else {
        Some(seg_text(s, g.last()))
    }
}

/// `Path::extension`: the part of the file name after its last `.`, unless
/// that `.` is the first character of the name.
pub open spec fn spec_extension(s: Seq<char>) -> Option<Seq<char>> {
    match spec_file_name(s) {
        None => None,
        Some(f) => match spec_rfind(f, seq!['.']) {
            Some(i) => if i > 0 {
                Some(f.skip(i + 1))
            } else {
                None
            },
            None => None,
        },
    }
}

/// `Path::parent`, as text.
pub open spec fn spec_parent(s: Seq<char>) -> Option<Seq<char>> {
    let g = spec_segs(s);
    if g.len() == 0 {
        if has_cur_dir(s) {
            Some(Seq::empty())
        } else {
            None
        }
    } else if g.len() == 1 {
        Some(s.take(body_start(s)))
    } else {
        Some(s.take(g[g.len() - 2].1))
    }
}

/// `a` is a prefix of `b`, element by element.
pub open spec fn seq_prefix<T>(a: Seq<T>, b: Seq<T>) -> bool {
    a.len() <= b.len() && b.take(a.len() as int) == a
}

/// `Path::starts_with`: the components of `base` begin the components of `s`.
pub open spec fn spec_path_starts_with(s: Seq<char>, base: Seq<char>) -> bool {
    seq_prefix(spec_components(base), spec_components(s))
}

/// Number of leading components of `s` that are not body segments.
pub open spec fn lead_count(s: Seq<char>) -> int {
    if is_rooted(s) || has_cur_dir(s) {
        1
    } else {
        0
    }
}

/// `Path::strip_prefix`, as text: what follows the components of `base`,
/// without leading or trailing separators.
pub open spec fn spec_strip_prefix(s: Seq<char>, base: Seq<char>) -> Option<Seq<char>> {
    if !spec_path_starts_with(s, base) {
        None
    } else if spec_components(base).len() < lead_count(s) {
        let g = spec_segs(s);
        if g.len() > 0 {
            Some(s.take(g.last().1))
        } else {
            Some(s.take(body_start(s)))
        }
    } else {
        let k = spec_components(base).len() - lead_count(s);
        let g = spec_segs(s);
        if k >= g.len() {
            Some(Seq::empty())
        } else {
            Some(s.subrange(g[k].0, g.last().1))
        }
    }
}

/// The path `p` relative to a root as `Path::join` forms it: `p` itself when
/// it is absolute, else `p` after the root and a separator.
pub open spec fn spec_join(root: Seq<char>, p: Seq<char>) -> Seq<char> {
    if is_rooted(p) {
        p
    } else if root.len() > 0 && root.last() == '/' {
        root + p
    } else {
        root + seq!['/'] + p
    }
}

/// The body segments of a relative path joined by single separators; `None`
/// for an absolute path.
pub open spec fn spec_normalized(s: Seq<char>) -> Option<Seq<char>> {
    if is_rooted(s) {
        None
    } else {
        Some(join_segs(seg_texts(s)))
    }
}

/// Texts joined by `/`.
pub open spec fn join_segs(parts: Seq<Seq<char>>) -> Seq<char>
    decreases parts.len(),
{
    if parts.len() == 0 {
        Seq::empty()
    } else if parts.len() == 1 {
        parts[0]
    } else {
        join_segs(parts.drop_last()) + seq!['/'] + parts.last()
    }
}

// ---------------------------------------------------------------------------
// Lemmas
// ---------------------------------------------------------------------------

pub proof fn lemma_segs_from_valid(s: Seq<char>, i: int)
    requires
        0 <= i,
    ensures
        forall|k: int|
            0 <= k < segs_from(s, i).len() ==> {
                let b = #[trigger] segs_from(s, i)[k];
                &&& i <= b.0 < b.1 <= s.len()
            },
        forall|k: int, m: int|
            0 <= k < m < segs_from(s, i).len() ==> segs_from(s, i)[k].1 <= segs_from(s, i)[m].0,
    decreases s.len() - i,
{
    if i < 0 || i >= s.len() {
    } else if s[i] == '/' {
        lemma_segs_from_valid(s, i + 1);
        assert(segs_from(s, i) == segs_from(s, i + 1));
    } else {
        lemma_seg_end(s, i);
        let e = seg_end(s, i);
        lemma_segs_from_valid(s, e);
        if e <= i || e > s.len() {
        } else if e == i + 1 && s[i] == '.' {
            assert(segs_from(s, i) == segs_from(s, e));
        } else {
            let r = segs_from(s, e);
            assert(segs_from(s, i) == seq![(i, e)] + r);
            assert forall|k: int| 0 <= k < segs_from(s, i).len() implies {
                let b = #[trigger] segs_from(s, i)[k];
                &&& i <= b.0 < b.1 <= s.len()
            } by {
                if k > 0 {
                    assert(segs_from(s, i)[k] == r[k - 1]);
                }
            }
            assert forall|k: int, m: int|
                0 <= k < m < segs_from(s, i).len() implies segs_from(s, i)[k].1 <= segs_from(
                s,
                i,
            )[m].0 by {
                if k == 0 {
                    assert(segs_from(s, i)[m] == r[m - 1]);
                } else {
                    assert(segs_from(s, i)[k] == r[k - 1]);
                    assert(segs_from(s, i)[m] == r[m - 1]);
                }
            }
        }
    }
}

/// Every segment found from `i` on is non-empty, holds no separator, and is
/// not a lone `.`.
pub proof fn lemma_segs_from_plain(s: Seq<char>, i: int)
    requires
        0 <= i,
    ensures
        forall|k: int|
            0 <= k < segs_from(s, i).len() ==> {
                let b = #[trigger] segs_from(s, i)[k];
                &&& 0 <= b.0 < b.1 <= s.len()
                &&& forall|m: int| b.0 <= m < b.1 ==> s[m] != '/'
                &&& !(b.1 == b.0 + 1 && s[b.0] == '.')
            },
    decreases s.len() - i,
{
    if i < 0 || i >= s.len() {
    } else if s[i] == '/' {
        lemma_segs_from_plain(s, i + 1);
        assert(segs_from(s, i) == segs_from(s, i + 1));
    } else {
        lemma_seg_end(s, i);
        let e = seg_end(s, i);
        lemma_segs_from_plain(s, e);
        if e <= i || e > s.len() {
        } else if e == i + 1 && s[i] == '.' {
            assert(segs_from(s, i) == segs_from(s, e));
        } else {
            let r = segs_from(s, e);
            assert(segs_from(s, i) == seq![(i, e)] + r);
            assert forall|k: int| 0 <= k < segs_from(s, i).len() implies {
                let b = #[trigger] segs_from(s, i)[k];
                &&& 0 <= b.0 < b.1 <= s.len()
                &&& forall|m: int| b.0 <= m < b.1 ==> s[m] != '/'
                &&& !(b.1 == b.0 + 1 && s[b.0] == '.')
            } by {
                if k > 0 {
                    assert(segs_from(s, i)[k] == r[k - 1]);
                }
            }
        }
    }
}

/// The body segments of a path are non-empty, hold no separator, and are
/// not a lone `.`.
pub proof fn lemma_seg_texts_plain(s: Seq<char>)
    ensures
        forall|k: int|
            0 <= k < seg_texts(s).len() ==> {
                let t = #[trigger] seg_texts(s)[k];
                &&& t.len() > 0
                &&& !t.contains('/')
                &&& t != seq!['.']
            },
{
    lemma_segs_from_plain(s, body_start(s));
    assert forall|k: int| 0 <= k < seg_texts(s).len() implies {
        let t = #[trigger] seg_texts(s)[k];
        &&& t.len() > 0
        &&& !t.contains('/')
        &&& t != seq!['.']
    } by {
        let b = spec_segs(s)[k];
        let t = seg_texts(s)[k];
        assert(t == s.subrange(b.0, b.1));
        assert forall|m: int| 0 <= m < t.len() implies t[m] != '/' by {
            assert(t[m] == s[b.0 + m]);
        }
        if t == seq!['.'] {
            assert(t[0] == s[b.0]);
        }
    }
}

// ---------------------------------------------------------------------------
// Executable functions
// ---------------------------------------------------------------------------

/// Start of the body of the path `s`.
pub fn body_start_of(s: &Vec<char>) -> (r: usize)
    ensures
        r as int == body_start(s@),
{
    if s.len() > 0 && s[0] == '/' {
        1
    } else if s.len() > 0 && s[0] == '.' && (s.len() == 1 || s[1] == '/') {
        1
    } else {
        0
    }
}

/// Bounds of the body segments of the path `s`.
pub fn path_segments(s: &Vec<char>) -> (r: Vec<(usize, usize)>)
    ensures
        r@.len() == spec_segs(s@).len(),
        forall|k: int|
            0 <= k < r@.len() ==> (r@[k].0 as int, r@[k].1 as int) == #[trigger] spec_segs(s@)[k],
        forall|k: int| 0 <= k < r@.len() ==> #[trigger] r@[k].0 < r@[k].1 <= s@.len(),
{
    let start = body_start_of(s);
    let mut r: Vec<(usize, usize)> = Vec::new();
    let mut i = start;
    let ghost total = segs_from(s@, start as int);
    proof {
        lemma_segs_from_valid(s@, start as int);
    }
    while i < s.len()
        invariant
            start <= i <= s.len(),
            total == segs_from(s@, start as int),
            r@.len() + segs_from(s@, i as int).len() == total.len(),
            forall|k: int|
                0 <= k < r@.len() ==> (r@[k].0 as int, r@[k].1 as int) == #[trigger] total[k],
            forall|k: int|
                0 <= k < segs_from(s@, i as int).len() ==> segs_from(s@, i as int)[k] == total[r@.len()
                    + k],
            forall|k: int| 0 <= k < r@.len() ==> #[trigger] r@[k].0 < r@[k].1 <= s@.len(),
        decreases s.len() - i,
    {
        if s[i] == '/' {
            i += 1;
        } else {
            let mut e = i;
            while e < s.len() && s[e] != '/'
                invariant
                    i <= e <= s.len(),
                    seg_end(s@, i as int) == seg_end(s@, e as int),
                decreases s.len() - e,
            {
                e += 1;
            }
            proof {
                lemma_seg_end(s@, i as int);
            }
            if e == i + 1 && s[i] == '.' {
            } else {
                proof {
                    assert(segs_from(s@, i as int) == seq![(i as int, e as int)] + segs_from(
                        s@,
                        e as int,
                    ));
                    assert(segs_from(s@, i as int)[0] == (i as int, e as int));
                    assert(total[r@.len() as int] == (i as int, e as int));
                }
                r.push((i, e));
                proof {
                    assert forall|k: int|
                        0 <= k < segs_from(s@, e as int).len() implies segs_from(s@, e as int)[k]
                        == total[r@.len() + k] by {
                        assert(segs_from(s@, e as int)[k] == segs_from(s@, i as int)[k + 1]);
                    }
                }
            }
            i = e;
        }
    }
    r
}

/// The texts of the body segments of the path `s`.
pub fn segment_texts(s: &Vec<char>) -> (r: Vec<Vec<char>>)
    ensures
        r@.len() == seg_texts(s@).len(),
        forall|k: int| 0 <= k < r@.len() ==> #[trigger] r@[k]@ == seg_texts(s@)[k],
{
    let g = path_segments(s);
    let mut r: Vec<Vec<char>> = Vec::new();
    let mut k: usize = 0;
    while k < g.len()
        invariant
            0 <= k <= g.len(),
            g@.len() == spec_segs(s@).len(),
            forall|m: int|
                0 <= m < g@.len() ==> (g@[m].0 as int, g@[m].1 as int) == #[trigger] spec_segs(
                    s@,
                )[m],
            forall|m: int| 0 <= m < g@.len() ==> #[trigger] g@[m].0 < g@[m].1 <= s@.len(),
            r@.len() == k,
            forall|m: int| 0 <= m < k ==> #[trigger] r@[m]@ == seg_texts(s@)[m],
        decreases g.len() - k,
    {
        let (a, b) = g[k];
        proof {
            assert(spec_segs(s@)[k as int] == (a as int, b as int));
        }
        r.push(slice_vec(s, a, b));
        k += 1;
    }
    r
}

/// `Path::components`, each as text.
pub fn components(s: &Vec<char>) -> (r: Vec<Vec<char>>)
    ensures
        r@.len() == spec_components(s@).len(),
        forall|k: int| 0 <= k < r@.len() ==> #[trigger] r@[k]@ == spec_components(s@)[k],
{
    let texts = segment_texts(s);
    let mut r: Vec<Vec<char>> = Vec::new();
    let ghost lead: Seq<Seq<char>>;
    if s.len() > 0 && s[0] == '/' {
        r.push(vec!['/']);
        proof {
            lead = seq![seq!['/']];
        }
    } else if s.len() > 0 && s[0] == '.' && (s.len() == 1 || s[1] == '/') {
        r.push(vec!['.']);
        proof {
            lead = seq![seq!['.']];
        }
    } else {
        proof {
            lead = Seq::empty();
        }
    }
    proof {
        assert(spec_components(s@) =~= lead + seg_texts(s@));
        assert(r@.len() == lead.len());
    }
    let mut k: usize = 0;
    while k < texts.len()
        invariant
            0 <= k <= texts.len(),
            texts@.len() == seg_texts(s@).len(),
            forall|m: int| 0 <= m < texts@.len() ==> #[trigger] texts@[m]@ == seg_texts(s@)[m],
            spec_components(s@) == lead + seg_texts(s@),
            lead.len() <= 1,
            r@.len() == lead.len() + k,
            forall|m: int| 0 <= m < r@.len() ==> #[trigger] r@[m]@ == spec_components(s@)[m],
        decreases texts.len() - k,
    {
        let t = slice_vec(&texts[k], 0, texts[k].len());
        proof {
            assert(texts@[k as int]@.subrange(0, texts@[k as int]@.len() as int) =~= texts@[k as int]@);
        }
        r.push(t);
        k += 1;
    }
    r
}

/// `Path::file_name`.
pub fn file_name(s: &Vec<char>) -> (r: Option<Vec<char>>)
    ensures
        r matches Some(v) ==> spec_file_name(s@) == Some(v@),
        r is None ==> spec_file_name(s@) is None,
{
    let g = path_segments(s);
    if g.len() == 0 {
        return None;
    }
    let (a, b) = g[g.len() - 1];
    proof {
        assert(spec_segs(s@).last() == (a as int, b as int));
    }
    let name = slice_vec(s, a, b);
    if name.len() == 2 && name[0] == '.' && name[1] == '.' {
        proof {
            assert(name@ =~= seq!['.', '.']);
        }
        None
    } else {
        proof {
            assert(name@ != seq!['.', '.']);
        }
        Some(name)
    }
}

/// `Path::extension`.
pub fn extension(s: &Vec<char>) -> (r: Option<Vec<char>>)
    ensures
        r matches Some(v) ==> spec_extension(s@) == Some(v@),
        r is None ==> spec_extension(s@) is None,
{
    match file_name(s) {
        None => None,
        Some(f) => {
            let dot = vec!['.'];
            proof {
                assert(dot@ =~= seq!['.']);
            }
            match rfind_in(&f, &dot) {
                Some(i) => {
                    proof {
                        lemma_rfind_bounds(f@, dot@, f@.len() - dot@.len());
                    }
                    assert(i + 1 <= f@.len());
                    assert(f@.len() == f.len());
                    if i > 0 {
                        Some(slice_vec_to_end(&f, i + 1))
                    } else {
                        None
                    }
                },
                None => None,
            }
        },
    }
}

/// `s[lo..]` as a new vector.
pub fn slice_vec_to_end(s: &Vec<char>, lo: usize) -> (r: Vec<char>)
    requires
        lo <= s.len(),
    ensures
        r@ == s@.skip(lo as int),
{
    let r = slice_vec(s, lo, s.len());
    proof {
        assert(s@.subrange(lo as int, s@.len() as int) =~= s@.skip(lo as int));
    }
    r
}

/// `Path::parent`, as text.
pub fn parent(s: &Vec<char>) -> (r: Option<Vec<char>>)
    ensures
        r matches Some(v) ==> spec_parent(s@) == Some(v@),
        r is None ==> spec_parent(s@) is None,
{
    let g = path_segments(s);
    if g.len() == 0 {
        if s.len() > 0 && s[0] == '.' && (s.len() == 1 || s[1] == '/') {
            let e: Vec<char> = Vec::new();
            proof {
                assert(e@ =~= Seq::<char>::empty());
            }
            Some(e)
        } else {
            None
        }
    } else if g.len() == 1 {
        let b = body_start_of(s);
        let r = slice_vec(s, 0, b);
        proof {
            assert(s@.subrange(0, b as int) =~= s@.take(b as int));
        }
        Some(r)
    } else {
        let (_, e) = g[g.len() - 2];
        proof {
            assert(spec_segs(s@)[g@.len() - 2] == (g@[g@.len() - 2].0 as int, e as int));
        }
        let r = slice_vec(s, 0, e);
        proof {
            assert(s@.subrange(0, e as int) =~= s@.take(e as int));
        }
        Some(r)
    }
}

/// The texts `a` and `b` are equal, as vectors of vectors.
fn parts_prefix(a: &Vec<Vec<char>>, b: &Vec<Vec<char>>) -> (r: bool)
    ensures
        r == (a@.len() <= b@.len() && forall|k: int| 0 <= k < a@.len() ==> #[trigger] a@[k]@ == b@[k]@),
{
    if a.len() > b.len() {
        return false;
    }
    let mut k: usize = 0;
    while k < a.len()
        invariant
            a.len() <= b.len(),
            0 <= k <= a.len(),
            forall|m: int| 0 <= m < k ==> #[trigger] a@[m]@ == b@[m]@,
        decreases a.len() - k,
    {
        if !seq_eq(&a[k], &b[k]) {
            return false;
        }
        k += 1;
    }
    true
}

/// `Path::starts_with`.
pub fn path_starts_with(s: &Vec<char>, base: &Vec<char>) -> (r: bool)
    ensures
        r == spec_path_starts_with(s@, base@),
{
    let cs = components(s);
    let cb = components(base);
    let r = parts_prefix(&cb, &cs);
    proof {
        let a = spec_components(base@);
        let b = spec_components(s@);
        if r {
            assert forall|k: int| 0 <= k < a.len() implies #[trigger] b.take(a.len() as int)[k] == a[k] by {
                assert(cb@[k]@ == cs@[k]@);
            }
            assert(b.take(a.len() as int) =~= a);
        } else if a.len() <= b.len() {
            if b.take(a.len() as int) == a {
                assert forall|k: int| 0 <= k < cb@.len() implies #[trigger] cb@[k]@ == cs@[k]@ by {
                    assert(b.take(a.len() as int)[k] == b[k]);
                }
            }
        }
    }
    r
}

/// `Path::strip_prefix`, as text.
pub fn strip_path_prefix(s: &Vec<char>, base: &Vec<char>) -> (r: Option<Vec<char>>)
    ensures
        r matches Some(v) ==> spec_strip_prefix(s@, base@) == Some(v@),
        r is None ==> spec_strip_prefix(s@, base@) is None,
{
    if !path_starts_with(s, base) {
        return None;
    }
    let cb = components(base);
    let lead: usize = if (s.len() > 0 && s[0] == '/') || (s.len() > 0 && s[0] == '.' && (s.len()
        == 1 || s[1] == '/')) {
        1
    } else {
        0
    };
    let g = path_segments(s);
    proof {
        assert(spec_components(base@).len() <= spec_components(s@).len());
        assert(spec_components(s@).len() == lead + seg_texts(s@).len());
    }
    if cb.len() < lead {
        proof {
            lemma_segs_from_valid(s@, body_start(s@));
        }
        if g.len() > 0 {
            let (_, b) = g[g.len() - 1];
            proof {
                assert(spec_segs(s@).last() == (g@[g@.len() - 1].0 as int, b as int));
                assert(s@.subrange(0, b as int) =~= s@.take(b as int));
            }
            return Some(slice_vec(s, 0, b));
        } else {
            let bs = body_start_of(s);
            proof {
                assert(s@.subrange(0, bs as int) =~= s@.take(bs as int));
            }
            return Some(slice_vec(s, 0, bs));
        }
    }
    let k = cb.len() - lead;
    if k >= g.len() {
        let e: Vec<char> = Vec::new();
        proof {
            assert(e@ =~= Seq::<char>::empty());
        }
        Some(e)
    } else {
        let (a, _) = g[k];
        let (_, b) = g[g.len() - 1];
        proof {
            lemma_segs_from_valid(s@, body_start(s@));
            assert(spec_segs(s@)[k as int] == (a as int, g@[k as int].1 as int));
            assert(spec_segs(s@).last() == (g@[g@.len() - 1].0 as int, b as int));
            if k < g.len() - 1 {
                assert(spec_segs(s@)[k as int].1 <= spec_segs(s@)[g@.len() - 1].0);
            }
        }
        Some(slice_vec(s, a, b))
    }
}

/// `Path::join` of a root and a path, as text.
pub fn join_path(root: &Vec<char>, p: &Vec<char>) -> (r: Vec<char>)
    ensures
        r@ == spec_join(root@, p@),
{
    if p.len() > 0 && p[0] == '/' {
        return slice_vec_to_end(p, 0);
    }
    let mut r = slice_vec_to_end(root, 0);
    if !(root.len() > 0 && root[root.len() - 1] == '/') {
        r.push('/');
    }
    let mut k: usize = 0;
    let ghost start = r@;
    while k < p.len()
        invariant
            0 <= k <= p.len(),
            r@ == start + p@.take(k as int),
        decreases p.len() - k,
    {
        r.push(p[k]);
        proof {
            assert(p@.take(k + 1) =~= p@.take(k as int).push(p@[k as int]));
        }
        k += 1;
    }
    proof {
        assert(p@.take(p@.len() as int) =~= p@);
        assert(root@.skip(0) =~= root@);
        if !(root@.len() > 0 && root@.last() == '/') {
            assert(start =~= root@ + seq!['/']);
        }
    }
    r
}

/// Texts joined by `/`.
pub fn join_parts(parts: &Vec<Vec<char>>) -> (r: Vec<char>)
    ensures
        r@ == join_segs(parts@.map_values(|v: Vec<char>| v@)),
{
    let ghost views = parts@.map_values(|v: Vec<char>| v@);
    let mut r: Vec<char> = Vec::new();
    let mut k: usize = 0;
    while k < parts.len()
        invariant
            0 <= k <= parts.len(),
            views == parts@.map_values(|v: Vec<char>| v@),
            r@ == join_segs(views.take(k as int)),
        decreases parts.len() - k,
    {
        if k > 0 {
            r.push('/');
        }
        let part = &parts[k];
        let ghost before = r@;
        let mut m: usize = 0;
        while m < part.len()
            invariant
                0 <= m <= part.len(),
                r@ == before + part@.take(m as int),
            decreases part.len() - m,
        {
            r.push(part[m]);
            proof {
                assert(part@.take(m + 1) =~= part@.take(m as int).push(part@[m as int]));
            }
            m += 1;
        }
        proof {
            assert(part@.take(part@.len() as int) =~= part@);
            let t = views.take(k + 1);
            assert(t.drop_last() =~= views.take(k as int));
            assert(t.last() == part@);
            if k == 0 {
                assert(t.len() == 1);
                assert(join_segs(views.take(0)) == Seq::<char>::empty());
                assert(r@ =~= part@);
            } else {
                assert(r@ =~= join_segs(views.take(k as int)) + seq!['/'] + part@);
            }
        }
        k += 1;
    }
    proof {
        assert(views.take(parts@.len() as int) =~= views);
    }
    r
}

/// The body segments of a relative path joined by single separators; `None`
/// for an absolute path.
pub fn normalized(s: &Vec<char>) -> (r: Option<Vec<char>>)
    ensures
        r matches Some(v) ==> spec_normalized(s@) == Some(v@),
        r is None ==> spec_normalized(s@) is None,
{
    if s.len() > 0 && s[0] == '/' {
        return None;
    }
    let texts = segment_texts(s);
    proof {
        assert(texts@.map_values(|v: Vec<char>| v@) =~= seg_texts(s@));
    }
    Some(join_parts(&texts))
}

/// Backslash separators written as `/`.
pub open spec fn spec_normalize_slashes(s: Seq<char>) -> Seq<char> {
    s.map_values(|c: char| if c == '\\' { '/' } else { c })
}

/// The path with every backslash separator written as `/`.
pub fn normalize_slashes(s: &str) -> (r: String)
    ensures
        r@ == spec_normalize_slashes(s@),
{
    let cs = crate::text::chars_of(s);
    let mut out: Vec<char> = Vec::new();
    let mut i: usize = 0;
    while i < cs.len()
        invariant
            i <= cs.len(),
            cs@ == s@,
            out@ == spec_normalize_slashes(s@).take(i as int),
        decreases cs.len() - i,
    {
        let c = if cs[i] == '\\' { '/' } else { cs[i] };
        out.push(c);
        proof {
            assert(spec_normalize_slashes(s@).take(i + 1) =~= spec_normalize_slashes(s@).take(i as int).push(c));
        }
        i += 1;
    }
    proof {
        assert(spec_normalize_slashes(s@).take(cs@.len() as int) =~= spec_normalize_slashes(s@));
    }
    crate::text::string_from(&out)
}

} // verus!
