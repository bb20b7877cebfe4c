//! Which walked paths are kept as the repository's files and directories.
use vstd::prelude::*;
use crate::config::strings_view;
use crate::context::RepoContext;
use crate::paths::{
    components, extension, lemma_seg_end, path_starts_with, seg_end, spec_components, spec_extension,
    spec_path_starts_with, spec_strip_prefix, strip_path_prefix,
};
use crate::text::{chars_of, seq_eq, slice_vec, spec_lowercase, string_from, to_lowercase};

verus! {

/// A file of the repository: its absolute path and its path relative to the root.
pub struct FileEntry {
    pub path: String,
    pub relative: String,
}

/// The non-empty `/`-separated words of `s` from index `i` on.
pub open spec fn words_from(s: Seq<char>, i: int) -> Seq<Seq<char>>
    decreases s.len() - i,
{
    if i < 0 || i >= s.len() {
        Seq::empty()
    } else if s[i] == '/' {
        words_from(s, i + 1)
    } else {
        let e = seg_end(s, i);
        if e <= i || e > s.len() {
            Seq::empty()
        } else {
            seq![s.subrange(i, e)] + words_from(s, e)
        }
    }
}

/// `ip` occurs as a run of consecutive elements of `parts`.
pub open spec fn window_match(parts: Seq<Seq<char>>, ip: Seq<Seq<char>>) -> bool {
    &&& ip.len() > 0
    &&& parts.len() >= ip.len()
    &&& exists|w: int| 0 <= w <= parts.len() - ip.len() && #[trigger] parts.subrange(w, w + ip.len()) == ip
}

/// Some excluded path's words occur consecutively among the components of `path`.
pub open spec fn spec_in_ignored_parent(path: Seq<char>, ignores: Seq<Seq<char>>) -> bool {
    exists|k: int| 0 <= k < ignores.len() && window_match(spec_components(path), #[trigger] words_from(ignores[k], 0))
}

/// The extensions, lowercased.
pub open spec fn lowered(exts: Seq<Seq<char>>) -> Seq<Seq<char>> {
    exts.map_values(|e: Seq<char>| spec_lowercase(e))
}

/// A walked file is kept: it lies under no excluded directory, and its
/// lowercased extension is one of the (lowercased) extensions, unless none
/// are given.
pub open spec fn spec_keep_file(path: Seq<char>, excludes: Seq<Seq<char>>, exts: Seq<Seq<char>>) -> bool {
    &&& !spec_in_ignored_parent(path, excludes)
    &&& (exts.len() == 0 || match spec_extension(path) {
        Some(x) => lowered(exts).contains(spec_lowercase(x)),
        None => false,
    })
}

/// A path relative to the root is processed: no paths are named, or it
/// lies, component by component, under one of them.
pub open spec fn spec_included(rel: Seq<char>, only: Seq<Seq<char>>) -> bool {
    only.len() == 0 || exists|k: int| 0 <= k < only.len() && spec_path_starts_with(rel, #[trigger] only[k])
}

/// The entries of the walked files from index `k` on that are kept, lie
/// under `root` and are included.
pub open spec fn collected_from(
    walked: Seq<Seq<char>>,
    root: Seq<char>,
    excludes: Seq<Seq<char>>,
    exts: Seq<Seq<char>>,
    only: Seq<Seq<char>>,
    k: int,
) -> Seq<(Seq<char>, Seq<char>)>
    decreases walked.len() - k,
{
    if k < 0 || k >= walked.len() {
        Seq::empty()
    } else {
        let p = walked[k];
        let rest = collected_from(walked, root, excludes, exts, only, k + 1);
        if spec_keep_file(p, excludes, exts) {
            match spec_strip_prefix(p, root) {
                Some(rel) => if spec_included(rel, only) {
                    seq![(p, rel)] + rest
                } else {
                    rest
                },
                None => rest,
            }
        } else {
            rest
        }
    }
}

/// The walked directories from index `k` on that are not the root and lie
/// under no excluded directory.
pub open spec fn dirs_from(walked: Seq<Seq<char>>, root: Seq<char>, excludes: Seq<Seq<char>>, k: int) -> Seq<Seq<char>>
    decreases walked.len() - k,
{
    if k < 0 || k >= walked.len() {
        Seq::empty()
    } else {
        let rest = dirs_from(walked, root, excludes, k + 1);
        if walked[k] != root && !spec_in_ignored_parent(walked[k], excludes) {
            seq![walked[k]] + rest
        } else {
            rest
        }
    }
}

/// The views of file entries.
pub open spec fn entries_view(v: Seq<FileEntry>) -> Seq<(Seq<char>, Seq<char>)> {
    v.map_values(|e: FileEntry| (e.path@, e.relative@))
}

/// The non-empty `/`-separated words of `s`.
pub fn words(s: &Vec<char>) -> (r: Vec<Vec<char>>)
    ensures
        r@.len() == words_from(s@, 0).len(),
        forall|k: int| 0 <= k < r@.len() ==> #[trigger] r@[k]@ == words_from(s@, 0)[k],
{
    let mut r: Vec<Vec<char>> = Vec::new();
    let mut i: usize = 0;
    while i < s.len()
        invariant
            0 <= i <= s.len(),
            r@.len() + words_from(s@, i as int).len() == words_from(s@, 0).len(),
            forall|k: int| 0 <= k < r@.len() ==> #[trigger] r@[k]@ == words_from(s@, 0)[k],
            forall|k: int|
                0 <= k < words_from(s@, i as int).len() ==> words_from(s@, i as int)[k] == words_from(
                    s@,
                    0,
                )[r@.len() + k],
        decreases s.len() - i,
    {
        if s[i] == '/' {
            i += 1;
        } else {
            let mut e = i;
            while e < s.len() && s[e] != '/'
                invariant
                    i <= e <= s.len(),
                    seg_end(s@, i as int) == seg_end(s@, e as int),
                decreases s.len() - e,
            {
                e += 1;
            }
            proof {
                lemma_seg_end(s@, i as int);
                assert(words_from(s@, i as int) == seq![s@.subrange(i as int, e as int)] + words_from(s@, e as int));
                assert(words_from(s@, i as int)[0] == s@.subrange(i as int, e as int));
            }
            r.push(slice_vec(s, i, e));
            proof {
                assert forall|k: int|
                    0 <= k < words_from(s@, e as int).len() implies words_from(s@, e as int)[k]
                    == words_from(s@, 0)[r@.len() + k] by {
                    assert(words_from(s@, e as int)[k] == words_from(s@, i as int)[k + 1]);
                }
            }
            i = e;
        }
    }
    r
}

/// `ip` occurs as a run of consecutive elements of `parts`.
fn has_window(parts: &Vec<Vec<char>>, ip: &Vec<Vec<char>>) -> (r: bool)
    ensures
        r == window_match(parts@.map_values(|v: Vec<char>| v@), ip@.map_values(|v: Vec<char>| v@)),
{
    let ghost pv = parts@.map_values(|v: Vec<char>| v@);
    let ghost iv = ip@.map_values(|v: Vec<char>| v@);
    if ip.len() == 0 || parts.len() < ip.len() {
        return false;
    }
    let mut w: usize = 0;
    while w <= parts.len() - ip.len()
        invariant
            1 <= ip.len() <= parts.len(),
            pv == parts@.map_values(|v: Vec<char>| v@),
            iv == ip@.map_values(|v: Vec<char>| v@),
            forall|x: int| 0 <= x < w ==> #[trigger] pv.subrange(x, x + iv.len()) != iv,
        decreases parts.len() - w,
    {
        let mut j: usize = 0;
        let mut all = true;
        while j < ip.len()
            invariant
                1 <= ip.len() <= parts.len(),
                w <= parts.len() - ip.len(),
                0 <= j <= ip.len(),
                pv == parts@.map_values(|v: Vec<char>| v@),
                iv == ip@.map_values(|v: Vec<char>| v@),
                all == forall|m: int| 0 <= m < j ==> pv[w + m] == iv[m],
            decreases ip.len() - j,
        {
            let same = seq_eq(&parts[w + j], &ip[j]);
            proof {
                assert(pv[w + j] == parts@[w + j]@);
                assert(iv[j as int] == ip@[j as int]@);
            }
            if !same {
                all = false;
            }
            j += 1;
        }
        if all {
            proof {
                assert(pv.subrange(w as int, w + iv.len()) =~= iv);
            }
            return true;
        }
        proof {
            let m = choose|m: int| 0 <= m < j && pv[w + m] != iv[m];
            assert(pv.subrange(w as int, w + iv.len())[m] != iv[m]);
        }
        w += 1;
    }
    false
}

/// Some excluded path's words occur consecutively among the components of `path`.
pub fn is_in_ignored_parent(path: &str, ignores: &Vec<String>) -> (r: bool)
    ensures
        r == spec_in_ignored_parent(path@, strings_view(ignores@)),
{
    let parts = components(&chars_of(path));
    proof {
        assert(parts@.map_values(|v: Vec<char>| v@) =~= spec_components(path@));
    }
    let mut k: usize = 0;
    while k < ignores.len()
        invariant
            0 <= k <= ignores.len(),
            parts@.map_values(|v: Vec<char>| v@) == spec_components(path@),
            forall|m: int| 0 <= m < k ==> !window_match(spec_components(path@), #[trigger] words_from(strings_view(ignores@)[m], 0)),
        decreases ignores.len() - k,
    {
        let ip = words(&chars_of(ignores[k].as_str()));
        proof {
            assert(ip@.map_values(|v: Vec<char>| v@) =~= words_from(ignores@[k as int]@, 0));
            assert(strings_view(ignores@)[k as int] == ignores@[k as int]@);
        }
        if has_window(&parts, &ip) {
            return true;
        }
        k += 1;
    }
    false
}

/// The lowercase forms of `exts`.
fn lowercase_all(exts: &Vec<String>) -> (r: Vec<Vec<char>>)
    ensures
        r@.map_values(|v: Vec<char>| v@) == lowered(strings_view(exts@)),
{
    let mut r: Vec<Vec<char>> = Vec::new();
    let mut k: usize = 0;
    while k < exts.len()
        invariant
            0 <= k <= exts.len(),
            r@.map_values(|v: Vec<char>| v@) == lowered(strings_view(exts@)).take(k as int),
        decreases exts.len() - k,
    {
        let l = chars_of(to_lowercase(exts[k].as_str()).as_str());
        let ghost before = r@.map_values(|v: Vec<char>| v@);
        proof {
            assert(strings_view(exts@)[k as int] == exts@[k as int]@);
            assert(lowered(strings_view(exts@))[k as int] == l@);
        }
        r.push(l);
        proof {
            assert(r@.map_values(|v: Vec<char>| v@) =~= before.push(l@));
            assert(lowered(strings_view(exts@)).take(k + 1) =~= lowered(strings_view(exts@)).take(k as int).push(l@));
        }
        k += 1;
    }
    proof {
        assert(lowered(strings_view(exts@)).take(exts@.len() as int) =~= lowered(strings_view(exts@)));
    }
    r
}

/// Whether a walked file is kept.
pub fn keep_file(path: &str, excludes: &Vec<String>, exts: &Vec<String>) -> (r: bool)
    ensures
        r == spec_keep_file(path@, strings_view(excludes@), strings_view(exts@)),
{
    if is_in_ignored_parent(path, excludes) {
        return false;
    }
    if exts.len() == 0 {
        return true;
    }
    let lower = lowercase_all(exts);
    let ghost lv = lowered(strings_view(exts@));
    match extension(&chars_of(path)) {
        None => false,
        Some(x) => {
            let lx = chars_of(to_lowercase(string_from(&x).as_str()).as_str());
            let ghost not_ignored = !spec_in_ignored_parent(path@, strings_view(excludes@));
            let mut k: usize = 0;
            while k < lower.len()
                invariant
                    0 <= k <= lower.len(),
                    not_ignored == !spec_in_ignored_parent(path@, strings_view(excludes@)),
                    not_ignored,
                    strings_view(exts@).len() > 0,
                    lv == lowered(strings_view(exts@)),
                    spec_extension(path@) == Some(x@),
                    lx@ == spec_lowercase(x@),
                    lower@.map_values(|v: Vec<char>| v@) == lv,
                    forall|m: int| 0 <= m < k ==> lv[m] != lx@,
                decreases lower.len() - k,
            {
                proof {
                    assert(lv[k as int] == lower@[k as int]@);
                }
                if seq_eq(&lower[k], &lx) {
                    proof {
                        assert(lv.contains(lx@));
                    }
                    return true;
                }
                k += 1;
            }
            proof {
                if lv.contains(lx@) {
                    let m = choose|m: int| 0 <= m < lv.len() && lv[m] == lx@;
                    assert(lv[m] == lx@);
                }
            }
            false
        },
    }
}

/// `rel` lies under one of the paths `only`, or none are named.
pub fn is_included(rel: &str, only: &Vec<String>) -> (r: bool)
    ensures
        r == spec_included(rel@, strings_view(only@)),
{
    if only.len() == 0 {
        return true;
    }
    let p = chars_of(rel);
    let mut k: usize = 0;
    while k < only.len()
        invariant
            0 <= k <= only.len(),
            p@ == rel@,
            forall|j: int| 0 <= j < k ==> !spec_path_starts_with(rel@, #[trigger] strings_view(only@)[j]),
        decreases only.len() - k,
    {
        let base = chars_of(only[k].as_str());
        if path_starts_with(&p, &base) {
            proof {
                assert(strings_view(only@)[k as int] == only@[k as int]@);
            }
            return true;
        }
        proof {
            assert(strings_view(only@)[k as int] == only@[k as int]@);
        }
        k += 1;
    }
    false
}

/// The files of the repository among the walked file paths: those kept by
/// the exclusions and extensions of `ctx`, lying under its root and under
/// one of its included paths (where it names any), in walk order, each with
/// its path relative to the root.
#[verifier::rlimit(40)]
pub fn collect_files(ctx: &RepoContext, walked: &Vec<String>) -> (r: Vec<FileEntry>)
    ensures
        entries_view(r@) == collected_from(
            strings_view(walked@),
            ctx.root@,
            strings_view(ctx.exclude_dirs@),
            strings_view(ctx.extensions@),
            strings_view(ctx.include_paths@),
            0,
        ),
{
    let ghost wv = strings_view(walked@);
    let ghost ev = strings_view(ctx.exclude_dirs@);
    let ghost xv = strings_view(ctx.extensions@);
    let ghost iv = strings_view(ctx.include_paths@);
    let mut out: Vec<FileEntry> = Vec::new();
    let mut k = walked.len();
    while k > 0
        invariant
            k <= walked.len(),
            wv == strings_view(walked@),
            ev == strings_view(ctx.exclude_dirs@),
            xv == strings_view(ctx.extensions@),
            iv == strings_view(ctx.include_paths@),
            out@.len() == entries_view(out@).len(),
            entries_view(out@).reverse() == collected_from(wv, ctx.root@, ev, xv, iv, k as int),
        decreases k,
    {
        k -= 1;
        let p = &walked[k];
        proof {
            assert(wv[k as int] == p@);
        }
        let ghost before = entries_view(out@);
        if keep_file(p.as_str(), &ctx.exclude_dirs, &ctx.extensions) {
            match ctx.relative_path(p.as_str()) {
                Some(rel) => {
                    if is_included(rel.as_str(), &ctx.include_paths) {
                        out.push(FileEntry { path: p.clone(), relative: rel });
                        proof {
                            assert(entries_view(out@) =~= before.push((p@, entries_view(out@).last().1)));
                            assert(entries_view(out@).reverse() =~= seq![(p@, entries_view(out@).last().1)]
                                + before.reverse());
                        }
                    }
                },
                None => {},
            }
        }
    }
    let ghost fwd = entries_view(out@);
    let mut res: Vec<FileEntry> = Vec::new();
    while out.len() > 0
        invariant
            entries_view(res@) + entries_view(out@).reverse() == fwd.reverse(),
        decreases out.len(),
    {
        let ghost before_out = entries_view(out@);
        let ghost before_res = entries_view(res@);
        let e = out.pop().unwrap();
        res.push(e);
        proof {
            assert(before_out =~= entries_view(out@).push((e.path@, e.relative@)));
            assert(before_out.reverse() =~= seq![(e.path@, e.relative@)] + entries_view(out@).reverse());
            assert(entries_view(res@) =~= before_res.push((e.path@, e.relative@)));
        }
    }
    proof {
        assert(entries_view(out@).reverse() =~= Seq::<(Seq<char>, Seq<char>)>::empty());
        assert(entries_view(res@) =~= fwd.reverse());
    }
    res
}

/// The directories of the repository among the walked directory paths: all
/// but the root and those under an excluded directory, in walk order.
pub fn collect_dirs(ctx: &RepoContext, walked: &Vec<String>) -> (r: Vec<String>)
    ensures
        strings_view(r@) == dirs_from(strings_view(walked@), ctx.root@, strings_view(ctx.exclude_dirs@), 0),
{
    let ghost wv = strings_view(walked@);
    let ghost ev = strings_view(ctx.exclude_dirs@);
    let root = chars_of(ctx.root.as_str());
    let mut out: Vec<String> = Vec::new();
    let mut k = walked.len();
    while k > 0
        invariant
            k <= walked.len(),
            wv == strings_view(walked@),
            ev == strings_view(ctx.exclude_dirs@),
            root@ == ctx.root@,
            strings_view(out@).reverse() == dirs_from(wv, ctx.root@, ev, k as int),
        decreases k,
    {
        k -= 1;
        let p = &walked[k];
        proof {
            assert(wv[k as int] == p@);
        }
        let ghost before = strings_view(out@);
        if !seq_eq(&chars_of(p.as_str()), &root) && !is_in_ignored_parent(p.as_str(), &ctx.exclude_dirs) {
            out.push(p.clone());
            proof {
                assert(strings_view(out@) =~= before.push(p@));
                assert(strings_view(out@).reverse() =~= seq![p@] + before.reverse());
            }
        }
    }
    let ghost fwd = strings_view(out@);
    let mut res: Vec<String> = Vec::new();
    while out.len() > 0
        invariant
            strings_view(res@) + strings_view(out@).reverse() == fwd.reverse(),
        decreases out.len(),
    {
        let ghost before_out = strings_view(out@);
        let ghost before_res = strings_view(res@);
        let e = out.pop().unwrap();
        res.push(e);
        proof {
            assert(before_out =~= strings_view(out@).push(e@));
            assert(before_out.reverse() =~= seq![e@] + strings_view(out@).reverse());
            assert(strings_view(res@) =~= before_res.push(e@));
        }
    }
    proof {
        assert(strings_view(out@).reverse() =~= Seq::<Seq<char>>::empty());
        assert(strings_view(res@) =~= fwd.reverse());
    }
    res
}

} // verus!
