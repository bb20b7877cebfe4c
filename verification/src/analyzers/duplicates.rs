//! Files with identical content.
use vstd::prelude::*;
use crate::config::strings_view;
use crate::text::{chars_of, seq_eq};
use crate::utils::hashing::{blake3_hex, hash_bytes, is_lower_hex};
use crate::commands::duplicates::{ascii_hashes, is_ascii};

verus! {

/// A text file of the repository considered for duplicate detection: its
/// relative path, its size in bytes, and its content where it was read
/// (`None` where reading failed or was not needed).
pub struct DupCandidate {
    pub relative: String,
    pub size: u64,
    pub content: Option<Vec<u8>>,
}

/// Files with identical content and their BLAKE3 digest.
pub struct DuplicateGroup {
    pub hash: String,
    pub files: Vec<String>,
}

/// Number of the first `k` candidates of size `s`.
pub open spec fn count_size(files: Seq<DupCandidate>, s: u64, k: int) -> nat
    decreases k,
{
    if k <= 0 || k > files.len() {
        0
    } else {
        count_size(files, s, k - 1) + if files[k - 1].size == s {
            1nat
        } else {
            0nat
        }
    }
}

/// Candidate `i` is large enough and shares its size with another candidate:
/// its content has to be hashed.
pub open spec fn needs_hash(files: Seq<DupCandidate>, min_size: u64, i: int) -> bool {
    files[i].size >= min_size && count_size(files, files[i].size, files.len() as int) >= 2
}

/// Candidate `i` is hashed: it needs a hash and its content was read.
pub open spec fn hashed(files: Seq<DupCandidate>, min_size: u64, i: int) -> bool {
    needs_hash(files, min_size, i) && files[i].content is Some
}

/// The digest of candidate `i`.
pub open spec fn digest(files: Seq<DupCandidate>, i: int) -> Seq<char> {
    blake3_hex(files[i].content.unwrap()@)
}

/// The digests compared: that of each hashed candidate; empty for the
/// others, which are never compared.
pub open spec fn file_digests(files: Seq<DupCandidate>, min_size: u64) -> Seq<Seq<char>> {
    Seq::new(files.len(), |i: int| if hashed(files, min_size, i) { digest(files, i) } else { Seq::empty() })
}

/// The hashed candidates among the first `k` whose digest in `ds` is `h`,
/// in order.
pub open spec fn members(files: Seq<DupCandidate>, min_size: u64, ds: Seq<Seq<char>>, h: Seq<char>, k: int) -> Seq<Seq<char>>
    decreases k,
{
    if k <= 0 || k > files.len() {
        Seq::empty()
    } else {
        members(files, min_size, ds, h, k - 1) + if hashed(files, min_size, k - 1) && ds[k - 1] == h {
            seq![files[k - 1].relative@]
        } else {
            Seq::empty()
        }
    }
}

proof fn lemma_count_size_bound(files: Seq<DupCandidate>, s: u64, k: int)
    requires
        0 <= k <= files.len(),
    ensures
        count_size(files, s, k) <= k,
    decreases k,
{
    if k > 0 {
        lemma_count_size_bound(files, s, k - 1);
    }
}

proof fn lemma_members_len(files: Seq<DupCandidate>, min_size: u64, ds: Seq<Seq<char>>, h: Seq<char>, k: int)
    requires
        0 <= k <= files.len(),
    ensures
        members(files, min_size, ds, h, k).len() <= k,
    decreases k,
{
    if k > 0 {
        lemma_members_len(files, min_size, ds, h, k - 1);
    }
}

/// `h` is the digest of some hashed candidate.
pub open spec fn is_candidate_digest(files: Seq<DupCandidate>, min_size: u64, ds: Seq<Seq<char>>, h: Seq<char>) -> bool {
    exists|i: int| 0 <= i < files.len() && hashed(files, min_size, i) && #[trigger] ds[i] == h
}

/// No two candidates have the same relative path.
pub open spec fn distinct_relatives(files: Seq<DupCandidate>) -> bool {
    forall|i: int, j: int| 0 <= i < j < files.len() ==> files[i].relative@ != files[j].relative@
}

/// Each member of a group is the path of a hashed candidate with the
/// group's digest.
proof fn lemma_members_witness(files: Seq<DupCandidate>, min_size: u64, ds: Seq<Seq<char>>, h: Seq<char>, k: int, j: int)
    requires
        0 <= k <= files.len(),
        0 <= j < members(files, min_size, ds, h, k).len(),
    ensures
        exists|i: int|
            0 <= i < k && hashed(files, min_size, i) && ds[i] == h && #[trigger] files[i].relative@ == members(
                files,
                min_size,
                ds,
                h,
                k,
            )[j],
    decreases k,
{
    let prev = members(files, min_size, ds, h, k - 1);
    if j < prev.len() {
        lemma_members_witness(files, min_size, ds, h, k - 1, j);
        let i = choose|i: int|
            0 <= i < k - 1 && hashed(files, min_size, i) && ds[i] == h && #[trigger] files[i].relative@ == prev[j];
        assert(members(files, min_size, ds, h, k)[j] == prev[j]);
        assert(files[i].relative@ == members(files, min_size, ds, h, k)[j]);
    } else {
        assert(hashed(files, min_size, k - 1) && ds[k - 1] == h);
        assert(files[k - 1].relative@ == members(files, min_size, ds, h, k)[j]);
    }
}

/// Groups built by digest: their digests are digests of hashed candidates,
/// and, where candidate paths are distinct, no path lies in two groups.
proof fn lemma_group_facts(files: Seq<DupCandidate>, min_size: u64, ds: Seq<Seq<char>>, r: Seq<DuplicateGroup>)
    requires
        ds.len() == files.len(),
        forall|g: int| 0 <= g < r.len() ==> {
            &&& strings_view(#[trigger] r[g].files@) == members(files, min_size, ds, r[g].hash@, files.len() as int)
            &&& r[g].files@.len() >= 2
        },
        forall|g: int, m: int| 0 <= g < m < r.len() ==> r[g].hash@ != r[m].hash@,
    ensures
        forall|g: int| 0 <= g < r.len() ==> is_candidate_digest(files, min_size, ds, (#[trigger] r[g]).hash@),
        distinct_relatives(files) ==> forall|g: int, m: int, j: int|
            0 <= g < r.len() && 0 <= m < r.len() && g != m && 0 <= j < r[g].files@.len() ==> !strings_view(
                #[trigger] r[m].files@,
            ).contains(#[trigger] r[g].files@[j]@),
{
    let n = files.len() as int;
    assert forall|g: int| 0 <= g < r.len() implies is_candidate_digest(files, min_size, ds, (#[trigger] r[g]).hash@) by {
        assert(strings_view(r[g].files@).len() == r[g].files@.len());
        lemma_members_witness(files, min_size, ds, r[g].hash@, n, 0);
        let mg = members(files, min_size, ds, r[g].hash@, n);
        let i = choose|i: int| 0 <= i < n && hashed(files, min_size, i) && ds[i] == r[g].hash@ && #[trigger] files[i].relative@ == mg[0];
        assert(ds[i] == r[g].hash@);
    }
    if distinct_relatives(files) {
        assert forall|g: int, m: int, j: int|
            0 <= g < r.len() && 0 <= m < r.len() && g != m && 0 <= j < r[g].files@.len() implies !strings_view(
                #[trigger] r[m].files@,
            ).contains(#[trigger] r[g].files@[j]@) by {
            let x = r[g].files@[j]@;
            let mg = members(files, min_size, ds, r[g].hash@, n);
            let mm = members(files, min_size, ds, r[m].hash@, n);
            assert(strings_view(r[g].files@)[j] == x);
            lemma_members_witness(files, min_size, ds, r[g].hash@, n, j);
            let i1 = choose|i: int| 0 <= i < n && hashed(files, min_size, i) && ds[i] == r[g].hash@ && #[trigger] files[i].relative@ == mg[j];
            if strings_view(r[m].files@).contains(x) {
                let j2 = choose|j2: int| 0 <= j2 < strings_view(r[m].files@).len() && strings_view(r[m].files@)[j2] == x;
                lemma_members_witness(files, min_size, ds, r[m].hash@, n, j2);
                let i2 = choose|i: int| 0 <= i < n && hashed(files, min_size, i) && ds[i] == r[m].hash@ && #[trigger] files[i].relative@ == mm[j2];
                if i1 < i2 {
                    assert(files[i1].relative@ != files[i2].relative@);
                } else if i2 < i1 {
                    assert(files[i2].relative@ != files[i1].relative@);
                }
                if g < m {
                    assert(r[g].hash@ != r[m].hash@);
                } else {
                    assert(r[m].hash@ != r[g].hash@);
                }
            }
        }
    }
}

/// Number of candidates of size `s`.
fn size_count(files: &Vec<DupCandidate>, s: u64) -> (r: usize)
    ensures
        r == count_size(files@, s, files@.len() as int),
{
    let mut n: usize = 0;
    let mut i: usize = 0;
    while i < files.len()
        invariant
            i <= files.len(),
            n == count_size(files@, s, i as int),
        decreases files.len() - i,
    {
        proof {
            lemma_count_size_bound(files@, s, i as int);
        }
        if files[i].size == s {
            n = n + 1;
        }
        i += 1;
    }
    n
}

/// Which candidates need their content hashed: those of at least
/// `min_size` bytes that share their size with another candidate.
pub fn hash_needed(files: &Vec<DupCandidate>, min_size: u64) -> (r: Vec<bool>)
    ensures
        r@.len() == files@.len(),
        forall|i: int| 0 <= i < r@.len() ==> r@[i] == needs_hash(files@, min_size, i),
{
    let mut r: Vec<bool> = Vec::new();
    let mut i: usize = 0;
    while i < files.len()
        invariant
            i <= files.len(),
            r@.len() == i,
            forall|m: int| 0 <= m < i ==> r@[m] == needs_hash(files@, min_size, m),
        decreases files.len() - i,
    {
        let b = files[i].size >= min_size && size_count(files, files[i].size) >= 2;
        r.push(b);
        i += 1;
    }
    r
}

/// The index of the group with digest `h`.
fn find_group(groups: &Vec<DuplicateGroup>, h: &Vec<char>) -> (r: Option<usize>)
    ensures
        r matches Some(j) ==> j < groups@.len() && groups@[j as int].hash@ == h@,
        r is None ==> forall|m: int| 0 <= m < groups@.len() ==> groups@[m].hash@ != h@,
{
    let mut j: usize = 0;
    while j < groups.len()
        invariant
            j <= groups.len(),
            forall|m: int| 0 <= m < j ==> groups@[m].hash@ != h@,
        decreases groups.len() - j,
    {
        if seq_eq(&chars_of(groups[j].hash.as_str()), h) {
            return Some(j);
        }
        j += 1;
    }
    None
}

/// The groups of files with identical content: among the candidates of at
/// least `min_size` bytes that share their size with another candidate and
/// were read, those whose BLAKE3 digests agree.  Each group holds two or
/// more files, in candidate order, and every such set of files is a group;
/// no two groups share a digest.  Groups come in the order of their first
/// file.
pub fn find_duplicates(files: &Vec<DupCandidate>, min_size: u64) -> (r: Vec<DuplicateGroup>)
    ensures
        forall|g: int| 0 <= g < r@.len() ==> {
            &&& strings_view(#[trigger] r@[g].files@) == members(
                files@,
                min_size,
                file_digests(files@, min_size),
                r@[g].hash@,
                files@.len() as int,
            )
            &&& r@[g].files@.len() >= 2
        },
        forall|g: int, m: int| 0 <= g < m < r@.len() ==> r@[g].hash@ != r@[m].hash@,
        forall|i: int|
            0 <= i < files@.len() && hashed(files@, min_size, i) && members(
                files@,
                min_size,
                file_digests(files@, min_size),
                digest(files@, i),
                files@.len() as int,
            ).len() >= 2 ==> exists|g: int| 0 <= g < r@.len() && #[trigger] r@[g].hash@ == digest(files@, i),
        forall|g: int| 0 <= g < r@.len() ==> is_lower_hex((#[trigger] r@[g]).hash@),
        ascii_hashes(r@),
        distinct_relatives(files@) ==> forall|g: int, m: int, j: int|
            0 <= g < r@.len() && 0 <= m < r@.len() && g != m && 0 <= j < r@[g].files@.len() ==> !strings_view(
                #[trigger] r@[m].files@,
            ).contains(#[trigger] r@[g].files@[j]@),
{
    let ghost want = file_digests(files@, min_size);
    let need = hash_needed(files, min_size);
    let mut digests: Vec<String> = Vec::new();
    let mut i: usize = 0;
    while i < files.len()
        invariant
            i <= files.len(),
            need@.len() == files@.len(),
            forall|m: int| 0 <= m < need@.len() ==> need@[m] == needs_hash(files@, min_size, m),
            want == file_digests(files@, min_size),
            strings_view(digests@) == want.take(i as int),
            forall|m: int| 0 <= m < i ==> is_lower_hex(#[trigger] strings_view(digests@)[m]),
        decreases files.len() - i,
    {
        let ghost before = strings_view(digests@);
        let d = if need[i] {
            match &files[i].content {
                Some(bytes) => hash_bytes(bytes),
                None => String::new(),
            }
        } else {
            String::new()
        };
        proof {
            assert(d@ == want[i as int]);
            assert(is_lower_hex(d@));
        }
        digests.push(d);
        proof {
            assert(strings_view(digests@) =~= before.push(want[i as int]));
            assert(strings_view(digests@) =~= want.take(i + 1));
        }
        i += 1;
    }
    proof {
        assert(want.take(files@.len() as int) =~= want);
        assert forall|i: int| 0 <= i < files@.len() && hashed(files@, min_size, i) implies want[i] == digest(files@, i) by {}
    }
    let r = group_duplicates(files, min_size, &digests);
    proof {
        let ds = strings_view(digests@);
        assert forall|g: int| 0 <= g < r@.len() implies is_lower_hex((#[trigger] r@[g]).hash@) by {
            assert(is_candidate_digest(files@, min_size, ds, r@[g].hash@));
            let i = choose|i: int| 0 <= i < files@.len() && hashed(files@, min_size, i) && #[trigger] ds[i] == r@[g].hash@;
            assert(is_lower_hex(ds[i]));
        }
        assert forall|g: int| 0 <= g < r@.len() implies is_ascii((#[trigger] r@[g]).hash@) by {
            let h = r@[g].hash@;
            assert(is_lower_hex(h));
            assert forall|k: int| 0 <= k < h.len() implies (h[k] as u32) < 128 by {
                assert(('0' <= h[k] && h[k] <= '9') || ('a' <= h[k] && h[k] <= 'f'));
            }
        }
    }
    r
}

/// The groups of files with identical content, given the digest of each
/// candidate: among the candidates of at least `min_size` bytes that share
/// their size with another candidate and were read, those whose digests
/// agree.  Each group holds two or
/// more files, in candidate order, and every such set of files is a group;
/// no two groups share a digest.  Groups come in the order of their first
/// file.
pub fn group_duplicates(files: &Vec<DupCandidate>, min_size: u64, digests: &Vec<String>) -> (r: Vec<DuplicateGroup>)
    requires
        digests@.len() == files@.len(),
    ensures
        forall|g: int| 0 <= g < r@.len() ==> {
            &&& strings_view(#[trigger] r@[g].files@) == members(files@, min_size, strings_view(digests@), r@[g].hash@, files@.len() as int)
            &&& r@[g].files@.len() >= 2
        },
        forall|g: int, m: int| 0 <= g < m < r@.len() ==> r@[g].hash@ != r@[m].hash@,
        forall|i: int|
            0 <= i < files@.len() && hashed(files@, min_size, i) && members(files@, min_size, strings_view(digests@), strings_view(digests@)[i], files@.len() as int).len() >= 2
                ==> exists|g: int| 0 <= g < r@.len() && #[trigger] r@[g].hash@ == strings_view(digests@)[i],
        forall|g: int| 0 <= g < r@.len() ==> is_candidate_digest(files@, min_size, strings_view(digests@), (#[trigger] r@[g]).hash@),
        distinct_relatives(files@) ==> forall|g: int, m: int, j: int|
            0 <= g < r@.len() && 0 <= m < r@.len() && g != m && 0 <= j < r@[g].files@.len() ==> !strings_view(
                #[trigger] r@[m].files@,
            ).contains(#[trigger] r@[g].files@[j]@),
{
    let ghost fv = files@;
    let ghost ds = strings_view(digests@);
    let need = hash_needed(files, min_size);
    let mut groups: Vec<DuplicateGroup> = Vec::new();
    let mut i: usize = 0;
    while i < files.len()
        invariant
            i <= files.len(),
            fv == files@,
            ds == strings_view(digests@),
            digests@.len() == fv.len(),
            need@.len() == files@.len(),
            forall|m: int| 0 <= m < need@.len() ==> need@[m] == needs_hash(fv, min_size, m),
            forall|g: int| 0 <= g < groups@.len() ==> strings_view(#[trigger] groups@[g].files@) == members(fv, min_size, ds, groups@[g].hash@, i as int),
            forall|g: int| 0 <= g < groups@.len() ==> (#[trigger] groups@[g].files@).len() >= 1,
            forall|g: int, m: int| 0 <= g < m < groups@.len() ==> groups@[g].hash@ != groups@[m].hash@,
            forall|m: int| 0 <= m < i && hashed(fv, min_size, m) ==> exists|g: int| 0 <= g < groups@.len() && #[trigger] groups@[g].hash@ == ds[m],
        decreases files.len() - i,
    {
        let ghost old_groups = groups@;
        let ghost ni: int = i + 1;
        proof {
            lemma_members_len(fv, min_size, ds, ds[i as int], i as int);
        }
        if need[i] {
            match &files[i].content {
                Some(_) => {
                    let h = digests[i].clone();
                    let hc = chars_of(h.as_str());
                    proof {
                        assert(hashed(fv, min_size, i as int));
                        assert(h@ == ds[i as int]);
                    }
                    match find_group(&groups, &hc) {
                        Some(j) => {
                            let mut g = groups.remove(j);
                            let ghost old_files = strings_view(g.files@);
                            g.files.push(files[i].relative.clone());
                            proof {
                                assert(strings_view(g.files@) =~= old_files.push(fv[i as int].relative@));
                            }
                            groups.insert(j, g);
                            proof {
                                assert forall|q: int| 0 <= q < groups@.len() implies strings_view(#[trigger] groups@[q].files@) == members(fv, min_size, ds, groups@[q].hash@, ni) by {
                                    if q != j {
                                        assert(groups@[q] == old_groups[q]);
                                    }
                                }
                                assert forall|q: int| 0 <= q < groups@.len() implies (#[trigger] groups@[q].files@).len() >= 1 by {
                                    if q != j {
                                        assert(groups@[q] == old_groups[q]);
                                    }
                                }
                                assert forall|q: int, m: int| 0 <= q < m < groups@.len() implies groups@[q].hash@ != groups@[m].hash@ by {
                                    assert(groups@[q].hash@ == old_groups[q].hash@);
                                    assert(groups@[m].hash@ == old_groups[m].hash@);
                                }
                                assert forall|m: int| 0 <= m < ni && hashed(fv, min_size, m) implies exists|g: int| 0 <= g < groups@.len() && #[trigger] groups@[g].hash@ == ds[m] by {
                                    if m < i {
                                        let g = choose|g: int| 0 <= g < old_groups.len() && #[trigger] old_groups[g].hash@ == ds[m];
                                        assert(groups@[g].hash@ == old_groups[g].hash@);
                                    } else {
                                        assert(groups@[j as int].hash@ == ds[m]);
                                    }
                                }
                            }
                        },
                        None => {
                            let mut members_v: Vec<String> = Vec::new();
                            members_v.push(files[i].relative.clone());
                            let ghost hv = h@;
                            groups.push(DuplicateGroup { hash: h, files: members_v });
                            proof {
                                assert(members(fv, min_size, ds, hv, i as int).len() == 0) by {
                                    lemma_members_absent(fv, min_size, ds, hv, i as int, old_groups);
                                }
                                assert(members(fv, min_size, ds, hv, i as int) =~= Seq::<Seq<char>>::empty());
                                assert(strings_view(groups@[old_groups.len() as int].files@) =~= members(fv, min_size, ds, hv, ni));
                                assert forall|q: int| 0 <= q < groups@.len() implies strings_view(#[trigger] groups@[q].files@) == members(fv, min_size, ds, groups@[q].hash@, ni) by {
                                    if q < old_groups.len() {
                                        assert(groups@[q] == old_groups[q]);
                                    }
                                }
                                assert forall|q: int| 0 <= q < groups@.len() implies (#[trigger] groups@[q].files@).len() >= 1 by {
                                    if q < old_groups.len() {
                                        assert(groups@[q] == old_groups[q]);
                                    }
                                }
                                assert forall|q: int, m: int| 0 <= q < m < groups@.len() implies groups@[q].hash@ != groups@[m].hash@ by {
                                    assert(groups@[q] == old_groups[q]);
                                    if m < old_groups.len() {
                                        assert(groups@[m] == old_groups[m]);
                                    }
                                }
                                assert forall|m: int| 0 <= m < ni && hashed(fv, min_size, m) implies exists|g: int| 0 <= g < groups@.len() && #[trigger] groups@[g].hash@ == ds[m] by {
                                    if m < i {
                                        let g = choose|g: int| 0 <= g < old_groups.len() && #[trigger] old_groups[g].hash@ == ds[m];
                                        assert(groups@[g] == old_groups[g]);
                                    } else {
                                        assert(groups@[old_groups.len() as int].hash@ == ds[m]);
                                    }
                                }
                            }
                        },
                    }
                },
                None => {
                    proof {
                        lemma_members_step_same(fv, min_size, ds, i as int, groups@);
                    }
                },
            }
        } else {
            proof {
                lemma_members_step_same(fv, min_size, ds, i as int, groups@);
            }
        }
        i += 1;
    }
    // Keep the groups of two or more files.
    let mut out: Vec<DuplicateGroup> = Vec::new();
    let ghost all = groups@;
    let ghost n = files@.len() as int;
    let mut k: usize = 0;
    while k < groups.len()
        invariant
            k <= groups.len(),
            fv == files@,
            ds == strings_view(digests@),
            digests@.len() == fv.len(),
            n == fv.len(),
            all == groups@,
            forall|g: int| 0 <= g < all.len() ==> strings_view(#[trigger] all[g].files@) == members(fv, min_size, ds, all[g].hash@, n),
            forall|g: int, m: int| 0 <= g < m < all.len() ==> all[g].hash@ != all[m].hash@,
            forall|g: int|
                #![trigger out@[g]]
                0 <= g < out@.len() ==> {
                    &&& strings_view(out@[g].files@) == members(fv, min_size, ds, out@[g].hash@, n)
                    &&& out@[g].files@.len() >= 2
                    &&& exists|idx: int| 0 <= idx < k && #[trigger] all[idx].hash@ == out@[g].hash@
                },
            forall|g: int, m: int| 0 <= g < m < out@.len() ==> out@[g].hash@ != out@[m].hash@,
            forall|idx: int|
                #![trigger all[idx]]
                0 <= idx < k && all[idx].files@.len() >= 2 ==> exists|g: int| 0 <= g < out@.len() && #[trigger] out@[g].hash@ == all[idx].hash@,
        decreases groups.len() - k,
    {
        let ghost old_out = out@;
        if groups[k].files.len() >= 2 {
            let g = DuplicateGroup { hash: groups[k].hash.clone(), files: groups[k].files.clone() };
            proof {
                assert(strings_view(g.files@) =~= strings_view(all[k as int].files@));
            }
            out.push(g);
            proof {
                assert forall|q: int| 0 <= q < old_out.len() implies out@[q].hash@ != all[k as int].hash@ by {
                    assert(out@[q] == old_out[q]);
                    let idx = choose|idx: int| 0 <= idx < k && #[trigger] all[idx].hash@ == old_out[q].hash@;
                    assert(all[idx].hash@ != all[k as int].hash@);
                }
                assert forall|g: int, m: int| 0 <= g < m < out@.len() implies out@[g].hash@ != out@[m].hash@ by {
                    if m < old_out.len() {
                        assert(out@[g] == old_out[g]);
                        assert(out@[m] == old_out[m]);
                    } else {
                        assert(out@[g] == old_out[g]);
                    }
                }
                assert forall|g: int|
                    #![trigger out@[g]]
                    0 <= g < out@.len() implies {
                        &&& strings_view(out@[g].files@) == members(fv, min_size, ds, out@[g].hash@, n)
                        &&& out@[g].files@.len() >= 2
                        &&& exists|idx: int| 0 <= idx < k + 1 && #[trigger] all[idx].hash@ == out@[g].hash@
                    } by {
                    if g < old_out.len() {
                        assert(out@[g] == old_out[g]);
                        let idx = choose|idx: int| 0 <= idx < k && #[trigger] all[idx].hash@ == old_out[g].hash@;
                        assert(all[idx].hash@ == out@[g].hash@);
                    } else {
                        assert(all[k as int].hash@ == out@[g].hash@);
                    }
                }
                assert forall|idx: int|
                    #![trigger all[idx]]
                    0 <= idx < k + 1 && all[idx].files@.len() >= 2 implies exists|g: int| 0 <= g < out@.len() && #[trigger] out@[g].hash@ == all[idx].hash@ by {
                    if idx < k {
                        let g = choose|g: int| 0 <= g < old_out.len() && #[trigger] old_out[g].hash@ == all[idx].hash@;
                        assert(out@[g] == old_out[g]);
                    } else {
                        assert(out@[old_out.len() as int].hash@ == all[idx].hash@);
                    }
                }
            }
        } else {
            proof {
                assert forall|g: int|
                    #![trigger out@[g]]
                    0 <= g < out@.len() implies exists|idx: int| 0 <= idx < k + 1 && #[trigger] all[idx].hash@ == out@[g].hash@ by {
                    let idx = choose|idx: int| 0 <= idx < k && #[trigger] all[idx].hash@ == out@[g].hash@;
                }
            }
        }
        k += 1;
    }
    proof {
        assert forall|i: int|
            0 <= i < files@.len() && hashed(files@, min_size, i) && members(files@, min_size, ds, ds[i], files@.len() as int).len() >= 2
                implies exists|g: int| 0 <= g < out@.len() && #[trigger] out@[g].hash@ == ds[i] by {
            let k = choose|k: int| 0 <= k < all.len() && #[trigger] all[k].hash@ == ds[i];
            assert(strings_view(all[k].files@).len() >= 2);
            assert(all[k].files@.len() >= 2);
            assert(all[k] == all[k]);
        }
        lemma_group_facts(fv, min_size, ds, out@);
    }
    out
}

/// No hashed candidate before `k` has a digest of a group that does not
/// exist yet.
proof fn lemma_members_absent(
    files: Seq<DupCandidate>,
    min_size: u64,
    ds: Seq<Seq<char>>,
    h: Seq<char>,
    k: int,
    groups: Seq<DuplicateGroup>,
)
    requires
        0 <= k <= files.len(),
        forall|m: int| 0 <= m < k && hashed(files, min_size, m) ==> exists|g: int| 0 <= g < groups.len() && #[trigger] groups[g].hash@ == ds[m],
        forall|m: int| 0 <= m < groups.len() ==> groups[m].hash@ != h,
    ensures
        members(files, min_size, ds, h, k).len() == 0,
    decreases k,
{
    if k > 0 {
        lemma_members_absent(files, min_size, ds, h, k - 1, groups);
        if hashed(files, min_size, k - 1) && ds[k - 1] == h {
            let g = choose|g: int| 0 <= g < groups.len() && #[trigger] groups[g].hash@ == ds[k - 1];
            assert(groups[g].hash@ != h);
        }
    }
}

/// A candidate that is not hashed adds no member to any group.
proof fn lemma_members_step_same(files: Seq<DupCandidate>, min_size: u64, ds: Seq<Seq<char>>, i: int, groups: Seq<DuplicateGroup>)
    requires
        0 <= i < files.len(),
        !hashed(files, min_size, i),
    ensures
        forall|h: Seq<char>| #[trigger] members(files, min_size, ds, h, i + 1) == members(files, min_size, ds, h, i),
{
    assert forall|h: Seq<char>| #[trigger] members(files, min_size, ds, h, i + 1) == members(files, min_size, ds, h, i) by {
        assert(members(files, min_size, ds, h, i + 1) =~= members(files, min_size, ds, h, i));
    }
}

} // verus!
