//! Character-level string operations used throughout the library, each
//! specified over `Seq<char>`: searching, prefix and suffix tests,
//! non-overlapping replacement, line splitting, trimming and decimal
//! formatting.
use vstd::prelude::*;

verus! {

// ---------------------------------------------------------------------------
// Specifications
// ---------------------------------------------------------------------------

/// `pat` occurs in `s` starting at index `i`.
pub open spec fn occurs_at(s: Seq<char>, pat: Seq<char>, i: int) -> bool {
    0 <= i && i + pat.len() <= s.len() && s.subrange(i, i + pat.len()) == pat
}

/// The first index `>= i` at which `pat` occurs in `s`.
pub open spec fn find_from(s: Seq<char>, pat: Seq<char>, i: int) -> Option<int>
    decreases s.len() - i,
{
    if i < 0 || i + pat.len() > s.len() {
        None
    } else if occurs_at(s, pat, i) {
        Some(i)
    } else if i >= s.len() {
        None
    } else {
        find_from(s, pat, i + 1)
    }
}

/// The first index at which `pat` occurs in `s` (`str::find`).
pub open spec fn spec_find(s: Seq<char>, pat: Seq<char>) -> Option<int> {
    find_from(s, pat, 0)
}

/// `pat` occurs somewhere in `s` (`str::contains`).
pub open spec fn spec_contains(s: Seq<char>, pat: Seq<char>) -> bool {
    spec_find(s, pat) is Some
}

/// The last index `<= j` at which `pat` occurs in `s`.
pub open spec fn rfind_upto(s: Seq<char>, pat: Seq<char>, j: int) -> Option<int>
    decreases j + 1,
{
    if j < 0 {
        None
    } else if occurs_at(s, pat, j) {
        Some(j)
    } else {
        rfind_upto(s, pat, j - 1)
    }
}

/// The last index at which `pat` occurs in `s` (`str::rfind`).
pub open spec fn spec_rfind(s: Seq<char>, pat: Seq<char>) -> Option<int> {
    rfind_upto(s, pat, s.len() - pat.len())
}

/// `s` begins with `pat`.
pub open spec fn spec_starts_with(s: Seq<char>, pat: Seq<char>) -> bool {
    occurs_at(s, pat, 0)
}

/// `s` ends with `pat`.
pub open spec fn spec_ends_with(s: Seq<char>, pat: Seq<char>) -> bool {
    occurs_at(s, pat, s.len() - pat.len())
}

/// Left-to-right, non-overlapping replacement of a non-empty `old` from index `i` on.
pub open spec fn replace_from(s: Seq<char>, old: Seq<char>, new: Seq<char>, i: int) -> Seq<char>
    recommends
        old.len() > 0,
    decreases s.len() - i,
{
    if i < 0 || i >= s.len() || old.len() == 0 {
        Seq::empty()
    } else if occurs_at(s, old, i) {
        new + replace_from(s, old, new, i + old.len())
    } else {
        seq![s[i]] + replace_from(s, old, new, i + 1)
    }
}

/// Number of non-overlapping occurrences of a non-empty `old` from index `i` on.
pub open spec fn count_from(s: Seq<char>, old: Seq<char>, i: int) -> nat
    decreases s.len() - i,
{
    if i < 0 || i >= s.len() || old.len() == 0 {
        0
    } else if occurs_at(s, old, i) {
        1 + count_from(s, old, i + old.len())
    } else {
        count_from(s, old, i + 1)
    }
}

/// Replacement of the empty pattern: `new` before every character and at the end.
pub open spec fn interleave_from(s: Seq<char>, new: Seq<char>, i: int) -> Seq<char>
    decreases s.len() - i,
{
    if i < 0 || i >= s.len() {
        new
    } else {
        new + seq![s[i]] + interleave_from(s, new, i + 1)
    }
}

/// `str::replace(s, old, new)`.
pub open spec fn spec_replace(s: Seq<char>, old: Seq<char>, new: Seq<char>) -> Seq<char> {
    if old.len() == 0 {
        interleave_from(s, new, 0)
    } else {
        replace_from(s, old, new, 0)
    }
}

/// `str::matches(s, old).count()`.
pub open spec fn spec_count(s: Seq<char>, old: Seq<char>) -> nat {
    if old.len() == 0 {
        s.len() + 1
    } else {
        count_from(s, old, 0)
    }
}

/// `char::is_whitespace`: the characters with the Unicode `White_Space` property.
pub open spec fn is_ws(c: char) -> bool {
    ||| ('\u{9}' <= c && c <= '\u{d}')
    ||| c == ' '
    ||| c == '\u{85}'
    ||| c == '\u{a0}'
    ||| c == '\u{1680}'
    ||| ('\u{2000}' <= c && c <= '\u{200a}')
    ||| c == '\u{2028}'
    ||| c == '\u{2029}'
    ||| c == '\u{202f}'
    ||| c == '\u{205f}'
    ||| c == '\u{3000}'
}

/// Number of leading whitespace characters of `s`.
pub open spec fn lead_ws(s: Seq<char>) -> nat
    decreases s.len(),
{
    if s.len() == 0 {
        0
    } else if is_ws(s[0]) {
        1 + lead_ws(s.drop_first())
    } else {
        0
    }
}

/// Number of trailing whitespace characters of `s`.
pub open spec fn trail_ws(s: Seq<char>) -> nat
    decreases s.len(),
{
    if s.len() == 0 {
        0
    } else if is_ws(s.last()) {
        1 + trail_ws(s.drop_last())
    } else {
        0
    }
}

/// `str::trim_start`.
pub open spec fn spec_trim_start(s: Seq<char>) -> Seq<char> {
    s.skip(lead_ws(s) as int)
}

/// `str::trim_end`.
pub open spec fn spec_trim_end(s: Seq<char>) -> Seq<char> {
    s.take(s.len() - trail_ws(s))
}

/// `str::trim`.
pub open spec fn spec_trim(s: Seq<char>) -> Seq<char> {
    spec_trim_end(spec_trim_start(s))
}

/// `str::split_inclusive('\n')`: the pieces of `s`, each ending just after a
/// `'\n'` except possibly the last.
pub open spec fn spec_split_inclusive(s: Seq<char>) -> Seq<Seq<char>>
    decreases s.len(),
{
    if s.len() == 0 {
        Seq::empty()
    } else {
        let p = spec_split_inclusive(s.drop_last());
        let c = s.last();
        if p.len() == 0 || p.last().last() == '\n' {
            p.push(seq![c])
        } else {
            p.drop_last().push(p.last().push(c))
        }
    }
}

/// A piece of `split_inclusive('\n')` without its line ending, as `str::lines` yields it.
pub open spec fn strip_line_ending(seg: Seq<char>) -> Seq<char> {
    if seg.len() > 0 && seg.last() == '\n' {
        let t = seg.drop_last();
        if t.len() > 0 && t.last() == '\r' {
            t.drop_last()
        } else {
            t
        }
    } else {
        seg
    }
}

/// `str::lines`.
pub open spec fn spec_lines(s: Seq<char>) -> Seq<Seq<char>> {
    spec_split_inclusive(s).map_values(|seg: Seq<char>| strip_line_ending(seg))
}

/// The character of a decimal digit.
pub open spec fn digit_char(d: nat) -> char {
    if d == 0 { '0' }
    else if d == 1 { '1' }
    else if d == 2 { '2' }
    else if d == 3 { '3' }
    else if d == 4 { '4' }
    else if d == 5 { '5' }
    else if d == 6 { '6' }
    else if d == 7 { '7' }
    else if d == 8 { '8' }
    else { '9' }
}

/// Decimal representation of `n`, as `format!("{n}")` writes it.
pub open spec fn spec_decimal(n: nat) -> Seq<char>
    decreases n,
{
    if n < 10 {
        seq![digit_char(n)]
    } else {
        spec_decimal(n / 10).push(digit_char(n % 10))
    }
}

/// Lowercase mapping of `str::to_lowercase` (Unicode `Lowercase` mapping).
pub uninterp spec fn spec_lowercase(s: Seq<char>) -> Seq<char>;

/// A character with `A`-`Z` lowered to `a`-`z`.
pub open spec fn ascii_lower_char(c: char) -> char {
    if 'A' <= c && c <= 'Z' {
        ((c as u32) + 32) as char
    } else {
        c
    }
}

/// All characters of `s` are ASCII.
pub open spec fn all_ascii(s: Seq<char>) -> bool {
    forall|i: int| 0 <= i < s.len() ==> (s[i] as u32) < 128
}

// ---------------------------------------------------------------------------
// Lemmas
// ---------------------------------------------------------------------------

pub proof fn lemma_find_from_bounds(s: Seq<char>, pat: Seq<char>, i: int)
    ensures
        find_from(s, pat, i) matches Some(j) ==> i <= j && occurs_at(s, pat, j),
        find_from(s, pat, i) matches Some(j) ==> forall|k: int|
            i <= k < j ==> !occurs_at(s, pat, k),
    decreases s.len() - i,
{
    if i < 0 || i + pat.len() > s.len() {
    } else if occurs_at(s, pat, i) {
    } else if i >= s.len() {
    } else {
        lemma_find_from_bounds(s, pat, i + 1);
    }
}

pub proof fn lemma_find_from_none(s: Seq<char>, pat: Seq<char>, i: int)
    requires
        0 <= i,
        find_from(s, pat, i) is None,
    ensures
        forall|k: int| i <= k ==> !occurs_at(s, pat, k),
    decreases s.len() - i,
{
    if i + pat.len() > s.len() {
    } else if i >= s.len() {
        assert(s.subrange(i, i + pat.len()) =~= pat);
    } else {
        lemma_find_from_none(s, pat, i + 1);
    }
}

/// An occurrence at or after `i` means the search from `i` succeeds.
pub proof fn lemma_find_from_some(s: Seq<char>, pat: Seq<char>, i: int, k: int)
    requires
        0 <= i <= k,
        occurs_at(s, pat, k),
    ensures
        find_from(s, pat, i) is Some,
    decreases s.len() - i,
{
    if occurs_at(s, pat, i) {
    } else if i >= s.len() {
    } else {
        lemma_find_from_some(s, pat, i + 1, k);
    }
}

pub proof fn lemma_rfind_bounds(s: Seq<char>, pat: Seq<char>, j: int)
    ensures
        rfind_upto(s, pat, j) matches Some(k) ==> k <= j && occurs_at(s, pat, k),
    decreases j + 1,
{
    if j < 0 {
    } else if occurs_at(s, pat, j) {
    } else {
        lemma_rfind_bounds(s, pat, j - 1);
    }
}

pub proof fn lemma_lead_ws_bound(s: Seq<char>)
    ensures
        lead_ws(s) <= s.len(),
        forall|k: int| 0 <= k < lead_ws(s) ==> is_ws(s[k]),
        lead_ws(s) < s.len() ==> !is_ws(s[lead_ws(s) as int]),
    decreases s.len(),
{
    if s.len() > 0 && is_ws(s[0]) {
        lemma_lead_ws_bound(s.drop_first());
        assert forall|k: int| 0 <= k < lead_ws(s) implies is_ws(s[k]) by {
            if k > 0 {
                assert(s[k] == s.drop_first()[k - 1]);
            }
        }
    }
}

pub proof fn lemma_trail_ws_bound(s: Seq<char>)
    ensures
        trail_ws(s) <= s.len(),
    decreases s.len(),
{
    if s.len() > 0 && is_ws(s.last()) {
        lemma_trail_ws_bound(s.drop_last());
    }
}

/// `str::lines` yields at most one line per character.
pub proof fn lemma_lines_len(s: Seq<char>)
    ensures
        spec_lines(s).len() <= s.len(),
{
    lemma_split_inclusive_len(s);
}

pub proof fn lemma_split_inclusive_len(s: Seq<char>)
    ensures
        spec_split_inclusive(s).len() <= s.len(),
    decreases s.len(),
{
    if s.len() > 0 {
        lemma_split_inclusive_len(s.drop_last());
    }
}

pub proof fn lemma_decimal_nonempty(n: nat)
    ensures
        spec_decimal(n).len() >= 1,
    decreases n,
{
    if n >= 10 {
        lemma_decimal_nonempty(n / 10);
    }
}

// ---------------------------------------------------------------------------
// Executable functions
// ---------------------------------------------------------------------------

/// `String::push`: appends one character.
#[verifier::external_body]
pub(crate) fn push_char(s: &mut String, c: char)
    ensures
        final(s)@ == old(s)@.push(c),
{
    s.push(c);
}

/// `str::to_lowercase`: the Unicode lowercase mapping of `s`.  The contract
/// names the result; of it, it states only that an all-ASCII text has its
/// letters `A`-`Z` lowered and every other character kept, in place.
#[verifier::external_body]
pub(crate) fn to_lowercase(s: &str) -> (r: String)
    ensures
        r@ == spec_lowercase(s@),
        all_ascii(s@) ==> r@ == s@.map_values(|c: char| ascii_lower_char(c)),
{
    s.to_lowercase()
}

/// The characters of `s`, in order.
pub fn chars_of(s: &str) -> (r: Vec<char>)
    ensures
        r@ == s@,
{
    let mut r: Vec<char> = Vec::new();
    for c in it: s.chars()
        invariant
            r@ == it.seq().take(it.index() as int),
    {
        r.push(c);
    }
    proof {
        assert(r@ =~= s@);
    }
    r
}

/// The string made of `v[lo..hi]`.
pub fn string_of(v: &Vec<char>, lo: usize, hi: usize) -> (r: String)
    requires
        lo <= hi <= v.len(),
    ensures
        r@ == v@.subrange(lo as int, hi as int),
{
    let mut r = String::new();
    let mut i = lo;
    while i < hi
        invariant
            lo <= i <= hi <= v.len(),
            r@ == v@.subrange(lo as int, i as int),
        decreases hi - i,
    {
        push_char(&mut r, v[i]);
        proof {
            assert(v@.subrange(lo as int, i + 1) =~= v@.subrange(lo as int, i as int).push(v@[i as int]));
        }
        i += 1;
    }
    r
}

/// The string made of all of `v`.
pub fn string_from(v: &Vec<char>) -> (r: String)
    ensures
        r@ == v@,
{
    let r = string_of(v, 0, v.len());
    proof {
        assert(v@.subrange(0, v@.len() as int) =~= v@);
    }
    r
}

/// Appends `v[lo..hi]` to `out`.
pub fn push_range(out: &mut String, v: &Vec<char>, lo: usize, hi: usize)
    requires
        lo <= hi <= v.len(),
    ensures
        final(out)@ == old(out)@ + v@.subrange(lo as int, hi as int),
{
    let mut i = lo;
    while i < hi
        invariant
            lo <= i <= hi <= v.len(),
            out@ == old(out)@ + v@.subrange(lo as int, i as int),
        decreases hi - i,
    {
        push_char(out, v[i]);
        proof {
            assert(v@.subrange(lo as int, i + 1) =~= v@.subrange(lo as int, i as int).push(v@[i as int]));
        }
        i += 1;
    }
}

/// Appends all of `v` to `out`.
pub fn push_all(out: &mut String, v: &Vec<char>)
    ensures
        final(out)@ == old(out)@ + v@,
{
    push_range(out, v, 0, v.len());
    proof {
        assert(v@.subrange(0, v@.len() as int) =~= v@);
    }
}

/// The characters of `s` equal those of `t`.
pub fn str_eq(s: &str, t: &str) -> (r: bool)
    ensures
        r == (s@ == t@),
{
    let a = chars_of(s);
    let b = chars_of(t);
    seq_eq(&a, &b)
}

/// `a` and `b` hold the same characters.
pub fn seq_eq(a: &Vec<char>, b: &Vec<char>) -> (r: bool)
    ensures
        r == (a@ == b@),
{
    if a.len() != b.len() {
        return false;
    }
    let mut i: usize = 0;
    while i < a.len()
        invariant
            a.len() == b.len(),
            0 <= i <= a.len(),
            forall|k: int| 0 <= k < i ==> a@[k] == b@[k],
        decreases a.len() - i,
    {
        if a[i] != b[i] {
            return false;
        }
        i += 1;
    }
    proof {
        assert(a@ =~= b@);
    }
    true
}

/// `pat` occurs in `s` at index `i`.
pub fn matches_at(s: &Vec<char>, pat: &Vec<char>, i: usize) -> (r: bool)
    ensures
        r == occurs_at(s@, pat@, i as int),
{
    if i > s.len() || pat.len() > s.len() - i {
        return false;
    }
    let mut k: usize = 0;
    while k < pat.len()
        invariant
            i + pat.len() <= s.len(),
            0 <= k <= pat.len(),
            forall|m: int| 0 <= m < k ==> s@[i + m] == pat@[m],
        decreases pat.len() - k,
    {
        if s[i + k] != pat[k] {
            proof {
                assert(s@.subrange(i as int, i + pat.len())[k as int] != pat@[k as int]);
            }
            return false;
        }
        k += 1;
    }
    proof {
        assert(s@.subrange(i as int, i + pat.len()) =~= pat@);
    }
    true
}

/// First index `>= from` at which `pat` occurs in `s`.
pub fn find_in(s: &Vec<char>, pat: &Vec<char>, from: usize) -> (r: Option<usize>)
    ensures
        r matches Some(j) ==> find_from(s@, pat@, from as int) == Some(j as int),
        r is None ==> find_from(s@, pat@, from as int) is None,
{
    if from > s.len() || pat.len() > s.len() - from {
        return None;
    }
    if pat.len() == 0 {
        proof {
            assert(s@.subrange(from as int, from as int) =~= pat@);
        }
        return Some(from);
    }
    let mut i = from;
    while i <= s.len() - pat.len()
        invariant
            from <= i,
            1 <= pat.len() <= s.len(),
            i <= s.len() - pat.len() + 1,
            find_from(s@, pat@, from as int) == find_from(s@, pat@, i as int),
        decreases s.len() - i,
    {
        if matches_at(s, pat, i) {
            return Some(i);
        }
        i += 1;
    }
    None
}

/// Last index at which `pat` occurs in `s`.
pub fn rfind_in(s: &Vec<char>, pat: &Vec<char>) -> (r: Option<usize>)
    ensures
        r matches Some(j) ==> spec_rfind(s@, pat@) == Some(j as int),
        r is None ==> spec_rfind(s@, pat@) is None,
{
    if pat.len() > s.len() {
        return None;
    }
    let mut j = s.len() - pat.len();
    loop
        invariant
            j <= s.len() - pat.len(),
            pat.len() <= s.len(),
            spec_rfind(s@, pat@) == rfind_upto(s@, pat@, j as int),
        decreases j,
    {
        if matches_at(s, pat, j) {
            return Some(j);
        }
        if j == 0 {
            proof {
                assert(rfind_upto(s@, pat@, -1) is None);
            }
            return None;
        }
        j -= 1;
    }
}

/// `s` contains `pat`.
pub fn contains(s: &Vec<char>, pat: &Vec<char>) -> (r: bool)
    ensures
        r == spec_contains(s@, pat@),
{
    find_in(s, pat, 0).is_some()
}

/// `s` begins with `pat`.
pub fn starts_with(s: &Vec<char>, pat: &Vec<char>) -> (r: bool)
    ensures
        r == spec_starts_with(s@, pat@),
{
    matches_at(s, pat, 0)
}

/// `s` ends with `pat`.
pub fn ends_with(s: &Vec<char>, pat: &Vec<char>) -> (r: bool)
    ensures
        r == spec_ends_with(s@, pat@),
{
    if pat.len() > s.len() {
        return false;
    }
    matches_at(s, pat, s.len() - pat.len())
}

/// `s` contains the character `c`.
pub fn contains_char(s: &Vec<char>, c: char) -> (r: bool)
    ensures
        r == s@.contains(c),
{
    let mut i: usize = 0;
    while i < s.len()
        invariant
            0 <= i <= s.len(),
            forall|k: int| 0 <= k < i ==> s@[k] != c,
        decreases s.len() - i,
    {
        if s[i] == c {
            proof {
                assert(s@[i as int] == c);
            }
            return true;
        }
        i += 1;
    }
    false
}

/// `str::replace(s, old, new)` together with `str::matches(s, old).count()`.
pub fn replace_all(s: &Vec<char>, old: &Vec<char>, new: &Vec<char>) -> (r: (String, usize))
    requires
        s.len() + 1 < usize::MAX,
    ensures
        r.0@ == spec_replace(s@, old@, new@),
        r.1 as nat == spec_count(s@, old@),
{
    let mut out = String::new();
    if old.len() == 0 {
        let mut i: usize = 0;
        while i < s.len()
            invariant
                0 <= i <= s.len(),
                out@ + interleave_from(s@, new@, i as int) == interleave_from(s@, new@, 0),
            decreases s.len() - i,
        {
            proof {
                assert(out@ + new@ + seq![s@[i as int]] + interleave_from(s@, new@, i + 1)
                    =~= out@ + interleave_from(s@, new@, i as int));
            }
            push_all(&mut out, new);
            push_char(&mut out, s[i]);
            i += 1;
        }
        push_all(&mut out, new);
        return (out, s.len() + 1);
    }
    let mut i: usize = 0;
    let mut count: usize = 0;
    while i < s.len()
        invariant
            old.len() > 0,
            s.len() + 1 < usize::MAX,
            0 <= i <= s.len(),
            count <= i,
            out@ + replace_from(s@, old@, new@, i as int) == replace_from(s@, old@, new@, 0),
            count + count_from(s@, old@, i as int) == count_from(s@, old@, 0),
        decreases s.len() - i,
    {
        if matches_at(s, old, i) {
            proof {
                assert(out@ + new@ + replace_from(s@, old@, new@, i + old.len())
                    =~= out@ + replace_from(s@, old@, new@, i as int));
            }
            push_all(&mut out, new);
            i += old.len();
            count += 1;
        } else {
            proof {
                assert(out@ + seq![s@[i as int]] + replace_from(s@, old@, new@, i + 1)
                    =~= out@ + replace_from(s@, old@, new@, i as int));
            }
            push_char(&mut out, s[i]);
            i += 1;
        }
    }
    proof {
        assert(out@ + replace_from(s@, old@, new@, i as int) =~= out@);
    }
    (out, count)
}

/// Index of the first non-whitespace character of `s[lo..hi]`, or `hi`.
fn skip_ws(s: &Vec<char>, lo: usize, hi: usize) -> (r: usize)
    requires
        lo <= hi <= s.len(),
    ensures
        r == lo + lead_ws(s@.subrange(lo as int, hi as int)),
{
    let mut i = lo;
    while i < hi && is_whitespace(s[i])
        invariant
            lo <= i <= hi <= s.len(),
            lead_ws(s@.subrange(lo as int, hi as int)) == (i - lo) + lead_ws(
                s@.subrange(i as int, hi as int),
            ),
        decreases hi - i,
    {
        proof {
            assert(s@.subrange(i as int, hi as int).drop_first() =~= s@.subrange(i + 1, hi as int));
        }
        i += 1;
    }
    i
}

/// End of `s[lo..hi]` with its trailing whitespace removed.
fn skip_ws_back(s: &Vec<char>, lo: usize, hi: usize) -> (r: usize)
    requires
        lo <= hi <= s.len(),
    ensures
        r + trail_ws(s@.subrange(lo as int, hi as int)) == hi,
{
    let mut j = hi;
    while j > lo && is_whitespace(s[j - 1])
        invariant
            lo <= j <= hi <= s.len(),
            trail_ws(s@.subrange(lo as int, hi as int)) == (hi - j) + trail_ws(
                s@.subrange(lo as int, j as int),
            ),
        decreases j - lo,
    {
        proof {
            assert(s@.subrange(lo as int, j as int).drop_last() =~= s@.subrange(lo as int, j - 1));
        }
        j -= 1;
    }
    j
}

/// `char::is_whitespace`.
pub fn is_whitespace(c: char) -> (r: bool)
    ensures
        r == is_ws(c),
{
    ('\u{9}' <= c && c <= '\u{d}') || c == ' ' || c == '\u{85}' || c == '\u{a0}'
        || c == '\u{1680}' || ('\u{2000}' <= c && c <= '\u{200a}') || c == '\u{2028}'
        || c == '\u{2029}' || c == '\u{202f}' || c == '\u{205f}' || c == '\u{3000}'
}

/// `str::trim` on `s[lo..hi]`, returned as the bounds of the trimmed part.
pub fn trim_bounds(s: &Vec<char>, lo: usize, hi: usize) -> (r: (usize, usize))
    requires
        lo <= hi <= s.len(),
    ensures
        lo <= r.0 <= r.1 <= hi,
        s@.subrange(r.0 as int, r.1 as int) == spec_trim(s@.subrange(lo as int, hi as int)),
{
    let a = skip_ws(s, lo, hi);
    proof {
        lemma_lead_ws_bound(s@.subrange(lo as int, hi as int));
    }
    let b = skip_ws_back(s, a, hi);
    proof {
        let t = s@.subrange(lo as int, hi as int);
        assert(t.skip(lead_ws(t) as int) =~= s@.subrange(a as int, hi as int));
        lemma_trail_ws_bound(s@.subrange(a as int, hi as int));
        assert(s@.subrange(a as int, hi as int).take(hi - a - trail_ws(s@.subrange(a as int, hi as int)))
            =~= s@.subrange(a as int, b as int));
    }
    (a, b)
}

/// `str::trim`, as a new vector of characters.
pub fn trim(s: &Vec<char>) -> (r: Vec<char>)
    ensures
        r@ == spec_trim(s@),
{
    let (a, b) = trim_bounds(s, 0, s.len());
    proof {
        assert(s@.subrange(0, s@.len() as int) =~= s@);
    }
    slice_vec(s, a, b)
}

/// `s[lo..hi]` as a new vector.
pub fn slice_vec(s: &Vec<char>, lo: usize, hi: usize) -> (r: Vec<char>)
    requires
        lo <= hi <= s.len(),
    ensures
        r@ == s@.subrange(lo as int, hi as int),
{
    let mut r: Vec<char> = Vec::new();
    let mut i = lo;
    while i < hi
        invariant
            lo <= i <= hi <= s.len(),
            r@ == s@.subrange(lo as int, i as int),
        decreases hi - i,
    {
        r.push(s[i]);
        proof {
            assert(s@.subrange(lo as int, i + 1) =~= s@.subrange(lo as int, i as int).push(s@[i as int]));
        }
        i += 1;
    }
    r
}

/// `str::split_inclusive('\n')`.
pub fn split_inclusive(s: &Vec<char>) -> (r: Vec<Vec<char>>)
    ensures
        r@.map_values(|v: Vec<char>| v@) == spec_split_inclusive(s@),
{
    let mut done: Vec<Vec<char>> = Vec::new();
    let mut cur: Vec<char> = Vec::new();
    let mut i: usize = 0;
    while i < s.len()
        invariant
            0 <= i <= s.len(),
            cur@.len() == 0 ==> done@.map_values(|v: Vec<char>| v@) == spec_split_inclusive(s@.take(i as int)),
            cur@.len() > 0 ==> done@.map_values(|v: Vec<char>| v@).push(cur@) == spec_split_inclusive(s@.take(i as int)),
            cur@.len() > 0 ==> cur@.last() != '\n',
            done@.len() > 0 ==> done@.last()@.len() > 0 && done@.last()@.last() == '\n',
        decreases s.len() - i,
    {
        let c = s[i];
        proof {
            let t = s@.take(i + 1);
            assert(t.drop_last() =~= s@.take(i as int));
            assert(t.last() == c);
            let dv = done@.map_values(|v: Vec<char>| v@);
            if cur@.len() == 0 {
                if dv.len() > 0 {
                    assert(dv.last() == done@.last()@);
                }
            } else {
                assert(dv.push(cur@).last() == cur@);
                assert(dv.push(cur@).drop_last() =~= dv);
            }
        }
        let ghost old_done = done@.map_values(|v: Vec<char>| v@);
        let ghost old_cur = cur@;
        cur.push(c);
        if c == '\n' {
            let piece = cur;
            done.push(piece);
            cur = Vec::new();
            proof {
                assert(done@.map_values(|v: Vec<char>| v@) =~= old_done.push(old_cur.push(c)));
                if old_cur.len() == 0 {
                    assert(old_cur.push(c) =~= seq![c]);
                }
            }
        } else {
            proof {
                if old_cur.len() == 0 {
                    assert(cur@ =~= seq![c]);
                }
            }
        }
        i += 1;
    }
    proof {
        assert(s@.take(s@.len() as int) =~= s@);
    }
    if cur.len() > 0 {
        let ghost dv = done@.map_values(|v: Vec<char>| v@);
        done.push(cur);
        proof {
            assert(done@.map_values(|v: Vec<char>| v@) =~= dv.push(done@.last()@));
        }
    }
    done
}

/// A piece of `split_inclusive('\n')` without its line ending.
pub fn strip_ending(seg: &Vec<char>) -> (r: Vec<char>)
    ensures
        r@ == strip_line_ending(seg@),
{
    let n = seg.len();
    if n > 0 && seg[n - 1] == '\n' {
        if n > 1 && seg[n - 2] == '\r' {
            proof {
                assert(seg@.drop_last().last() == '\r');
                assert(seg@.drop_last().drop_last() =~= seg@.subrange(0, n - 2));
            }
            slice_vec(seg, 0, n - 2)
        } else {
            proof {
                assert(seg@.drop_last() =~= seg@.subrange(0, n - 1));
            }
            slice_vec(seg, 0, n - 1)
        }
    } else {
        proof {
            assert(seg@.subrange(0, n as int) =~= seg@);
        }
        slice_vec(seg, 0, n)
    }
}

/// `str::lines`.
pub fn lines(s: &Vec<char>) -> (r: Vec<Vec<char>>)
    ensures
        r@.len() == spec_lines(s@).len(),
        forall|k: int| 0 <= k < r@.len() ==> #[trigger] r@[k]@ == spec_lines(s@)[k],
{
    let pieces = split_inclusive(s);
    let ghost pv = pieces@.map_values(|v: Vec<char>| v@);
    let mut r: Vec<Vec<char>> = Vec::new();
    let mut k: usize = 0;
    while k < pieces.len()
        invariant
            0 <= k <= pieces.len(),
            pv == spec_split_inclusive(s@),
            pv == pieces@.map_values(|v: Vec<char>| v@),
            r@.len() == k,
            forall|m: int| 0 <= m < k ==> #[trigger] r@[m]@ == spec_lines(s@)[m],
        decreases pieces.len() - k,
    {
        let l = strip_ending(&pieces[k]);
        proof {
            assert(pv[k as int] == pieces@[k as int]@);
        }
        r.push(l);
        k += 1;
    }
    r
}

/// `format!("{n}")`.
pub fn decimal(n: usize) -> (r: String)
    ensures
        r@ == spec_decimal(n as nat),
    decreases n,
{
    if n < 10 {
        let mut r = String::new();
        push_char(&mut r, digit(n));
        proof {
            assert(r@ =~= seq![digit_char(n as nat)]);
        }
        r
    } else {
        let mut r = decimal(n / 10);
        push_char(&mut r, digit(n % 10));
        r
    }
}

fn digit(d: usize) -> (c: char)
    requires
        d < 10,
    ensures
        c == digit_char(d as nat),
{
    if d == 0 { '0' }
    else if d == 1 { '1' }
    else if d == 2 { '2' }
    else if d == 3 { '3' }
    else if d == 4 { '4' }
    else if d == 5 { '5' }
    else if d == 6 { '6' }
    else if d == 7 { '7' }
    else if d == 8 { '8' }
    else { '9' }
}


/// `str::trim_end_matches(pat)` for a non-empty `pat`: every trailing
/// occurrence of `pat` removed.
pub open spec fn spec_trim_end_pat(s: Seq<char>, pat: Seq<char>) -> Seq<char>
    decreases s.len(),
{
    if pat.len() > 0 && pat.len() <= s.len() && spec_ends_with(s, pat) {
        spec_trim_end_pat(s.take(s.len() - pat.len()), pat)
    } else {
        s
    }
}

/// `str::trim_start_matches(pat)` for a non-empty `pat`: every leading
/// occurrence of `pat` removed.
pub open spec fn spec_trim_start_pat(s: Seq<char>, pat: Seq<char>) -> Seq<char>
    decreases s.len(),
{
    if pat.len() > 0 && pat.len() <= s.len() && spec_starts_with(s, pat) {
        spec_trim_start_pat(s.skip(pat.len() as int), pat)
    } else {
        s
    }
}

/// `str::trim_end_matches(pat)` for a non-empty `pat`.
pub fn trim_end_pat(s: &Vec<char>, pat: &Vec<char>) -> (r: Vec<char>)
    requires
        pat.len() > 0,
    ensures
        r@ == spec_trim_end_pat(s@, pat@),
{
    let mut hi = s.len();
    proof {
        assert(s@.take(s@.len() as int) =~= s@);
    }
    while pat.len() <= hi && matches_at(s, pat, hi - pat.len())
        invariant
            0 < pat.len(),
            hi <= s.len(),
            spec_trim_end_pat(s@.take(hi as int), pat@) == spec_trim_end_pat(s@, pat@),
        decreases hi,
    {
        proof {
            let t = s@.take(hi as int);
            assert(t.subrange(hi - pat.len(), hi as int) =~= s@.subrange(hi - pat.len(), hi as int));
            assert(spec_ends_with(t, pat@));
            assert(t.take(t.len() - pat@.len()) =~= s@.take(hi - pat.len()));
        }
        hi = hi - pat.len();
    }
    proof {
        let t = s@.take(hi as int);
        if pat@.len() <= t.len() && spec_ends_with(t, pat@) {
            assert(t.subrange(hi - pat.len(), hi as int) =~= s@.subrange(hi - pat.len(), hi as int));
        }
    }
    slice_vec(s, 0, hi)
}

/// `str::trim_start_matches(pat)` for a non-empty `pat`.
pub fn trim_start_pat(s: &Vec<char>, pat: &Vec<char>) -> (r: Vec<char>)
    requires
        pat.len() > 0,
    ensures
        r@ == spec_trim_start_pat(s@, pat@),
{
    let mut lo: usize = 0;
    proof {
        assert(s@.skip(0) =~= s@);
    }
    while pat.len() <= s.len() - lo && matches_at(s, pat, lo)
        invariant
            0 < pat.len(),
            lo <= s.len(),
            spec_trim_start_pat(s@.skip(lo as int), pat@) == spec_trim_start_pat(s@, pat@),
        decreases s.len() - lo,
    {
        proof {
            let t = s@.skip(lo as int);
            assert(t.subrange(0, pat.len() as int) =~= s@.subrange(lo as int, lo + pat.len()));
            assert(spec_starts_with(t, pat@));
            assert(t.skip(pat@.len() as int) =~= s@.skip(lo + pat.len()));
        }
        lo = lo + pat.len();
    }
    proof {
        let t = s@.skip(lo as int);
        if pat@.len() <= t.len() && spec_starts_with(t, pat@) {
            assert(t.subrange(0, pat.len() as int) =~= s@.subrange(lo as int, lo + pat.len()));
        }
        assert(s@.subrange(lo as int, s@.len() as int) =~= s@.skip(lo as int));
    }
    slice_vec(s, lo, s.len())
}

/// `a` followed by `b`, as a new string.
pub fn concat(a: &str, b: &str) -> (r: String)
    ensures
        r@ == a@ + b@,
{
    let mut out = string_from(&chars_of(a));
    push_all(&mut out, &chars_of(b));
    out
}

/// A non-empty pattern occurs at most once per character.
pub proof fn lemma_count_from_bound(s: Seq<char>, old: Seq<char>, i: int)
    requires
        0 <= i,
    ensures
        count_from(s, old, i) <= if i <= s.len() { s.len() - i } else { 0 },
    decreases s.len() - i,
{
    if i < s.len() && old.len() > 0 {
        if occurs_at(s, old, i) {
            lemma_count_from_bound(s, old, i + old.len());
        } else {
            lemma_count_from_bound(s, old, i + 1);
        }
    }
}

/// `str::matches(s, old).count()` is at most one more than the length of `s`.
pub proof fn lemma_count_bound(s: Seq<char>, old: Seq<char>)
    ensures
        spec_count(s, old) <= s.len() + 1,
{
    if old.len() > 0 {
        lemma_count_from_bound(s, old, 0);
    }
}

/// `str::replace(s, old, new)`.
pub fn replace_str(s: &Vec<char>, old: &Vec<char>, new: &Vec<char>) -> (r: String)
    ensures
        r@ == spec_replace(s@, old@, new@),
{
    let mut out = String::new();
    if old.len() == 0 {
        let mut i: usize = 0;
        while i < s.len()
            invariant
                0 <= i <= s.len(),
                out@ + interleave_from(s@, new@, i as int) == interleave_from(s@, new@, 0),
            decreases s.len() - i,
        {
            proof {
                assert(out@ + new@ + seq![s@[i as int]] + interleave_from(s@, new@, i + 1)
                    =~= out@ + interleave_from(s@, new@, i as int));
            }
            push_all(&mut out, new);
            push_char(&mut out, s[i]);
            i += 1;
        }
        push_all(&mut out, new);
        return out;
    }
    let mut i: usize = 0;
    while i < s.len()
        invariant
            old.len() > 0,
            0 <= i <= s.len(),
            out@ + replace_from(s@, old@, new@, i as int) == replace_from(s@, old@, new@, 0),
        decreases s.len() - i,
    {
        if matches_at(s, old, i) {
            proof {
                assert(out@ + new@ + replace_from(s@, old@, new@, i + old.len())
                    =~= out@ + replace_from(s@, old@, new@, i as int));
            }
            push_all(&mut out, new);
            i += old.len();
        } else {
            proof {
                assert(out@ + seq![s@[i as int]] + replace_from(s@, old@, new@, i + 1)
                    =~= out@ + replace_from(s@, old@, new@, i as int));
            }
            push_char(&mut out, s[i]);
            i += 1;
        }
    }
    proof {
        assert(out@ + replace_from(s@, old@, new@, i as int) =~= out@);
    }
    out
}

/// `format!("{n}")` for an `i32`.
pub open spec fn spec_decimal_i32(n: i32) -> Seq<char> {
    if n < 0 {
        seq!['-'] + spec_decimal((-(n as int)) as nat)
    } else {
        spec_decimal(n as nat)
    }
}

/// `format!("{n}")` for an `i32`.
pub fn decimal_i32(n: i32) -> (r: String)
    ensures
        r@ == spec_decimal_i32(n),
{
    if n < 0 {
        let m: u64 = if n == i32::MIN { 2147483648u64 } else { (-n) as u64 };
        let d = decimal(m as usize);
        let mut r = String::new();
        push_char(&mut r, '-');
        push_all(&mut r, &chars_of(d.as_str()));
        r
    } else {
        decimal(n as usize)
    }
}

} // verus!
