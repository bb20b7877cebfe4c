//! Regular-expression matching and replacement, and the escaping that turns
//! a literal into a pattern.
use vstd::prelude::*;

verus! {

/// The pattern compiles as a regular expression.
pub uninterp spec fn regex_valid(pattern: Seq<char>) -> bool;

/// The text with every non-overlapping match of the pattern, leftmost
/// first, replaced by the replacement with `$name` expansion.
pub uninterp spec fn regex_replaced(pattern: Seq<char>, text: Seq<char>, rep: Seq<char>) -> Seq<char>;

/// The number of non-overlapping matches of the pattern in the text.
pub uninterp spec fn regex_match_count(pattern: Seq<char>, text: Seq<char>) -> nat;

/// `regex::Regex::new`: whether the pattern compiles; the error otherwise.
/// Which patterns compile is named, not stated.
#[verifier::external_body]
pub(crate) fn regex_check(pattern: &str) -> (r: Result<(), regex::Error>)
    ensures
        r is Ok <==> regex_valid(pattern@),
{
    match regex::Regex::new(pattern) {
        Ok(_) => Ok(()),
        Err(e) => Err(e),
    }
}

/// `regex::Regex::replace_all` of a compiled pattern.  The result is named,
/// not stated.
#[verifier::external_body]
pub(crate) fn regex_replace(pattern: &str, text: &str, rep: &str) -> (r: Option<String>)
    ensures
        r is Some <==> regex_valid(pattern@),
        r matches Some(s) ==> s@ == regex_replaced(pattern@, text@, rep@),
{
    match regex::Regex::new(pattern) {
        Ok(re) => Some(re.replace_all(text, rep).to_string()),
        Err(_) => None,
    }
}

/// `regex::Regex::find_iter(..).count()` of a compiled pattern.  The count
/// is named, not stated.
#[verifier::external_body]
pub(crate) fn regex_count(pattern: &str, text: &str) -> (r: Option<usize>)
    ensures
        r is Some <==> regex_valid(pattern@),
        r matches Some(n) ==> n as nat == regex_match_count(pattern@, text@),
{
    match regex::Regex::new(pattern) {
        Ok(re) => Some(re.find_iter(text).count()),
        Err(_) => None,
    }
}

/// The characters that `regex::escape` escapes.
pub open spec fn is_meta(c: char) -> bool {
    c == '\\' || c == '.' || c == '+' || c == '*' || c == '?' || c == '(' || c == ')' || c == '|'
        || c == '[' || c == ']' || c == '{' || c == '}' || c == '^' || c == '$' || c == '#'
        || c == '&' || c == '-' || c == '~'
}

/// `regex::escape`: a backslash before every meta character.
pub open spec fn spec_regex_escape(s: Seq<char>) -> Seq<char>
    decreases s.len(),
{
    if s.len() == 0 {
        Seq::empty()
    } else {
        spec_regex_escape(s.drop_last()) + if is_meta(s.last()) {
            seq!['\\', s.last()]
        } else {
            seq![s.last()]
        }
    }
}

/// `regex::escape`: the pattern that matches `s` literally.
pub fn regex_escape(s: &str) -> (r: String)
    ensures
        r@ == spec_regex_escape(s@),
{
    let cs = crate::text::chars_of(s);
    let mut out = String::new();
    let mut i: usize = 0;
    proof {
        assert(cs@.take(0) =~= Seq::<char>::empty());
    }
    while i < cs.len()
        invariant
            i <= cs.len(),
            cs@ == s@,
            out@ == spec_regex_escape(cs@.take(i as int)),
        decreases cs.len() - i,
    {
        let c = cs[i];
        proof {
            assert(cs@.take(i + 1).drop_last() =~= cs@.take(i as int));
        }
        if c == '\\' || c == '.' || c == '+' || c == '*' || c == '?' || c == '(' || c == ')' || c
            == '|' || c == '[' || c == ']' || c == '{' || c == '}' || c == '^' || c == '$' || c
            == '#' || c == '&' || c == '-' || c == '~' {
            crate::text::push_char(&mut out, '\\');
        }
        crate::text::push_char(&mut out, c);
        proof {
            assert(out@ =~= spec_regex_escape(cs@.take(i + 1)));
        }
        i += 1;
    }
    proof {
        assert(cs@.take(cs@.len() as int) =~= cs@);
    }
    out
}

} // verus!
