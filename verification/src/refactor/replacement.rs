//! Text replacement across the files of a repository: literal (case
//! sensitive or not, whole words or not) or by regular expression.
use vstd::prelude::*;
use crate::error::RefactorError;
use crate::refactor::matching::{
    regex_check, regex_count, regex_escape, regex_match_count, regex_replace, regex_replaced,
    regex_valid, spec_regex_escape,
};
use crate::scanner::{texts_fit, LoadedFile};
use crate::output::{line_views, out_blank, out_heading, out_info, same_settings, wrote, LineKind, Output};
use crate::text::{decimal, spec_decimal};
use crate::text::{chars_of, concat, replace_all, spec_count, spec_replace, string_from};

verus! {

/// What a replacement looks for: a regular expression (its source, which
/// compiles) or a literal.
pub enum Pattern {
    Regex(String),
    Literal { old: String, case_sensitive: bool, whole_word: bool },
}

/// One file to rewrite.
pub struct FileChange {
    pub path: String,
    pub relative: String,
    pub replacements: usize,
    pub new_content: String,
    pub has_bom: bool,
}

/// The plan of a replacement.
pub struct ReplacePlan {
    pub files_affected: usize,
    pub replacements: usize,
    pub changes: Vec<FileChange>,
}

/// The regular expression of a regex-mode replacement: `(?i)` unless case
/// sensitive, and `\b` around the pattern for whole words.
pub open spec fn regex_source(old: Seq<char>, case_sensitive: bool, whole_word: bool) -> Seq<char> {
    (if case_sensitive {
        Seq::empty()
    } else {
        "(?i)"@
    }) + if whole_word {
        "\\b"@ + old + "\\b"@
    } else {
        old
    }
}

/// The pattern a replacement uses, when its regular expression compiles.
pub open spec fn spec_build_pattern(old: Seq<char>, regex_mode: bool, case_sensitive: bool, whole_word: bool, p: Pattern) -> bool {
    if regex_mode {
        p matches Pattern::Regex(src) && src@ == regex_source(old, case_sensitive, whole_word)
    } else {
        p matches Pattern::Literal { old: o, case_sensitive: cs, whole_word: ww } && o@ == old && cs
            == case_sensitive && ww == whole_word
    }
}

/// The pattern of a replacement; the regex error when a regular expression
/// does not compile.
pub fn build_pattern(old: &str, regex_mode: bool, case_sensitive: bool, whole_word: bool) -> (r: Result<Pattern, RefactorError>)
    ensures
        r is Err <==> regex_mode && !regex_valid(regex_source(old@, case_sensitive, whole_word)),
        r matches Err(e) ==> e is Regex,
        r matches Ok(p) ==> spec_build_pattern(old@, regex_mode, case_sensitive, whole_word, p),
{
    if regex_mode {
        let flags = if case_sensitive {
            String::new()
        } else {
            string_from(&chars_of("(?i)"))
        };
        let body = if whole_word {
            concat(concat("\\b", old).as_str(), "\\b")
        } else {
            string_from(&chars_of(old))
        };
        let pattern_str = concat(flags.as_str(), body.as_str());
        proof {
            assert(pattern_str@ == regex_source(old@, case_sensitive, whole_word));
        }
        match regex_check(pattern_str.as_str()) {
            Ok(()) => Ok(Pattern::Regex(pattern_str)),
            Err(e) => Err(RefactorError::Regex(e)),
        }
    } else {
        Ok(Pattern::Literal { old: string_from(&chars_of(old)), case_sensitive, whole_word })
    }
}

/// A regex replacement that reports its count: the text unchanged and 0
/// when the pattern does not compile or does not match.
pub open spec fn regex_result(p: Seq<char>, text: Seq<char>, new: Seq<char>) -> (Seq<char>, nat) {
    if !regex_valid(p) || regex_match_count(p, text) == 0 {
        (text, 0)
    } else {
        (regex_replaced(p, text, new), regex_match_count(p, text))
    }
}

/// The case-insensitive literal pattern, or the plain escaped literal when
/// that one does not compile.
pub open spec fn ci_pattern(old: Seq<char>) -> Seq<char> {
    let p = "(?i)"@ + spec_regex_escape(old);
    if regex_valid(p) {
        p
    } else {
        spec_regex_escape(old)
    }
}

/// The whole-word literal pattern: `(?i)` in front unless case sensitive.
pub open spec fn word_pattern(old: Seq<char>, case_sensitive: bool) -> Seq<char> {
    (if case_sensitive {
        Seq::empty()
    } else {
        "(?i)"@
    }) + "\\b"@ + spec_regex_escape(old) + "\\b"@
}

/// A replacement's result and count on one text.
pub open spec fn spec_apply(text: Seq<char>, p: Pattern, new: Seq<char>) -> Option<(Seq<char>, nat)> {
    match p {
        Pattern::Regex(src) => if regex_valid(src@) && regex_match_count(src@, text) > 0 {
            Some((regex_replaced(src@, text, new), regex_match_count(src@, text)))
        } else {
            None
        },
        Pattern::Literal { old, case_sensitive, whole_word } => {
            let res = if whole_word {
                regex_result(word_pattern(old@, case_sensitive), text, new)
            } else if case_sensitive {
                (spec_replace(text, old@, new), spec_count(text, old@))
            } else {
                regex_result(ci_pattern(old@), text, new)
            };
            if res.1 == 0 {
                None
            } else {
                Some(res)
            }
        },
    }
}

/// A regex replacement's result from the pattern's match count on `text`
/// and the replaced text (each `None` where the pattern did not compile):
/// the replaced text and the count when something matched, else `text`
/// unchanged and 0.
pub fn regex_outcome(text: &str, count: Option<usize>, replaced: Option<String>) -> (r: (String, usize))
    ensures
        (count is Some && count->0 > 0 && replaced is Some) ==> r.0@ == replaced->0@ && r.1 == count->0,
        !(count is Some && count->0 > 0 && replaced is Some) ==> r.0@ == text@ && r.1 == 0,
{
    match count {
        Some(n) => {
            if n > 0 {
                match replaced {
                    Some(s) => {
                        return (s, n);
                    },
                    None => {},
                }
            }
            (string_from(&chars_of(text)), 0)
        },
        None => (string_from(&chars_of(text)), 0),
    }
}

/// Law: a literal replacement.  A case-sensitive one, not by whole words,
/// is `str::replace` with the count of `str::matches`; one by whole words
/// is the regex `\b<old>\b`, prefixed by `(?i)` unless case-sensitive;
/// any other is the regex `(?i)<old>` (the escaped `old` alone where that
/// does not compile).  In each case the result is given exactly when the
/// count is positive.
pub proof fn law_literal_replacement(text: Seq<char>, old: String, case_sensitive: bool, whole_word: bool, new: Seq<char>)
    ensures
        ({
            let p = Pattern::Literal { old, case_sensitive, whole_word };
            let esc = spec_regex_escape(old@);
            let res = if whole_word {
                regex_result((if case_sensitive { Seq::empty() } else { "(?i)"@ }) + "\\b"@ + esc + "\\b"@, text, new)
            } else if case_sensitive {
                (spec_replace(text, old@, new), spec_count(text, old@))
            } else if regex_valid("(?i)"@ + esc) {
                regex_result("(?i)"@ + esc, text, new)
            } else {
                regex_result(esc, text, new)
            };
            &&& res.1 > 0 ==> spec_apply(text, p, new) == Some(res)
            &&& res.1 == 0 ==> spec_apply(text, p, new) is None
        }),
{
}

/// Applies a compiled regular expression, with its count.
fn regex_apply(p: &str, text: &str, new: &str) -> (r: (String, usize))
    ensures
        r.0@ == regex_result(p@, text@, new@).0,
        r.1 as nat == regex_result(p@, text@, new@).1,
{
    let count = regex_count(p, text);
    let replaced = match count {
        Some(n) => if n > 0 {
            regex_replace(p, text, new)
        } else {
            None
        },
        None => None,
    };
    regex_outcome(text, count, replaced)
}

/// `str::replace` with `str::matches(..).count()`.
pub fn literal_replace(text: &str, old: &str, new: &str) -> (r: (String, usize))
    requires
        text@.len() + 1 < usize::MAX,
    ensures
        r.0@ == spec_replace(text@, old@, new@),
        r.1 as nat == spec_count(text@, old@),
{
    replace_all(&chars_of(text), &chars_of(old), &chars_of(new))
}

/// Case-insensitive literal replacement.
pub fn literal_replace_case_insensitive(text: &str, old: &str, new: &str) -> (r: (String, usize))
    ensures
        r.0@ == regex_result(ci_pattern(old@), text@, new@).0,
        r.1 as nat == regex_result(ci_pattern(old@), text@, new@).1,
{
    let escaped = regex_escape(old);
    let p = concat("(?i)", escaped.as_str());
    match regex_check(p.as_str()) {
        Ok(()) => regex_apply(p.as_str(), text, new),
        Err(_) => regex_apply(escaped.as_str(), text, new),
    }
}

/// Whole-word literal replacement; it ignores case unless `case_sensitive`.
pub fn literal_replace_whole_word(text: &str, old: &str, new: &str, case_sensitive: bool) -> (r: (String, usize))
    ensures
        r.0@ == regex_result(word_pattern(old@, case_sensitive), text@, new@).0,
        r.1 as nat == regex_result(word_pattern(old@, case_sensitive), text@, new@).1,
{
    let flags = if case_sensitive {
        String::new()
    } else {
        string_from(&chars_of("(?i)"))
    };
    let p = concat(concat(concat(flags.as_str(), "\\b").as_str(), regex_escape(old).as_str()).as_str(), "\\b");
    proof {
        assert(p@ =~= word_pattern(old@, case_sensitive));
    }
    regex_apply(p.as_str(), text, new)
}

/// The replaced text and the number of replacements, when there is at least
/// one.
pub fn apply_replacement(text: &str, pattern: &Pattern, new: &str) -> (r: Option<(String, usize)>)
    requires
        text@.len() + 1 < usize::MAX,
    ensures
        r matches Some(x) ==> spec_apply(text@, *pattern, new@) == Some((x.0@, x.1 as nat)),
        r is None ==> spec_apply(text@, *pattern, new@) is None,
{
    match pattern {
        Pattern::Regex(p) => {
            let (s, n) = regex_apply(p.as_str(), text, new);
            if n == 0 {
                None
            } else {
                Some((s, n))
            }
        },
        Pattern::Literal { old, case_sensitive, whole_word } => {
            let (s, n) = if *whole_word {
                literal_replace_whole_word(text, old.as_str(), new, *case_sensitive)
            } else if *case_sensitive {
                literal_replace(text, old.as_str(), new)
            } else {
                literal_replace_case_insensitive(text, old.as_str(), new)
            };
            if n == 0 {
                None
            } else {
                Some((s, n))
            }
        },
    }
}

/// The mathematical value of a [`FileChange`]: (path, relative path,
/// count, new content, byte-order mark).
pub open spec fn file_change_views(v: Seq<FileChange>) -> Seq<(Seq<char>, Seq<char>, nat, Seq<char>, bool)> {
    v.map_values(|c: FileChange| (c.path@, c.relative@, c.replacements as nat, c.new_content@, c.has_bom))
}

/// The changes of the first `k` loaded files.
pub open spec fn replace_changes(files: Seq<LoadedFile>, p: Pattern, new: Seq<char>, k: int) -> Seq<
    (Seq<char>, Seq<char>, nat, Seq<char>, bool),
>
    decreases k,
{
    if k <= 0 || k > files.len() {
        Seq::empty()
    } else {
        let f = files[k - 1];
        replace_changes(files, p, new, k - 1) + match f.text {
            Some(t) => match spec_apply(t@, p, new) {
                Some(x) => seq![(f.entry.path@, f.entry.relative@, x.1, x.0, f.has_bom)],
                None => Seq::empty(),
            },
            None => Seq::empty(),
        }
    }
}

/// The replacement counts of changes, summed and saturated at `usize::MAX`.
pub open spec fn total_replacements(v: Seq<(Seq<char>, Seq<char>, nat, Seq<char>, bool)>) -> nat
    decreases v.len(),
{
    if v.len() == 0 {
        0
    } else {
        let t = total_replacements(v.drop_last()) + v.last().2;
        if t > usize::MAX {
            usize::MAX as nat
        } else {
            t
        }
    }
}

/// The plan of replacing `old` by `new` in the loaded files: every readable
/// file with at least one match, in order, with its new content and count;
/// the regex error when a regular expression does not compile.
pub fn plan_replacement(
    files: &Vec<LoadedFile>,
    old: &str,
    new: &str,
    regex_mode: bool,
    case_sensitive: bool,
    whole_word: bool,
) -> (r: Result<ReplacePlan, RefactorError>)
    requires
        texts_fit(files@),
    ensures
        r is Err <==> regex_mode && !regex_valid(regex_source(old@, case_sensitive, whole_word)),
        r matches Err(e) ==> e is Regex,
        r matches Ok(plan) ==> exists|p: Pattern|
            spec_build_pattern(old@, regex_mode, case_sensitive, whole_word, p) && file_change_views(plan.changes@)
                == replace_changes(files@, p, new@, files@.len() as int),
        r matches Ok(plan) ==> plan.files_affected == plan.changes@.len() && plan.replacements
            == total_replacements(file_change_views(plan.changes@)),
{
    let pattern = match build_pattern(old, regex_mode, case_sensitive, whole_word) {
        Ok(p) => p,
        Err(e) => {
            return Err(e);
        },
    };
    let mut changes: Vec<FileChange> = Vec::new();
    let mut total: usize = 0;
    let mut i: usize = 0;
    proof {
        assert(file_change_views(changes@) =~= Seq::<(Seq<char>, Seq<char>, nat, Seq<char>, bool)>::empty());
    }
    while i < files.len()
        invariant
            i <= files.len(),
            texts_fit(files@),
            file_change_views(changes@) == replace_changes(files@, pattern, new@, i as int),
            total == total_replacements(file_change_views(changes@)),
        decreases files.len() - i,
    {
        let f = &files[i];
        proof {
            assert(files@[i as int] == *f);
        }
        let ghost before = file_change_views(changes@);
        match &f.text {
            Some(t) => {
                proof {
                    assert(t@.len() + 1 < usize::MAX);
                }
                match apply_replacement(t.as_str(), &pattern, new) {
                    Some((s, n)) => {
                        let c = FileChange {
                            path: f.entry.path.clone(),
                            relative: f.entry.relative.clone(),
                            replacements: n,
                            new_content: s,
                            has_bom: f.has_bom,
                        };
                        let ghost item = (c.path@, c.relative@, c.replacements as nat, c.new_content@, c.has_bom);
                        changes.push(c);
                        proof {
                            assert(file_change_views(changes@) =~= before.push(item));
                            assert(file_change_views(changes@).drop_last() =~= before);
                        }
                        total = total.saturating_add(n);
                    },
                    None => {
                        proof {
                            assert(file_change_views(changes@) =~= before + Seq::<(Seq<char>, Seq<char>, nat, Seq<char>, bool)>::empty());
                        }
                    },
                }
            },
            None => {
                proof {
                    assert(file_change_views(changes@) =~= before + Seq::<(Seq<char>, Seq<char>, nat, Seq<char>, bool)>::empty());
                }
            },
        }
        i += 1;
    }
    let n = changes.len();
    Ok(ReplacePlan { files_affected: n, replacements: total, changes })
}

/// The lines of the first `k` changed files.
pub open spec fn change_list_lines(o: Output, v: Seq<(Seq<char>, Seq<char>, nat, Seq<char>, bool)>, k: int) -> Seq<(LineKind, Seq<char>)>
    decreases k,
{
    if k <= 0 || k > v.len() {
        Seq::empty()
    } else {
        change_list_lines(o, v, k - 1) + out_info(o, "  "@ + v[k - 1].1 + " ("@ + spec_decimal(v[k - 1].2) + " replacements)"@)
    }
}

proof fn lemma_change_list_settings(a: Output, b: Output, v: Seq<(Seq<char>, Seq<char>, nat, Seq<char>, bool)>, k: int)
    requires
        same_settings(a, b),
    ensures
        change_list_lines(a, v, k) == change_list_lines(b, v, k),
    decreases k,
{
    if k > 0 && k <= v.len() {
        lemma_change_list_settings(a, b, v, k - 1);
    }
}

/// The list of changed files under its title; nothing without changes.
pub open spec fn files_section(o: Output, v: Seq<(Seq<char>, Seq<char>, nat, Seq<char>, bool)>) -> Seq<(LineKind, Seq<char>)> {
    if v.len() > 0 {
        out_info(o, "Files:"@) + change_list_lines(o, v, v.len() as int)
    } else {
        Seq::empty()
    }
}

/// Writes the changed files of a plan with their numbers of replacements.
fn write_files_section(output: &mut Output, plan: &ReplacePlan)
    ensures
        wrote(*final(output), *old(output), files_section(*old(output), file_change_views(plan.changes@))),
{
    let ghost o = *output;
    let ghost s0 = line_views(output.lines@);
    let ghost v = file_change_views(plan.changes@);
    if plan.changes.len() > 0 {
        output.info("Files:");
        let ghost s1 = line_views(output.lines@);
        let ghost os = *output;
        let mut i: usize = 0;
        while i < plan.changes.len()
            invariant
                i <= plan.changes.len(),
                v == file_change_views(plan.changes@),
                same_settings(*output, os),
                line_views(output.lines@) == s1 + change_list_lines(os, v, i as int),
            decreases plan.changes.len() - i,
        {
            let c = &plan.changes[i];
            let line = concat(
                concat(concat(c.relative.as_str(), " (").as_str(), decimal(c.replacements).as_str()).as_str(),
                " replacements)",
            );
            let full = concat("  ", line.as_str());
            output.line(full.as_str());
            proof {
                assert(v[i as int].1 == c.relative@ && v[i as int].2 == c.replacements as nat);
                assert(full@ =~= "  "@ + v[i as int].1 + " ("@ + spec_decimal(v[i as int].2) + " replacements)"@);
                assert(change_list_lines(os, v, i + 1) == change_list_lines(os, v, i as int) + out_info(os, full@));
                assert(line_views(output.lines@) =~= s1 + change_list_lines(os, v, i + 1));
            }
            i += 1;
        }
        proof {
            lemma_change_list_settings(os, o, v, v.len() as int);
        }
    }
    proof {
        assert(line_views(output.lines@) =~= s0 + files_section(o, v));
    }
}

/// What showing a replacement plan writes.
pub open spec fn plan_lines(o: Output, plan: ReplacePlan, dry_run: bool) -> Seq<(LineKind, Seq<char>)> {
    let v = file_change_views(plan.changes@);
    out_heading(o, if dry_run {
        "DRY RUN"@
    } else {
        "Plan"@
    }) + out_info(o, "Files affected: "@ + spec_decimal(plan.files_affected as nat)) + out_info(
        o,
        "Replacements: "@ + spec_decimal(plan.replacements as nat),
    ) + out_blank(o) + files_section(o, v) + out_blank(o) + if dry_run {
        out_info(o, "No files were changed."@)
    } else {
        Seq::empty()
    }
}

/// Shows a replacement plan: counts and the files with their numbers of
/// replacements.
pub fn show_plan(output: &mut Output, plan: &ReplacePlan, dry_run: bool)
    ensures
        wrote(*final(output), *old(output), plan_lines(*old(output), *plan, dry_run)),
{
    let ghost o = *output;
    let ghost s0 = line_views(output.lines@);
    let ghost v = file_change_views(plan.changes@);
    if dry_run {
        output.heading("DRY RUN");
    } else {
        output.heading("Plan");
    }
    output.info(concat("Files affected: ", decimal(plan.files_affected).as_str()).as_str());
    output.info(concat("Replacements: ", decimal(plan.replacements).as_str()).as_str());
    output.blank();
    let ghost o4 = *output;
    write_files_section(output, plan);
    proof {
        lemma_change_list_settings(o4, o, v, v.len() as int);
    }
    output.blank();
    if dry_run {
        output.info("No files were changed.");
    }
    proof {
        assert(line_views(output.lines@) =~= s0 + plan_lines(o, *plan, dry_run));
    }
}

} // verus!
