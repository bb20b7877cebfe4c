//! `references`: the files that refer to a path, and the matching lines.
use vstd::prelude::*;
use crate::cli::ReferencesArgs;
use crate::commands::{json_count, json_member, json_strings, string_items};
use crate::config::strings_view;
use crate::languages::json::{jview, lemma_members_view, members_view, JsonValue, JsonView};
use crate::languages::{reference_views, ReferenceInfo, ReferenceType, ReferenceView};
use crate::output::{
    line_views, out_blank, out_heading, out_info, out_result, same_settings, summary_record, wrote, LineKind, Output,
    ScanResult,
};
use crate::text::{chars_of, concat, contains, decimal, spec_contains, spec_decimal, spec_trim, string_from, trim};
use crate::scanner::reference_scanner::{mentions, spec_mentions};

verus! {

/// The name of a reference kind.
pub open spec fn spec_ref_kind(k: ReferenceType) -> Seq<char> {
    match k {
        ReferenceType::Import => "import"@,
        ReferenceType::Export => "export"@,
        ReferenceType::Require => "require"@,
        ReferenceType::DynamicImport => "dynamic"@,
        ReferenceType::PathString => "path"@,
        ReferenceType::UrlPath => "url"@,
    }
}

fn ref_kind(k: ReferenceType) -> (r: String)
    ensures
        r@ == spec_ref_kind(k),
{
    match k {
        ReferenceType::Import => string_from(&chars_of("import")),
        ReferenceType::Export => string_from(&chars_of("export")),
        ReferenceType::Require => string_from(&chars_of("require")),
        ReferenceType::DynamicImport => string_from(&chars_of("dynamic")),
        ReferenceType::PathString => string_from(&chars_of("path")),
        ReferenceType::UrlPath => string_from(&chars_of("url")),
    }
}

/// What `references` writes before listing: heading and target.
pub open spec fn start_lines(o: Output, target: Seq<char>) -> Seq<(LineKind, Seq<char>)> {
    out_heading(o, "References"@) + out_info(o, "Target: "@ + target)
}

/// Writes the heading and the target.
pub fn start(output: &mut Output, args: &ReferencesArgs)
    ensures
        wrote(*final(output), *old(output), start_lines(*old(output), args.path@)),
{
    let ghost o = *output;
    let ghost s0 = line_views(output.lines@);
    output.heading("References");
    output.info(concat("Target: ", args.path.as_str()).as_str());
    proof {
        assert(line_views(output.lines@) =~= s0 + start_lines(o, args.path@));
    }
}

/// What `references` writes about the number of referring files.
pub open spec fn count_lines(o: Output, n: nat) -> Seq<(LineKind, Seq<char>)> {
    out_blank(o) + if n == 0 {
        out_info(o, "No references found."@)
    } else {
        out_info(o, "Found "@ + spec_decimal(n) + " references:"@)
    }
}

/// Writes how many files refer to the target.
pub fn count(output: &mut Output, referencing: &Vec<String>)
    ensures
        wrote(*final(output), *old(output), count_lines(*old(output), referencing@.len())),
{
    let ghost o = *output;
    let ghost s0 = line_views(output.lines@);
    output.blank();
    if referencing.len() == 0 {
        output.info("No references found.");
    } else {
        output.info(concat(concat("Found ", decimal(referencing.len()).as_str()).as_str(), " references:").as_str());
    }
    proof {
        assert(line_views(output.lines@) =~= s0 + count_lines(o, referencing@.len()));
    }
}

/// The line of the `i`-th (from 0) referring file.
pub fn file_line(output: &mut Output, i: usize, reference: &str)
    requires
        i < usize::MAX,
    ensures
        wrote(
            *final(output),
            *old(output),
            out_info(*old(output), "  "@ + spec_decimal((i + 1) as nat) + ". "@ + reference@),
        ),
{
    let msg = concat(concat(concat("  ", decimal(i + 1).as_str()).as_str(), ". ").as_str(), reference);
    output.line(msg.as_str());
}

/// A reference of the file `from` matches the target: its text contains
/// the target, or it mentions the target's path.
pub open spec fn ref_matches(from: Seq<char>, text: Seq<char>, target: Seq<char>) -> bool {
    spec_contains(text, target) || spec_mentions(from, text, target)
}

/// The lines of the first `k` references of the file `from` that match the
/// target.
pub open spec fn match_lines(
    o: Output,
    from: Seq<char>,
    refs: Seq<ReferenceView>,
    target: Seq<char>,
    k: int,
) -> Seq<(LineKind, Seq<char>)>
    decreases k,
{
    if k <= 0 || k > refs.len() {
        Seq::empty()
    } else {
        let r = refs[k - 1];
        match_lines(o, from, refs, target, k - 1) + if ref_matches(from, r.text, target) {
            out_info(o, "     line "@ + spec_decimal(r.line as nat) + " ["@ + spec_ref_kind(r.kind) + "]: "@ + spec_trim(r.content))
        } else {
            Seq::empty()
        }
    }
}

/// Number of the first `k` references of the file `from` that match the
/// target.
pub open spec fn match_count(from: Seq<char>, refs: Seq<ReferenceView>, target: Seq<char>, k: int) -> nat
    decreases k,
{
    if k <= 0 || k > refs.len() {
        0
    } else {
        match_count(from, refs, target, k - 1) + if ref_matches(from, refs[k - 1].text, target) {
            1nat
        } else {
            0nat
        }
    }
}

proof fn lemma_match_count_bound(from: Seq<char>, refs: Seq<ReferenceView>, target: Seq<char>, k: int)
    requires
        0 <= k <= refs.len(),
    ensures
        match_count(from, refs, target, k) <= k,
    decreases k,
{
    if k > 0 {
        lemma_match_count_bound(from, refs, target, k - 1);
    }
}

/// Writes the references of the referring file `from` that match the
/// target, and returns how many there were.
pub fn file_matches(output: &mut Output, from: &str, target: &str, refs: &Vec<ReferenceInfo>) -> (r: usize)
    ensures
        r == match_count(from@, reference_views(refs@), target@, refs@.len() as int),
        wrote(
            *final(output),
            *old(output),
            match_lines(*old(output), from@, reference_views(refs@), target@, refs@.len() as int),
        ),
{
    let ghost o = *output;
    let ghost s0 = line_views(output.lines@);
    let ghost rv = reference_views(refs@);
    let t = chars_of(target);
    let mut n: usize = 0;
    let mut i: usize = 0;
    while i < refs.len()
        invariant
            i <= refs.len(),
            rv == reference_views(refs@),
            t@ == target@,
            same_settings(*output, o),
            n == match_count(from@, rv, target@, i as int),
            line_views(output.lines@) == s0 + match_lines(o, from@, rv, target@, i as int),
        decreases refs.len() - i,
    {
        let r = &refs[i];
        proof {
            assert(rv[i as int] == r@);
            lemma_match_count_bound(from@, rv, target@, i as int);
        }
        if contains(&chars_of(r.text.as_str()), &t) || mentions(from, r.text.as_str(), target) {
            let msg = concat(
                concat(
                    concat(concat(concat("     line ", decimal(r.line_number).as_str()).as_str(), " [").as_str(), ref_kind(r.ref_type).as_str()).as_str(),
                    "]: ",
                ).as_str(),
                string_from(&trim(&chars_of(r.line_content.as_str()))).as_str(),
            );
            output.line(msg.as_str());
            n = n + 1;
        }
        proof {
            assert(line_views(output.lines@) =~= s0 + match_lines(o, from@, rv, target@, i + 1));
        }
        i += 1;
    }
    n
}

/// The data of the summary of `references`: the number of referring files,
/// their list, and the target.
pub open spec fn references_data(referencing: Seq<Seq<char>>, target: Seq<char>) -> JsonView {
    JsonView::Object(
        seq![
            ("count"@, JsonView::Int(referencing.len() as int)),
            ("references"@, JsonView::Array(string_items(referencing))),
            ("target"@, JsonView::Str(target)),
        ],
    )
}

/// Writes the JSON summary of `references`, in JSON mode: the number of
/// matching lines as its replacements.
pub fn summary(output: &mut Output, args: &ReferencesArgs, referencing: &Vec<String>, total: usize)
    ensures
        wrote(*final(output), *old(output), out_result(*old(output), "references"@)),
        old(output).json_mode ==> (final(output).lines@.last().record matches Some(rec) && summary_record(
            rec,
            "references"@,
            0,
            None,
            Some(total),
            None,
        ) && (rec.data matches Some(d) && jview(d) == references_data(strings_view(referencing@), args.path@))),
{
    if output.json_mode {
        let mut data: Vec<(String, JsonValue)> = Vec::new();
        data.push(json_member("count", json_count(referencing.len())));
        data.push(json_member("references", json_strings(referencing)));
        data.push(json_member("target", JsonValue::String(args.path.clone())));
        proof {
            lemma_members_view(data@, 0);
            assert(members_view(data@, 0) =~= match references_data(strings_view(referencing@), args.path@) {
                JsonView::Object(e) => e,
                _ => Seq::empty(),
            });
        }
        output.print_json_result(
            ScanResult {
                command: string_from(&chars_of("references")),
                files_scanned: 0,
                files_changed: None,
                replacements: Some(total),
                errors: None,
                skipped: None,
                data: Some(JsonValue::Object(data)),
            },
        );
    } else {
        proof {
            assert(line_views(output.lines@) =~= line_views(output.lines@) + out_result(*output, "references"@));
        }
    }
}

} // verus!
