//! `duplicates`: groups of files with identical content.
use vstd::prelude::*;
use crate::analyzers::duplicates::DuplicateGroup;
use crate::commands::{json_count, json_member, json_strings, shown_list, shows, string_items};
use crate::config::strings_view;
use crate::languages::json::{items_view, jview, lemma_items_view, lemma_members_view, members_view, JsonValue, JsonView};
use crate::output::{
    line_views, out_blank, out_heading, out_info, out_result, out_success, out_warn, same_settings, summary_record, wrote,
    LineKind, Output, ScanResult,
};
use crate::text::{chars_of, concat, decimal, slice_vec, spec_decimal, string_from, string_of};

verus! {

/// The first `n` characters of a digest (all of it when shorter).
pub open spec fn hash_prefix(h: Seq<char>, n: nat) -> Seq<char> {
    if h.len() < n {
        h
    } else {
        h.take(n as int)
    }
}

/// Every character of the text is ASCII.
pub open spec fn is_ascii(s: Seq<char>) -> bool {
    forall|k: int| 0 <= k < s.len() ==> (s[k] as u32) < 128
}

/// The digests of the groups are ASCII.
pub open spec fn ascii_hashes(groups: Seq<DuplicateGroup>) -> bool {
    forall|g: int| 0 <= g < groups.len() ==> is_ascii((#[trigger] groups[g]).hash@)
}

/// The lines of one group: a blank line (when `spaced`), its digest prefix,
/// and its files.
pub open spec fn group_lines(o: Output, g: DuplicateGroup, spaced: bool) -> Seq<(LineKind, Seq<char>)> {
    (if spaced {
        out_blank(o)
    } else {
        Seq::empty()
    }) + out_info(o, "  Hash: "@ + hash_prefix(g.hash@, 12)) + shown_list(shows(o), "    "@, strings_view(g.files@))
}

/// The lines of the first `k` groups.
pub open spec fn groups_lines(o: Output, groups: Seq<DuplicateGroup>, spaced: bool, k: int) -> Seq<(LineKind, Seq<char>)>
    decreases k,
{
    if k <= 0 || k > groups.len() {
        Seq::empty()
    } else {
        groups_lines(o, groups, spaced, k - 1) + group_lines(o, groups[k - 1], spaced)
    }
}

/// Writes the groups, each with its digest prefix and files.
pub fn write_groups(output: &mut Output, groups: &Vec<DuplicateGroup>, spaced: bool)
    requires
        ascii_hashes(groups@),
    ensures
        wrote(*final(output), *old(output), groups_lines(*old(output), groups@, spaced, groups@.len() as int)),
{
    let ghost o = *output;
    let ghost start = line_views(output.lines@);
    let mut i: usize = 0;
    proof {
        assert(line_views(output.lines@) =~= start + groups_lines(o, groups@, spaced, 0));
    }
    while i < groups.len()
        invariant
            i <= groups.len(),
            ascii_hashes(groups@),
            same_settings(*output, o),
            line_views(output.lines@) == start + groups_lines(o, groups@, spaced, i as int),
        decreases groups.len() - i,
    {
        let g = &groups[i];
        let ghost before = line_views(output.lines@);
        if spaced {
            output.blank();
        }
        let hc = chars_of(g.hash.as_str());
        let n = if hc.len() < 12 {
            hc.len()
        } else {
            12
        };
        let prefix = string_of(&hc, 0, n);
        proof {
            assert(is_ascii(groups@[i as int].hash@));
            assert(prefix@ =~= hash_prefix(g.hash@, 12));
        }
        let msg = concat("  Hash: ", prefix.as_str());
        output.line(msg.as_str());
        crate::commands::write_list(output, "    ", &g.files);
        proof {
            assert(groups@[i as int] == *g);
            assert(line_views(output.lines@) =~= before + group_lines(o, *g, spaced));
            assert(line_views(output.lines@) =~= start + groups_lines(o, groups@, spaced, i + 1));
        }
        i += 1;
    }
}

/// What `duplicates` writes for the groups.
pub open spec fn duplicates_lines(o: Output, groups: Seq<DuplicateGroup>) -> Seq<(LineKind, Seq<char>)> {
    out_heading(o, "Duplicate Files"@) + if groups.len() == 0 {
        out_success(o, "No duplicate files found"@)
    } else {
        out_warn(o, spec_decimal(groups.len()) + " duplicate groups:"@) + groups_lines(o, groups, true, groups.len() as int)
    } + out_result(o, "duplicates"@)
}

/// One group in the summary of `duplicates`: its files and its digest.
pub open spec fn group_data(g: DuplicateGroup) -> JsonView {
    JsonView::Object(seq![("files"@, JsonView::Array(string_items(strings_view(g.files@)))), ("hash"@, JsonView::Str(g.hash@))])
}

/// The data of the summary of `duplicates`: the number of groups and each
/// group.
pub open spec fn duplicates_data(groups: Seq<DuplicateGroup>) -> JsonView {
    JsonView::Object(
        seq![
            ("duplicate_groups"@, JsonView::Int(groups.len() as int)),
            ("groups"@, JsonView::Array(groups.map_values(|g: DuplicateGroup| group_data(g)))),
        ],
    )
}

/// Reports the groups of identical files.
pub fn run(output: &mut Output, duplicates: &Vec<DuplicateGroup>) -> (r: i32)
    requires
        ascii_hashes(duplicates@),
    ensures
        r == 0,
        wrote(*final(output), *old(output), duplicates_lines(*old(output), duplicates@)),
        old(output).json_mode ==> (final(output).lines@.last().record matches Some(rec) && summary_record(
            rec,
            "duplicates"@,
            0,
            None,
            None,
            None,
        ) && (rec.data matches Some(d) && jview(d) == duplicates_data(duplicates@))),
{
    let ghost o = *output;
    let ghost start = line_views(output.lines@);
    output.heading("Duplicate Files");
    let ghost a = line_views(output.lines@);
    if duplicates.len() == 0 {
        output.success("No duplicate files found");
    } else {
        let msg = concat(decimal(duplicates.len()).as_str(), " duplicate groups:");
        output.warn(msg.as_str());
        let ghost o2 = *output;
        let ghost before = line_views(output.lines@);
        write_groups(output, duplicates, true);
        proof {
            lemma_groups_lines_settings(o2, o, duplicates@, true, duplicates@.len() as int);
            assert(line_views(output.lines@) == before + groups_lines(o, duplicates@, true, duplicates@.len() as int));
        }
    }
    let ghost b = line_views(output.lines@);
    proof {
        assert(a == start + out_heading(o, "Duplicate Files"@));
        assert(b =~= a + if duplicates@.len() == 0 {
            out_success(o, "No duplicate files found"@)
        } else {
            out_warn(o, spec_decimal(duplicates@.len()) + " duplicate groups:"@) + groups_lines(o, duplicates@, true, duplicates@.len() as int)
        });
    }
    if output.json_mode {
        let mut groups: Vec<JsonValue> = Vec::new();
        let mut i: usize = 0;
        while i < duplicates.len()
            invariant
                i <= duplicates.len(),
                groups@.len() == i,
                forall|k: int| 0 <= k < i ==> jview(#[trigger] groups@[k]) == group_data(duplicates@[k]),
            decreases duplicates.len() - i,
        {
            let mut m: Vec<(String, JsonValue)> = Vec::new();
            m.push(json_member("files", json_strings(&duplicates[i].files)));
            m.push(json_member("hash", JsonValue::String(duplicates[i].hash.clone())));
            proof {
                lemma_members_view(m@, 0);
                assert(members_view(m@, 0) =~= match group_data(duplicates@[i as int]) {
                    JsonView::Object(e) => e,
                    _ => Seq::empty(),
                });
            }
            groups.push(JsonValue::Object(m));
            i += 1;
        }
        proof {
            lemma_items_view(groups@, 0);
            assert(items_view(groups@, 0) =~= duplicates@.map_values(|g: DuplicateGroup| group_data(g)));
        }
        let mut data: Vec<(String, JsonValue)> = Vec::new();
        data.push(json_member("duplicate_groups", json_count(duplicates.len())));
        data.push(json_member("groups", JsonValue::Array(groups)));
        proof {
            lemma_members_view(data@, 0);
            assert(members_view(data@, 0) =~= match duplicates_data(duplicates@) {
                JsonView::Object(e) => e,
                _ => Seq::empty(),
            });
        }
        output.print_json_result(
            ScanResult {
                command: string_from(&chars_of("duplicates")),
                files_scanned: 0,
                files_changed: None,
                replacements: None,
                errors: None,
                skipped: None,
                data: Some(JsonValue::Object(data)),
            },
        );
    }
    proof {
        assert(line_views(output.lines@) =~= start + duplicates_lines(o, duplicates@));
    }
    0
}

proof fn lemma_groups_lines_settings(a: Output, b: Output, groups: Seq<DuplicateGroup>, spaced: bool, k: int)
    requires
        same_settings(a, b),
    ensures
        groups_lines(a, groups, spaced, k) == groups_lines(b, groups, spaced, k),
    decreases k,
{
    if k > 0 && k <= groups.len() {
        lemma_groups_lines_settings(a, b, groups, spaced, k - 1);
    }
}

} // verus!
