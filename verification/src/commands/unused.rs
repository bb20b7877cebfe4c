//! `unused`: files that nothing references.
use vstd::prelude::*;
use crate::commands::{json_count, json_member, json_strings, list_lines, string_items, write_list};
use crate::config::strings_view;
use crate::languages::json::{jview, lemma_members_view, members_view, JsonValue, JsonView};
use crate::output::{line_views, out_heading, out_result, out_success, out_warn, summary_record, wrote, LineKind, Output, ScanResult};
use crate::text::{chars_of, concat, decimal, spec_decimal, string_from};

verus! {

/// What `unused` writes for the unreferenced files.
pub open spec fn unused_lines(o: Output, files: Seq<Seq<char>>) -> Seq<(LineKind, Seq<char>)> {
    out_heading(o, "Unused Files"@) + if files.len() == 0 {
        out_success(o, "No obviously unused files detected"@)
    } else {
        out_warn(o, spec_decimal(files.len()) + " potentially unused files:"@) + list_lines(o, "  "@, files)
    } + out_result(o, "unused"@)
}

/// The data of the summary of `unused`: the number of files and their list.
pub open spec fn unused_data(files: Seq<Seq<char>>) -> JsonView {
    JsonView::Object(
        seq![("count"@, JsonView::Int(files.len() as int)), ("unused_files"@, JsonView::Array(string_items(files)))],
    )
}

/// Reports the files nothing references: a warning with their list, or a
/// success when there is none, and the JSON summary in JSON mode.
pub fn run(output: &mut Output, unreferenced: &Vec<String>) -> (r: i32)
    ensures
        r == 0,
        wrote(*final(output), *old(output), unused_lines(*old(output), strings_view(unreferenced@))),
        old(output).json_mode ==> (final(output).lines@.last().record matches Some(rec) && summary_record(
            rec,
            "unused"@,
            0,
            None,
            None,
            None,
        ) && (rec.data matches Some(d) && jview(d) == unused_data(strings_view(unreferenced@)))),
{
    let ghost o = *output;
    let ghost start = line_views(output.lines@);
    output.heading("Unused Files");
    let ghost a = line_views(output.lines@);
    proof {
        assert(a == start + out_heading(o, "Unused Files"@));
    }
    if unreferenced.len() == 0 {
        output.success("No obviously unused files detected");
    } else {
        let msg = concat(decimal(unreferenced.len()).as_str(), " potentially unused files:");
        output.warn(msg.as_str());
        write_list(output, "  ", unreferenced);
    }
    let ghost b = line_views(output.lines@);
    proof {
        let files = strings_view(unreferenced@);
        assert(b == a + if files.len() == 0 {
            out_success(o, "No obviously unused files detected"@)
        } else {
            out_warn(o, spec_decimal(files.len()) + " potentially unused files:"@) + list_lines(o, "  "@, files)
        });
    }
    if output.json_mode {
        let mut data: Vec<(String, JsonValue)> = Vec::new();
        data.push(json_member("count", json_count(unreferenced.len())));
        data.push(json_member("unused_files", json_strings(unreferenced)));
        proof {
            lemma_members_view(data@, 0);
            assert(members_view(data@, 0) =~= match unused_data(strings_view(unreferenced@)) {
                JsonView::Object(m) => m,
                _ => Seq::empty(),
            });
        }
        output.print_json_result(
            ScanResult {
                command: string_from(&chars_of("unused")),
                files_scanned: 0,
                files_changed: None,
                replacements: None,
                errors: None,
                skipped: None,
                data: Some(JsonValue::Object(data)),
            },
        );
    }
    proof {
        assert(line_views(output.lines@) == b + out_result(o, "unused"@));
        assert(line_views(output.lines@) =~= start + unused_lines(o, strings_view(unreferenced@)));
    }
    0
}

} // verus!
