//! `scan`: the inventory of a repository.
use vstd::prelude::*;
use crate::commands::{count_members, json_count, json_member};
use crate::context::RepoContext;
use crate::languages::json::{jview, lemma_members_view, members_view, JsonValue, JsonView};
use crate::output::{
    line_views, out_blank, out_heading, out_info, out_result, out_success, same_settings, summary_record, wrote, LineKind, Output,
    ScanResult,
};
use crate::scanner::file_scanner::FileStats;
use crate::text::{chars_of, concat, decimal, push_char, spec_decimal, string_from};

verus! {

/// `format!("{s:>12}")`: `s` right-aligned in 12 characters.
pub open spec fn pad12(s: Seq<char>) -> Seq<char> {
    if s.len() < 12 {
        Seq::new((12 - s.len()) as nat, |i: int| ' ') + s
    } else {
        s
    }
}

/// `s` right-aligned in 12 characters.
pub fn pad_left12(s: &str) -> (r: String)
    ensures
        r@ == pad12(s@),
{
    let cs = chars_of(s);
    let mut out = String::new();
    if cs.len() < 12 {
        let n = 12 - cs.len();
        let mut i: usize = 0;
        while i < n
            invariant
                i <= n,
                out@ == Seq::new(i as nat, |k: int| ' '),
            decreases n - i,
        {
            push_char(&mut out, ' ');
            proof {
                assert(out@ =~= Seq::new((i + 1) as nat, |k: int| ' '));
            }
            i += 1;
        }
    }
    crate::text::push_all(&mut out, &cs);
    proof {
        if cs@.len() >= 12 {
            assert(out@ =~= s@);
        }
    }
    out
}

/// The index of the first entry with the largest count.
pub open spec fn first_max(v: Seq<(String, usize)>, k: int) -> int
    decreases k,
{
    if k <= 1 {
        0
    } else {
        let m = first_max(v, k - 1);
        if v[k - 1].1 > v[m].1 {
            k - 1
        } else {
            m
        }
    }
}

pub proof fn lemma_first_max(v: Seq<(String, usize)>, k: int)
    requires
        1 <= k <= v.len(),
    ensures
        0 <= first_max(v, k) < k,
        forall|j: int| 0 <= j < k ==> (#[trigger] v[j]).1 <= v[first_max(v, k)].1,
    decreases k,
{
    if k > 1 {
        lemma_first_max(v, k - 1);
    }
}

/// The entries by decreasing count, entries of equal count in their order
/// (a stable sort).
pub open spec fn by_count(v: Seq<(String, usize)>) -> Seq<(String, usize)>
    decreases v.len(),
{
    if v.len() == 0 {
        Seq::empty()
    } else {
        let m = first_max(v, v.len() as int);
        proof {
            lemma_first_max(v, v.len() as int);
        }
        seq![v[m]] + by_count(v.remove(m))
    }
}

/// The entries by decreasing count.
pub fn sort_by_count(v: Vec<(String, usize)>) -> (r: Vec<(String, usize)>)
    ensures
        r@ == by_count(v@),
{
    let ghost orig = v@;
    let mut rest = v;
    let mut out: Vec<(String, usize)> = Vec::new();
    while rest.len() > 0
        invariant
            out@ + by_count(rest@) == by_count(orig),
        decreases rest.len(),
    {
        let mut m: usize = 0;
        let mut j: usize = 1;
        proof {
            lemma_first_max(rest@, rest@.len() as int);
        }
        while j < rest.len()
            invariant
                1 <= j <= rest.len(),
                m as int == first_max(rest@, j as int),
            decreases rest.len() - j,
        {
            proof {
                lemma_first_max(rest@, j as int);
            }
            if rest[j].1 > rest[m].1 {
                m = j;
            }
            j += 1;
        }
        let ghost before = rest@;
        proof {
            lemma_first_max(before, before.len() as int);
        }
        let e = rest.remove(m);
        proof {
            assert(by_count(before) == seq![before[m as int]] + by_count(before.remove(m as int)));
            assert(rest@ == before.remove(m as int));
        }
        let ghost ev = e;
        out.push(e);
        proof {
            assert(out@ + by_count(rest@) =~= by_count(orig));
        }
    }
    proof {
        assert(by_count(rest@) =~= Seq::<(String, usize)>::empty());
        assert(out@ =~= by_count(orig));
    }
    out
}

/// The line of an extension count.
pub open spec fn ext_line(e: (String, usize)) -> Seq<char> {
    pad12(e.0@) + ": "@ + spec_decimal(e.1 as nat)
}

/// The lines of the first `k` extension counts.
pub open spec fn ext_lines(o: Output, v: Seq<(String, usize)>, k: int) -> Seq<(LineKind, Seq<char>)>
    decreases k,
{
    if k <= 0 || k > v.len() {
        Seq::empty()
    } else {
        ext_lines(o, v, k - 1) + out_info(o, ext_line(v[k - 1]))
    }
}

proof fn lemma_ext_lines_settings(a: Output, b: Output, v: Seq<(String, usize)>, k: int)
    requires
        same_settings(a, b),
    ensures
        ext_lines(a, v, k) == ext_lines(b, v, k),
    decreases k,
{
    if k > 0 && k <= v.len() {
        lemma_ext_lines_settings(a, b, v, k - 1);
    }
}

fn write_ext_lines(output: &mut Output, v: &Vec<(String, usize)>)
    ensures
        wrote(*final(output), *old(output), ext_lines(*old(output), v@, v@.len() as int)),
{
    let ghost o = *output;
    let ghost start = line_views(output.lines@);
    let mut i: usize = 0;
    proof {
        assert(line_views(output.lines@) =~= start + ext_lines(o, v@, 0));
    }
    while i < v.len()
        invariant
            i <= v.len(),
            same_settings(*output, o),
            line_views(output.lines@) == start + ext_lines(o, v@, i as int),
        decreases v.len() - i,
    {
        let line = concat(concat(pad_left12(v[i].0.as_str()).as_str(), ": ").as_str(), decimal(v[i].1).as_str());
        output.info(line.as_str());
        proof {
            assert(line_views(output.lines@) =~= start + ext_lines(o, v@, i + 1));
        }
        i += 1;
    }
}

/// What `scan` writes about the files, directories and sources.
pub open spec fn scan_lines(o: Output, root: Seq<char>, stats: FileStats) -> Seq<(LineKind, Seq<char>)> {
    out_heading(o, "Repository"@) + out_info(o, "Root: "@ + root) + out_blank(o) + out_heading(o, "Files"@) + ext_lines(
        o,
        by_count(stats.by_extension@),
        stats.by_extension@.len() as int,
    ) + out_info(o, pad12("Total"@) + ": "@ + spec_decimal(stats.total_files as nat)) + out_blank(o) + out_heading(
        o,
        "Directories"@,
    ) + out_info(o, pad12("Total"@) + ": "@ + spec_decimal(stats.total_dirs as nat)) + out_info(
        o,
        pad12("Source"@) + ": "@ + spec_decimal(stats.source_files as nat),
    ) + out_blank(o) + if o.json_mode {
        out_result(o, "scan"@)
    } else {
        out_success(o, "Scanned "@ + spec_decimal(stats.total_files as nat) + " files"@)
    }
}

/// The data of the summary of `scan`: the count per extension and the totals.
pub open spec fn scan_data(stats: FileStats) -> JsonView {
    JsonView::Object(
        seq![
            ("by_extension"@, JsonView::Object(count_members(stats.by_extension@))),
            ("source_files"@, JsonView::Int(stats.source_files as int)),
            ("total_dirs"@, JsonView::Int(stats.total_dirs as int)),
            ("total_files"@, JsonView::Int(stats.total_files as int)),
        ],
    )
}

fn scan_summary(stats: &FileStats) -> (r: ScanResult)
    ensures
        r.command@ == "scan"@,
        r.files_scanned == stats.total_files,
        r.files_changed is None && r.replacements is None && r.errors is None && r.skipped is None,
        r.data matches Some(d) && jview(d) == scan_data(*stats),
{
    let mut by: Vec<(String, JsonValue)> = Vec::new();
    let mut i: usize = 0;
    while i < stats.by_extension.len()
        invariant
            i <= stats.by_extension.len(),
            by@.len() == i,
            forall|k: int|
                0 <= k < i ==> (#[trigger] by@[k]).0@ == stats.by_extension@[k].0@ && by@[k].1 == JsonValue::Number(
                    crate::languages::json::JsonNumber::PosInt(stats.by_extension@[k].1 as u64),
                ),
        decreases stats.by_extension.len() - i,
    {
        by.push((stats.by_extension[i].0.clone(), json_count(stats.by_extension[i].1)));
        i += 1;
    }
    proof {
        lemma_members_view(by@, 0);
        assert(members_view(by@, 0) =~= count_members(stats.by_extension@));
    }
    let mut data: Vec<(String, JsonValue)> = Vec::new();
    data.push(json_member("by_extension", JsonValue::Object(by)));
    data.push(json_member("source_files", json_count(stats.source_files)));
    data.push(json_member("total_dirs", json_count(stats.total_dirs)));
    data.push(json_member("total_files", json_count(stats.total_files)));
    proof {
        lemma_members_view(data@, 0);
        assert(members_view(data@, 0) =~= match scan_data(*stats) {
            JsonView::Object(m) => m,
            _ => Seq::empty(),
        });
    }
    ScanResult {
        command: string_from(&chars_of("scan")),
        files_scanned: stats.total_files,
        files_changed: None,
        replacements: None,
        errors: None,
        skipped: None,
        data: Some(JsonValue::Object(data)),
    }
}

/// Reports the inventory of a repository: the files per extension by
/// decreasing count, the totals, and the number of source files.
pub fn run(ctx: &RepoContext, output: &mut Output, stats: &FileStats) -> (r: i32)
    ensures
        r == 0,
        wrote(*final(output), *old(output), scan_lines(*old(output), ctx.root@, *stats)),
        old(output).json_mode ==> (final(output).lines@.last().record matches Some(rec) && summary_record(
            rec,
            "scan"@,
            stats.total_files,
            None,
            None,
            None,
        ) && (rec.data matches Some(d) && jview(d) == scan_data(*stats))),
{
    let ghost o = *output;
    let ghost s0 = line_views(output.lines@);
    output.heading("Repository");
    let root_line = concat("Root: ", ctx.root.as_str());
    output.info(root_line.as_str());
    output.blank();
    output.heading("Files");
    let mut exts: Vec<(String, usize)> = Vec::new();
    let mut i: usize = 0;
    while i < stats.by_extension.len()
        invariant
            i <= stats.by_extension.len(),
            exts@ == stats.by_extension@.take(i as int),
        decreases stats.by_extension.len() - i,
    {
        let e = (stats.by_extension[i].0.clone(), stats.by_extension[i].1);
        exts.push(e);
        proof {
            assert(exts@ =~= stats.by_extension@.take(i + 1));
        }
        i += 1;
    }
    proof {
        assert(exts@ =~= stats.by_extension@);
    }
    let sorted = sort_by_count(exts);
    proof {
        lemma_by_count_len(stats.by_extension@);
    }
    let ghost oe = *output;
    write_ext_lines(output, &sorted);
    proof {
        lemma_ext_lines_settings(oe, o, sorted@, sorted@.len() as int);
    }
    let total = concat(concat(pad_left12("Total").as_str(), ": ").as_str(), decimal(stats.total_files).as_str());
    output.info(total.as_str());
    output.blank();
    output.heading("Directories");
    let dirs = concat(concat(pad_left12("Total").as_str(), ": ").as_str(), decimal(stats.total_dirs).as_str());
    output.info(dirs.as_str());
    let src = concat(concat(pad_left12("Source").as_str(), ": ").as_str(), decimal(stats.source_files).as_str());
    output.info(src.as_str());
    output.blank();
    if output.json_mode {
        let summary = scan_summary(stats);
        output.print_json_result(summary);
    } else {
        let msg = concat(concat("Scanned ", decimal(stats.total_files).as_str()).as_str(), " files");
        output.success(msg.as_str());
    }
    proof {
        assert(line_views(output.lines@) =~= s0 + scan_lines(o, ctx.root@, *stats));
    }
    0
}

proof fn lemma_by_count_len(v: Seq<(String, usize)>)
    ensures
        by_count(v).len() == v.len(),
    decreases v.len(),
{
    if v.len() > 0 {
        lemma_first_max(v, v.len() as int);
        lemma_by_count_len(v.remove(first_max(v, v.len() as int)));
    }
}

} // verus!
