//! The commands: what each writes and which exit code it returns, once the
//! files it needs have been read.
use vstd::prelude::*;
use crate::config::strings_view;
use crate::languages::json::{jview, lemma_items_view, JsonNumber, JsonValue, JsonView};
use crate::output::{line_views, out_info, same_settings, wrote, LineKind, Output};
use crate::text::{concat, string_from, chars_of};

pub mod check;
pub mod clean;
pub mod duplicates;
pub mod imports;
pub mod migrate;
pub mod normalize;
pub mod paths;
pub mod references;
pub mod rename;
pub mod replace;
pub mod scan;
pub mod unused;
pub mod update;

verus! {

/// Indented lines are shown: neither quiet nor in JSON mode.
pub open spec fn shows(o: Output) -> bool {
    !o.quiet && !o.json_mode
}

/// What writing each item after `prefix`, as an indented line, adds.
pub open spec fn list_lines(o: Output, prefix: Seq<char>, items: Seq<Seq<char>>) -> Seq<(LineKind, Seq<char>)> {
    shown_list(shows(o), prefix, items)
}

/// The indented lines of the items, when shown.
pub open spec fn shown_list(shown: bool, prefix: Seq<char>, items: Seq<Seq<char>>) -> Seq<(LineKind, Seq<char>)>
    decreases items.len(),
{
    if items.len() == 0 || !shown {
        Seq::empty()
    } else {
        shown_list(shown, prefix, items.drop_last()) + seq![(LineKind::Plain, "  "@ + prefix + items.last())]
    }
}

/// Writes each item after `prefix`, as an indented line.
pub fn write_list(output: &mut Output, prefix: &str, items: &Vec<String>)
    ensures
        wrote(*final(output), *old(output), list_lines(*old(output), prefix@, strings_view(items@))),
{
    let ghost o = *output;
    let ghost start = line_views(output.lines@);
    let ghost iv = strings_view(items@);
    let mut i: usize = 0;
    proof {
        assert(iv.take(0) =~= Seq::<Seq<char>>::empty());
        assert(line_views(output.lines@) =~= start + list_lines(o, prefix@, iv.take(0)));
    }
    while i < items.len()
        invariant
            i <= items.len(),
            iv == strings_view(items@),
            same_settings(*output, o),
            line_views(output.lines@) == start + list_lines(o, prefix@, iv.take(i as int)),
        decreases items.len() - i,
    {
        let msg = concat(prefix, items[i].as_str());
        output.line(msg.as_str());
        proof {
            assert(iv.take(i + 1).drop_last() =~= iv.take(i as int));
            assert(iv.take(i + 1).last() == items@[i as int]@);
            let added = if shows(o) {
                seq![(LineKind::Plain, "  "@ + prefix@ + items@[i as int]@)]
            } else {
                Seq::<(LineKind, Seq<char>)>::empty()
            };
            assert(shown_list(shows(o), prefix@, iv.take(i + 1)) == shown_list(shows(o), prefix@, iv.take(i as int)) + added);
            assert(("  "@ + msg@) =~= ("  "@ + prefix@ + items@[i as int]@));
            assert(out_info(o, msg@) == added);
            assert(line_views(output.lines@) =~= start + list_lines(o, prefix@, iv.take(i + 1)));
        }
        i += 1;
    }
    proof {
        assert(iv.take(iv.len() as int) =~= iv);
    }
}

/// Named counts as the members of a JSON object.
pub open spec fn count_members(v: Seq<(String, usize)>) -> Seq<(Seq<char>, JsonView)> {
    v.map_values(|e: (String, usize)| (e.0@, JsonView::Int(e.1 as int)))
}

/// Texts as the items of a JSON array.
pub open spec fn string_items(v: Seq<Seq<char>>) -> Seq<JsonView> {
    v.map_values(|t: Seq<char>| JsonView::Str(t))
}

/// A JSON non-negative integer.
pub fn json_count(n: usize) -> (r: JsonValue)
    ensures
        r == JsonValue::Number(JsonNumber::PosInt(n as u64)),
{
    JsonValue::Number(JsonNumber::PosInt(n as u64))
}

/// A JSON array of strings.
pub fn json_strings(v: &Vec<String>) -> (r: JsonValue)
    ensures
        r matches JsonValue::Array(items) && items@.len() == v@.len() && forall|i: int|
            0 <= i < v@.len() ==> (#[trigger] items@[i] matches JsonValue::String(s) && s@ == v@[i]@),
        jview(r) == JsonView::Array(string_items(strings_view(v@))),
{
    let mut out: Vec<JsonValue> = Vec::new();
    let mut i: usize = 0;
    while i < v.len()
        invariant
            i <= v.len(),
            out@.len() == i,
            forall|m: int| 0 <= m < i ==> (#[trigger] out@[m] matches JsonValue::String(s) && s@ == v@[m]@),
        decreases v.len() - i,
    {
        out.push(JsonValue::String(v[i].clone()));
        i += 1;
    }
    proof {
        lemma_items_view(out@, 0);
        assert(crate::languages::json::items_view(out@, 0) =~= string_items(strings_view(v@)));
    }
    JsonValue::Array(out)
}

/// A JSON member.
pub fn json_member(key: &str, value: JsonValue) -> (r: (String, JsonValue))
    ensures
        r.0@ == key@,
        r.1 == value,
{
    (string_from(&chars_of(key)), value)
}

} // verus!
