//! Path-like strings inside JSON documents.
use vstd::prelude::*;
use super::{ReferenceInfo, ReferenceType, ReferenceView, reference_views};
use crate::text::{
    chars_of, contains, decimal, lines, push_all, push_char, spec_contains, spec_decimal,
    spec_lines, spec_starts_with, string_from,
};

verus! {

/// A JSON number, reduced to what the library reads of it.
#[derive(Debug, Clone)]
pub enum JsonNumber {
    PosInt(u64),
    NegInt(i64),
    Float,
}

/// A parsed JSON document; object members keep the order in which the
/// parser yields them.
#[derive(Debug)]
pub enum JsonValue {
    Null,
    Bool(bool),
    Number(JsonNumber),
    String(String),
    Array(Vec<JsonValue>),
    Object(Vec<(String, JsonValue)>),
}

/// A string that starts with `.` or holds `/` or `@`.
pub open spec fn spec_looks_like_path(s: Seq<char>) -> bool {
    spec_starts_with(s, seq!['.']) || s.contains('/') || s.contains('@')
}

/// One-based number of the first line of `lines` (from index `k` on) that
/// contains `needle`.
pub open spec fn first_line_containing(lines: Seq<Seq<char>>, needle: Seq<char>, k: int) -> Option<int>
    decreases lines.len() - k,
{
    if k < 0 || k >= lines.len() {
        None
    } else if spec_contains(lines[k], needle) {
        Some(k + 1)
    } else {
        first_line_containing(lines, needle, k + 1)
    }
}

/// The number of the first line of `source` containing `needle`, or 1.
pub open spec fn spec_find_line_number(source: Seq<char>, needle: Seq<char>) -> int {
    match first_line_containing(spec_lines(source), needle, 0) {
        Some(n) => n,
        None => 1,
    }
}

/// Prefix of an object member.
pub open spec fn member_prefix(prefix: Seq<char>, key: Seq<char>) -> Seq<char> {
    if prefix.len() == 0 {
        key
    } else {
        prefix + seq!['.'] + key
    }
}

/// Prefix of an array element.
pub open spec fn element_prefix(prefix: Seq<char>, i: nat) -> Seq<char> {
    prefix + seq!['['] + spec_decimal(i) + seq![']']
}

/// The path-like strings of `v`, depth first, with the key path leading to each.
pub open spec fn json_refs(v: JsonValue, prefix: Seq<char>, source: Seq<char>) -> Seq<ReferenceView>
    decreases v, 0int,
{
    match v {
        JsonValue::String(s) => if spec_looks_like_path(s@) {
            seq![
                ReferenceView {
                    text: s@,
                    line: spec_find_line_number(source, s@),
                    content: prefix + seq![':', ' ', '"'] + s@ + seq!['"'],
                    kind: ReferenceType::PathString,
                },
            ]
        } else {
            Seq::empty()
        },
        JsonValue::Object(entries) => {
            proof {
                assert(decreases_to!(entries => entries@));
            }
            object_refs(entries@, prefix, source, 0)
        },
        JsonValue::Array(items) => {
            proof {
                assert(decreases_to!(items => items@));
            }
            array_refs(items@, prefix, source, 0)
        },
        _ => Seq::empty(),
    }
}

/// The path-like strings of the members `entries[i..]` of an object.
pub open spec fn object_refs(
    entries: Seq<(String, JsonValue)>,
    prefix: Seq<char>,
    source: Seq<char>,
    i: int,
) -> Seq<ReferenceView>
    decreases entries, entries.len() - i,
{
    if i < 0 || i >= entries.len() {
        Seq::empty()
    } else {
        proof {
            assert(decreases_to!(entries => entries[i]));
        }
        json_refs(entries[i].1, member_prefix(prefix, entries[i].0@), source) + object_refs(
            entries,
            prefix,
            source,
            i + 1,
        )
    }
}

/// The path-like strings of the elements `items[i..]` of an array.
pub open spec fn array_refs(items: Seq<JsonValue>, prefix: Seq<char>, source: Seq<char>, i: int) -> Seq<
    ReferenceView,
>
    decreases items, items.len() - i,
{
    if i < 0 || i >= items.len() {
        Seq::empty()
    } else {
        json_refs(items[i], element_prefix(prefix, i as nat), source) + array_refs(
            items,
            prefix,
            source,
            i + 1,
        )
    }
}

/// A string that starts with `.` or holds `/` or `@`.
pub fn looks_like_path(s: &str) -> (r: bool)
    ensures
        r == spec_looks_like_path(s@),
{
    let c = chars_of(s);
    let dot = vec!['.'];
    proof {
        assert(dot@ =~= seq!['.']);
    }
    crate::text::starts_with(&c, &dot) || crate::text::contains_char(&c, '/')
        || crate::text::contains_char(&c, '@')
}

/// The number of the first line of `source` containing `needle`, or 1.
pub fn find_line_number(source: &str, needle: &str) -> (r: usize)
    requires
        source@.len() < usize::MAX,
    ensures
        r as int == spec_find_line_number(source@, needle@),
{
    let s = chars_of(source);
    let n = chars_of(needle);
    let ls = lines(&s);
    let ghost sl = spec_lines(source@);
    proof {
        crate::text::lemma_lines_len(source@);
    }
    let mut k: usize = 0;
    while k < ls.len()
        invariant
            0 <= k <= ls.len(),
            ls@.len() == sl.len(),
            sl.len() <= source@.len(),
            source@.len() < usize::MAX,
            sl == spec_lines(source@),
            n@ == needle@,
            forall|m: int| 0 <= m < ls@.len() ==> #[trigger] ls@[m]@ == sl[m],
            first_line_containing(sl, needle@, 0) == first_line_containing(sl, needle@, k as int),
        decreases ls.len() - k,
    {
        proof {
            assert(ls@[k as int]@ == sl[k as int]);
        }
        let found = contains(&ls[k], &n);
        proof {
            assert(found == spec_contains(sl[k as int], needle@));
            assert(first_line_containing(sl, needle@, k as int) == if spec_contains(sl[k as int], needle@) {
                Some(k + 1)
            } else {
                first_line_containing(sl, needle@, k + 1)
            });
        }
        if found {
            return k + 1;
        }
        k += 1;
    }
    1
}

/// Appends to `refs` every string inside `value` that looks like a path, with
/// its key path (`a.b[0]`) and the first line of `source` that contains it.
pub fn find_string_paths(value: &JsonValue, prefix: &str, refs: &mut Vec<ReferenceInfo>, source: &str)
    requires
        source@.len() < usize::MAX,
    ensures
        reference_views(final(refs)@) == reference_views(old(refs)@) + json_refs(
            *value,
            prefix@,
            source@,
        ),
    decreases value,
{
    match value {
        JsonValue::String(s) => {
            if looks_like_path(s.as_str()) {
                let line = find_line_number(source, s.as_str());
                let mut content = String::new();
                push_all(&mut content, &chars_of(prefix));
                push_char(&mut content, ':');
                push_char(&mut content, ' ');
                push_char(&mut content, '"');
                push_all(&mut content, &chars_of(s.as_str()));
                push_char(&mut content, '"');
                let ghost before = reference_views(refs@);
                refs.push(ReferenceInfo {
                    text: s.clone(),
                    line_number: line,
                    line_content: content,
                    ref_type: ReferenceType::PathString,
                });
                proof {
                    assert(content@ =~= prefix@ + seq![':', ' ', '"'] + s@ + seq!['"']);
                    assert(reference_views(refs@) =~= before + json_refs(*value, prefix@, source@));
                }
            } else {
                proof {
                    assert(reference_views(refs@) =~= reference_views(old(refs)@) + json_refs(
                        *value,
                        prefix@,
                        source@,
                    ));
                }
            }
        },
        JsonValue::Object(entries) => {
            let mut i: usize = 0;
            while i < entries.len()
                invariant
                    0 <= i <= entries.len(),
                    source@.len() < usize::MAX,
                    *value == JsonValue::Object(*entries),
                    reference_views(refs@) + object_refs(entries@, prefix@, source@, i as int)
                        == reference_views(old(refs)@) + object_refs(entries@, prefix@, source@, 0),
                decreases entries.len() - i,
            {
                let key = &entries[i].0;
                let child = &entries[i].1;
                let p = member_prefix_of(prefix, key.as_str());
                proof {
                    assert(decreases_to!(*value => value->Object_0));
                    assert(decreases_to!(entries => entries@));
                    assert(decreases_to!(entries@ => entries@[i as int]));
                    assert(decreases_to!(entries@[i as int] => entries@[i as int].1));
                    assert(decreases_to!(*value => entries@[i as int].1));
                }
                let ghost before = reference_views(refs@);
                find_string_paths(child, p.as_str(), refs, source);
                proof {
                    assert(object_refs(entries@, prefix@, source@, i as int) == json_refs(
                        *child,
                        member_prefix(prefix@, key@),
                        source@,
                    ) + object_refs(entries@, prefix@, source@, i + 1));
                    assert(reference_views(refs@) + object_refs(entries@, prefix@, source@, i + 1)
                        =~= before + object_refs(entries@, prefix@, source@, i as int));
                }
                i += 1;
            }
            proof {
                assert(reference_views(refs@) =~= reference_views(refs@) + object_refs(
                    entries@,
                    prefix@,
                    source@,
                    i as int,
                ));
            }
        },
        JsonValue::Array(items) => {
            let mut i: usize = 0;
            while i < items.len()
                invariant
                    0 <= i <= items.len(),
                    source@.len() < usize::MAX,
                    *value == JsonValue::Array(*items),
                    reference_views(refs@) + array_refs(items@, prefix@, source@, i as int)
                        == reference_views(old(refs)@) + array_refs(items@, prefix@, source@, 0),
                decreases items.len() - i,
            {
                let child = &items[i];
                let p = element_prefix_of(prefix, i);
                proof {
                    assert(decreases_to!(*value => value->Array_0));
                    assert(decreases_to!(items => items@));
                    assert(decreases_to!(items@ => items@[i as int]));
                    assert(decreases_to!(*value => items@[i as int]));
                }
                let ghost before = reference_views(refs@);
                find_string_paths(child, p.as_str(), refs, source);
                proof {
                    assert(array_refs(items@, prefix@, source@, i as int) == json_refs(
                        *child,
                        element_prefix(prefix@, i as nat),
                        source@,
                    ) + array_refs(items@, prefix@, source@, i + 1));
                    assert(reference_views(refs@) + array_refs(items@, prefix@, source@, i + 1)
                        =~= before + array_refs(items@, prefix@, source@, i as int));
                }
                i += 1;
            }
            proof {
                assert(reference_views(refs@) =~= reference_views(refs@) + array_refs(
                    items@,
                    prefix@,
                    source@,
                    i as int,
                ));
            }
        },
        _ => {
            proof {
                assert(reference_views(refs@) =~= reference_views(old(refs)@) + json_refs(
                    *value,
                    prefix@,
                    source@,
                ));
            }
        },
    }
}

/// `key` alone when `prefix` is empty, else `prefix.key`.
fn member_prefix_of(prefix: &str, key: &str) -> (r: String)
    ensures
        r@ == member_prefix(prefix@, key@),
{
    let p = chars_of(prefix);
    let k = chars_of(key);
    let mut r = String::new();
    if p.len() == 0 {
        push_all(&mut r, &k);
        proof {
            assert(r@ =~= k@);
        }
    } else {
        push_all(&mut r, &p);
        push_char(&mut r, '.');
        push_all(&mut r, &k);
    }
    r
}

/// `prefix[i]`.
fn element_prefix_of(prefix: &str, i: usize) -> (r: String)
    ensures
        r@ == element_prefix(prefix@, i as nat),
{
    let mut r = String::new();
    push_all(&mut r, &chars_of(prefix));
    push_char(&mut r, '[');
    let d = decimal(i);
    push_all(&mut r, &chars_of(d.as_str()));
    push_char(&mut r, ']');
    proof {
        assert(r@ =~= prefix@ + seq!['['] + spec_decimal(i as nat) + seq![']']);
    }
    r
}

/// The path references of a JSON document: every string in it that looks
/// like a path; nothing when the source did not parse (`document` is `None`).
pub fn json_references(document: &Option<JsonValue>, source: &str) -> (r: Vec<ReferenceInfo>)
    requires
        source@.len() < usize::MAX,
    ensures
        reference_views(r@) == match document {
            Some(v) => json_refs(*v, Seq::empty(), source@),
            None => Seq::empty(),
        },
{
    let mut refs: Vec<ReferenceInfo> = Vec::new();
    proof {
        assert(reference_views(refs@) =~= Seq::<ReferenceView>::empty());
    }
    match document {
        Some(v) => {
            find_string_paths(v, "", &mut refs, source);
            proof {
                reveal_strlit("");
                assert(""@ =~= Seq::<char>::empty());
                assert(reference_views(refs@) =~= json_refs(*v, Seq::empty(), source@));
            }
        },
        None => {},
    }
    refs
}

// ---------------------------------------------------------------------------
// Values
// ---------------------------------------------------------------------------

/// The mathematical value of a JSON document.
pub enum JsonView {
    Null,
    Bool(bool),
    Int(int),
    Float,
    Str(Seq<char>),
    Array(Seq<JsonView>),
    Object(Seq<(Seq<char>, JsonView)>),
}

/// The value of a JSON document.
pub open spec fn jview(v: JsonValue) -> JsonView
    decreases v, 0int,
{
    match v {
        JsonValue::Null => JsonView::Null,
        JsonValue::Bool(b) => JsonView::Bool(b),
        JsonValue::Number(n) => match n {
            JsonNumber::PosInt(u) => JsonView::Int(u as int),
            JsonNumber::NegInt(i) => JsonView::Int(i as int),
            JsonNumber::Float => JsonView::Float,
        },
        JsonValue::String(s) => JsonView::Str(s@),
        JsonValue::Array(items) => {
            proof {
                assert(decreases_to!(items => items@));
            }
            JsonView::Array(items_view(items@, 0))
        },
        JsonValue::Object(entries) => {
            proof {
                assert(decreases_to!(entries => entries@));
            }
            JsonView::Object(members_view(entries@, 0))
        },
    }
}

/// The values of the elements `items[i..]`.
pub open spec fn items_view(items: Seq<JsonValue>, i: int) -> Seq<JsonView>
    decreases items, items.len() - i,
{
    if i < 0 || i >= items.len() {
        Seq::empty()
    } else {
        seq![jview(items[i])] + items_view(items, i + 1)
    }
}

/// The values of the members `entries[i..]`.
pub open spec fn members_view(entries: Seq<(String, JsonValue)>, i: int) -> Seq<(Seq<char>, JsonView)>
    decreases entries, entries.len() - i,
{
    if i < 0 || i >= entries.len() {
        Seq::empty()
    } else {
        proof {
            assert(decreases_to!(entries => entries[i]));
        }
        seq![(entries[i].0@, jview(entries[i].1))] + members_view(entries, i + 1)
    }
}

pub proof fn lemma_items_view(items: Seq<JsonValue>, i: int)
    requires
        0 <= i <= items.len(),
    ensures
        items_view(items, i).len() == items.len() - i,
        forall|k: int| 0 <= k < items.len() - i ==> #[trigger] items_view(items, i)[k] == jview(items[i + k]),
    decreases items.len() - i,
{
    if i < items.len() {
        lemma_items_view(items, i + 1);
        assert forall|k: int| 0 <= k < items.len() - i implies #[trigger] items_view(items, i)[k] == jview(items[i + k]) by {
            if k > 0 {
                assert(items_view(items, i)[k] == items_view(items, i + 1)[k - 1]);
            }
        }
    }
}

pub proof fn lemma_members_view(entries: Seq<(String, JsonValue)>, i: int)
    requires
        0 <= i <= entries.len(),
    ensures
        members_view(entries, i).len() == entries.len() - i,
        forall|k: int|
            0 <= k < entries.len() - i ==> #[trigger] members_view(entries, i)[k] == (entries[i + k].0@, jview(entries[i + k].1)),
    decreases entries.len() - i,
{
    if i < entries.len() {
        lemma_members_view(entries, i + 1);
        assert forall|k: int|
            0 <= k < entries.len() - i implies #[trigger] members_view(entries, i)[k] == (entries[i + k].0@, jview(entries[i + k].1)) by {
            if k > 0 {
                assert(members_view(entries, i)[k] == members_view(entries, i + 1)[k - 1]);
            }
        }
    }
}

/// A copy of a JSON value.
pub fn clone_json(v: &JsonValue) -> (r: JsonValue)
    ensures
        jview(r) == jview(*v),
    decreases v,
{
    match v {
        JsonValue::Null => JsonValue::Null,
        JsonValue::Bool(b) => JsonValue::Bool(*b),
        JsonValue::Number(n) => JsonValue::Number(
            match n {
                JsonNumber::PosInt(u) => JsonNumber::PosInt(*u),
                JsonNumber::NegInt(i) => JsonNumber::NegInt(*i),
                JsonNumber::Float => JsonNumber::Float,
            },
        ),
        JsonValue::String(s) => JsonValue::String(s.clone()),
        JsonValue::Array(items) => {
            let mut out: Vec<JsonValue> = Vec::new();
            let mut i: usize = 0;
            while i < items.len()
                invariant
                    i <= items.len(),
                    *v == JsonValue::Array(*items),
                    out@.len() == i,
                    forall|k: int| 0 <= k < i ==> jview(#[trigger] out@[k]) == jview(items@[k]),
                decreases items.len() - i,
            {
                proof {
                    assert(decreases_to!(*v => v->Array_0));
                    assert(decreases_to!(items => items@));
                    assert(decreases_to!(items@ => items@[i as int]));
                }
                let c = clone_json(&items[i]);
                out.push(c);
                i += 1;
            }
            proof {
                lemma_items_view(out@, 0);
                lemma_items_view(items@, 0);
                assert(items_view(out@, 0) =~= items_view(items@, 0));
            }
            JsonValue::Array(out)
        },
        JsonValue::Object(entries) => {
            let mut out: Vec<(String, JsonValue)> = Vec::new();
            let mut i: usize = 0;
            while i < entries.len()
                invariant
                    i <= entries.len(),
                    *v == JsonValue::Object(*entries),
                    out@.len() == i,
                    forall|k: int|
                        0 <= k < i ==> (#[trigger] out@[k]).0@ == entries@[k].0@ && jview(out@[k].1) == jview(entries@[k].1),
                decreases entries.len() - i,
            {
                proof {
                    assert(decreases_to!(*v => v->Object_0));
                    assert(decreases_to!(entries => entries@));
                    assert(decreases_to!(entries@ => entries@[i as int]));
                }
                let c = clone_json(&entries[i].1);
                out.push((entries[i].0.clone(), c));
                i += 1;
            }
            proof {
                lemma_members_view(out@, 0);
                lemma_members_view(entries@, 0);
                assert(members_view(out@, 0) =~= members_view(entries@, 0));
            }
            JsonValue::Object(out)
        },
    }
}

} // verus!
