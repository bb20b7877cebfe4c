//! Path aliases of a TypeScript configuration (`compilerOptions.paths`).
use vstd::prelude::*;
use crate::analyzers::imports::alias_views;
use crate::config::strings_view;
use crate::languages::json::JsonValue;
use crate::mcp::{get, jget, opt_strings};

verus! {

/// The strings of an array; `None` when an item is not a string.
pub open spec fn all_strings(items: Seq<JsonValue>) -> Option<Seq<Seq<char>>>
    decreases items.len(),
{
    if items.len() == 0 {
        Some(Seq::empty())
    } else {
        match (all_strings(items.drop_last()), items.last()) {
            (Some(v), JsonValue::String(s)) => Some(v.push(s@)),
            _ => None,
        }
    }
}

/// The alias table of the members of `paths`: each key with the strings of
/// its array, in order; `None` when a value is not an array of strings.
pub open spec fn path_table(entries: Seq<(String, JsonValue)>) -> Option<Seq<(Seq<char>, Seq<Seq<char>>)>>
    decreases entries.len(),
{
    if entries.len() == 0 {
        Some(Seq::empty())
    } else {
        match path_table(entries.drop_last()) {
            Some(t) => match entries.last().1 {
                JsonValue::Array(items) => match all_strings(items@) {
                    Some(v) => Some(t.push((entries.last().0@, v))),
                    None => None,
                },
                _ => None,
            },
            None => None,
        }
    }
}

/// A `baseUrl` that the configuration accepts: missing, null or a string.
pub open spec fn base_url_ok(v: Option<JsonValue>) -> bool {
    match v {
        None => true,
        Some(JsonValue::Null) => true,
        Some(JsonValue::String(_)) => true,
        _ => false,
    }
}

/// The aliases of a TypeScript configuration: `compilerOptions.paths` as an
/// alias table. `None` when the document is not an object, has no
/// `compilerOptions` object, a `baseUrl` that is not a string, no `paths`
/// object, or a `paths` value that is not an array of strings.
pub open spec fn spec_aliases(doc: JsonValue) -> Option<Seq<(Seq<char>, Seq<Seq<char>>)>> {
    match doc {
        JsonValue::Object(_) => match jget(doc, "compilerOptions"@) {
            Some(co) => match co {
                JsonValue::Object(_) => if !base_url_ok(jget(co, "baseUrl"@)) {
                    None
                } else {
                    match jget(co, "paths"@) {
                        Some(JsonValue::Object(entries)) => path_table(entries@),
                        _ => None,
                    }
                },
                _ => None,
            },
            None => None,
        },
        _ => None,
    }
}

/// The strings of an array, or `None` when an item is not a string.
fn string_items(items: &Vec<JsonValue>) -> (r: Option<Vec<String>>)
    ensures
        opt_strings(r) == all_strings(items@),
{
    let mut out: Vec<String> = Vec::new();
    let mut i: usize = 0;
    proof {
        assert(items@.take(0) =~= Seq::<JsonValue>::empty());
    }
    while i < items.len()
        invariant
            i <= items.len(),
            all_strings(items@.take(i as int)) == Some(strings_view(out@)),
        decreases items.len() - i,
    {
        proof {
            assert(items@.take(i + 1).drop_last() =~= items@.take(i as int));
        }
        match &items[i] {
            JsonValue::String(s) => {
                let ghost before = strings_view(out@);
                out.push(s.clone());
                proof {
                    assert(strings_view(out@) =~= before.push(s@));
                }
            },
            _ => {
                proof {
                    lemma_strings_none_extends(items@, i as int);
                }
                return None;
            },
        }
        i += 1;
    }
    proof {
        assert(items@.take(items@.len() as int) =~= items@);
    }
    Some(out)
}

/// The alias table of the members of `paths`.
fn table_of(entries: &Vec<(String, JsonValue)>) -> (r: Option<Vec<(String, Vec<String>)>>)
    ensures
        r matches Some(v) ==> path_table(entries@) == Some(alias_views(v@)),
        r is None ==> path_table(entries@) is None,
{
    let mut out: Vec<(String, Vec<String>)> = Vec::new();
    let mut i: usize = 0;
    proof {
        assert(entries@.take(0) =~= Seq::<(String, JsonValue)>::empty());
        assert(alias_views(out@) =~= Seq::<(Seq<char>, Seq<Seq<char>>)>::empty());
    }
    while i < entries.len()
        invariant
            i <= entries.len(),
            path_table(entries@.take(i as int)) == Some(alias_views(out@)),
        decreases entries.len() - i,
    {
        let ghost prefix = entries@.take(i + 1);
        proof {
            assert(prefix.drop_last() =~= entries@.take(i as int));
            assert(prefix.last() == entries@[i as int]);
        }
        match &entries[i].1 {
            JsonValue::Array(items) => match string_items(items) {
                Some(v) => {
                    let ghost before = alias_views(out@);
                    out.push((entries[i].0.clone(), v));
                    proof {
                        assert(alias_views(out@) =~= before.push((entries@[i as int].0@, strings_view(v@))));
                    }
                },
                None => {
                    proof {
                        lemma_table_none_extends(entries@, i as int);
                    }
                    return None;
                },
            },
            _ => {
                proof {
                    lemma_table_none_extends(entries@, i as int);
                }
                return None;
            },
        }
        i += 1;
    }
    proof {
        assert(entries@.take(entries@.len() as int) =~= entries@);
    }
    Some(out)
}

/// Once a prefix of the items holds a non-string, so does the whole array.
proof fn lemma_strings_none_extends(items: Seq<JsonValue>, i: int)
    requires
        0 <= i < items.len(),
        all_strings(items.take(i + 1)) is None,
    ensures
        all_strings(items) is None,
    decreases items.len() - i,
{
    if i + 1 < items.len() {
        assert(items.take(i + 2).drop_last() =~= items.take(i + 1));
        lemma_strings_none_extends(items, i + 1);
    } else {
        assert(items.take(i + 1) =~= items);
    }
}

/// Once a prefix of the members has no table, no longer prefix has one.
proof fn lemma_table_none_extends(entries: Seq<(String, JsonValue)>, i: int)
    requires
        0 <= i < entries.len(),
        path_table(entries.take(i + 1)) is None,
    ensures
        path_table(entries) is None,
    decreases entries.len() - i,
{
    if i + 1 < entries.len() {
        assert(entries.take(i + 2).drop_last() =~= entries.take(i + 1));
        lemma_table_none_extends(entries, i + 1);
    } else {
        assert(entries.take(i + 1) =~= entries);
    }
}

/// The aliases of a TypeScript configuration document.
pub fn aliases_from_document(doc: &JsonValue) -> (r: Option<Vec<(String, Vec<String>)>>)
    ensures
        r matches Some(v) ==> spec_aliases(*doc) == Some(alias_views(v@)),
        r is None ==> spec_aliases(*doc) is None,
{
    match doc {
        JsonValue::Object(_) => {},
        _ => {
            return None;
        },
    }
    let co = match get(doc, "compilerOptions") {
        Some(c) => c,
        None => {
            return None;
        },
    };
    match co {
        JsonValue::Object(_) => {},
        _ => {
            return None;
        },
    }
    match get(co, "baseUrl") {
        None => {},
        Some(JsonValue::Null) => {},
        Some(JsonValue::String(_)) => {},
        _ => {
            return None;
        },
    }
    match get(co, "paths") {
        Some(JsonValue::Object(entries)) => table_of(entries),
        _ => None,
    }
}

/// The path aliases of a repository, given its parsed TypeScript
/// configuration (`None` when it has none, or it could not be read or
/// parsed): empty unless the configuration holds a valid alias table.
pub fn read_path_aliases(tsconfig: Option<&JsonValue>) -> (r: Vec<(String, Vec<String>)>)
    ensures
        alias_views(r@) == match tsconfig {
            Some(d) => match spec_aliases(*d) {
                Some(a) => a,
                None => Seq::empty(),
            },
            None => Seq::empty(),
        },
{
    let empty: Vec<(String, Vec<String>)> = Vec::new();
    proof {
        assert(alias_views(empty@) =~= Seq::<(Seq<char>, Seq<Seq<char>>)>::empty());
    }
    match tsconfig {
        Some(d) => match aliases_from_document(d) {
            Some(a) => a,
            None => empty,
        },
        None => empty,
    }
}

} // verus!
