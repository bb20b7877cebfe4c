//! The Model Context Protocol server's decisions: which reply a message
//! gets, which command a tool call runs with which arguments, and what the
//! result of a tool call says.
use vstd::prelude::*;
use crate::cli::{
    CheckArgs, CleanArgs, Command, DuplicatesArgs, FilterArgs, ImportMigrateArgs, ImportsAction,
    ImportsCommand, MigrateArgs, NormalizeArgs, PathsAction, PathsCommand, ReferencesArgs,
    RenameArgs, ReplaceArgs, ScanArgs, UnusedArgs,
};
use crate::config::{override_scan, strings_view, Config};
use crate::paths::{join_path, spec_join};
use crate::error::RefactorError;
use crate::languages::json::{clone_json, jview, JsonNumber, JsonValue, JsonView};
use crate::text::{chars_of, concat, spec_trim, str_eq, string_from, trim};

verus! {

/// The protocol version this server speaks.
pub open spec fn spec_protocol_version() -> Seq<char> {
    "2025-06-18"@
}

/// The protocol version this server speaks.
pub fn protocol_version() -> (r: String)
    ensures
        r@ == spec_protocol_version(),
{
    string_from(&chars_of("2025-06-18"))
}

/// The largest frame, in bytes, that the server buffers.
pub const MAX_FRAME_BYTES: usize = 16777216;

/// A frame longer than [`MAX_FRAME_BYTES`] is dropped.
pub fn frame_too_large(len: usize) -> (r: bool)
    ensures
        r == (len > MAX_FRAME_BYTES),
{
    len > MAX_FRAME_BYTES
}

// ---------------------------------------------------------------------------
// Reading JSON values
// ---------------------------------------------------------------------------

/// The value of the first member named `key` from index `i` on.
pub open spec fn member_from(entries: Seq<(String, JsonValue)>, key: Seq<char>, i: int) -> Option<JsonValue>
    decreases entries.len() - i,
{
    if i < 0 || i >= entries.len() {
        None
    } else if entries[i].0@ == key {
        Some(entries[i].1)
    } else {
        member_from(entries, key, i + 1)
    }
}

/// The member `key` of an object; `None` for a missing member or a value
/// that is not an object (`Value::get`).
pub open spec fn jget(v: JsonValue, key: Seq<char>) -> Option<JsonValue> {
    match v {
        JsonValue::Object(entries) => member_from(entries@, key, 0),
        _ => None,
    }
}

/// The text of a string value (`Value::as_str`).
pub open spec fn jstr(v: Option<JsonValue>) -> Option<Seq<char>> {
    match v {
        Some(JsonValue::String(s)) => Some(s@),
        _ => None,
    }
}

/// A boolean value, or `default` (`Value::as_bool`, `unwrap_or`).
pub open spec fn jbool(v: Option<JsonValue>, default: bool) -> bool {
    match v {
        Some(JsonValue::Bool(b)) => b,
        _ => default,
    }
}

/// A non-negative integer value (`Value::as_u64`).
pub open spec fn ju64(v: Option<JsonValue>) -> Option<u64> {
    match v {
        Some(JsonValue::Number(JsonNumber::PosInt(n))) => Some(n),
        _ => None,
    }
}

/// The strings among the first `k` items, in order.
pub open spec fn strings_of(items: Seq<JsonValue>, k: int) -> Seq<Seq<char>>
    decreases k,
{
    if k <= 0 || k > items.len() {
        Seq::empty()
    } else {
        strings_of(items, k - 1) + match items[k - 1] {
            JsonValue::String(s) => seq![s@],
            _ => Seq::empty(),
        }
    }
}

/// The strings of an array value, other items skipped.
pub open spec fn jstrings(v: Option<JsonValue>) -> Option<Seq<Seq<char>>> {
    match v {
        Some(JsonValue::Array(items)) => Some(strings_of(items@, items@.len() as int)),
        _ => None,
    }
}

/// The texts of an optional list of strings.
pub open spec fn opt_strings(v: Option<Vec<String>>) -> Option<Seq<Seq<char>>> {
    match v {
        Some(x) => Some(strings_view(x@)),
        None => None,
    }
}

/// The member `key` of an object.
pub fn get<'a>(v: &'a JsonValue, key: &str) -> (r: Option<&'a JsonValue>)
    ensures
        r matches Some(x) ==> jget(*v, key@) == Some(*x),
        r is None ==> jget(*v, key@) is None,
{
    match v {
        JsonValue::Object(entries) => {
            let k = chars_of(key);
            let mut i: usize = 0;
            while i < entries.len()
                invariant
                    i <= entries.len(),
                    k@ == key@,
                    *v == JsonValue::Object(*entries),
                    member_from(entries@, key@, i as int) == member_from(entries@, key@, 0),
                decreases entries.len() - i,
            {
                if crate::text::seq_eq(&chars_of(entries[i].0.as_str()), &k) {
                    proof {
                        assert(entries@[i as int].0@ == key@);
                    }
                    return Some(&entries[i].1);
                }
                i += 1;
            }
            None
        },
        _ => None,
    }
}

/// The string member `key` of the arguments.
pub fn get_str(arguments: &JsonValue, key: &str) -> (r: Option<String>)
    ensures
        r matches Some(s) ==> jstr(jget(*arguments, key@)) == Some(s@),
        r is None ==> jstr(jget(*arguments, key@)) is None,
{
    match get(arguments, key) {
        Some(JsonValue::String(s)) => Some(s.clone()),
        _ => None,
    }
}

/// The string member `key`, or the validation error that names it.
pub fn req_str(arguments: &JsonValue, key: &str) -> (r: Result<String, RefactorError>)
    ensures
        r matches Ok(s) ==> jstr(jget(*arguments, key@)) == Some(s@),
        r is Err <==> jstr(jget(*arguments, key@)) is None,
        r matches Err(e) ==> (e matches RefactorError::Validation(m) && m@ == missing_message(key@)),
{
    match get_str(arguments, key) {
        Some(s) => Ok(s),
        None => Err(RefactorError::Validation(concat(concat("Missing required argument '", key).as_str(), "'"))),
    }
}

/// The message of a missing argument.
pub open spec fn missing_message(key: Seq<char>) -> Seq<char> {
    "Missing required argument '"@ + key + "'"@
}

/// The boolean member `key`, or `default`.
pub fn get_bool(arguments: &JsonValue, key: &str, default: bool) -> (r: bool)
    ensures
        r == jbool(jget(*arguments, key@), default),
{
    match get(arguments, key) {
        Some(JsonValue::Bool(b)) => *b,
        _ => default,
    }
}

/// The non-negative integer member `key`.
pub fn get_opt_u64(arguments: &JsonValue, key: &str) -> (r: Option<u64>)
    ensures
        r == ju64(jget(*arguments, key@)),
{
    match get(arguments, key) {
        Some(JsonValue::Number(JsonNumber::PosInt(n))) => Some(*n),
        _ => None,
    }
}

/// The strings of the array member `key`, other items skipped.
pub fn string_array(arguments: &JsonValue, key: &str) -> (r: Option<Vec<String>>)
    ensures
        opt_strings(r) == jstrings(jget(*arguments, key@)),
{
    match get(arguments, key) {
        Some(JsonValue::Array(items)) => {
            let mut out: Vec<String> = Vec::new();
            let mut i: usize = 0;
            proof {
                assert(strings_view(out@) =~= strings_of(items@, 0));
            }
            while i < items.len()
                invariant
                    i <= items.len(),
                    strings_view(out@) == strings_of(items@, i as int),
                decreases items.len() - i,
            {
                let ghost before = strings_view(out@);
                match &items[i] {
                    JsonValue::String(s) => {
                        out.push(s.clone());
                        proof {
                            assert(strings_view(out@) =~= before.push(s@));
                        }
                    },
                    _ => {
                        proof {
                            assert(strings_view(out@) =~= before + Seq::<Seq<char>>::empty());
                        }
                    },
                }
                i += 1;
            }
            Some(out)
        },
        _ => None,
    }
}

/// The texts of a command's path filters: (include, exclude, extensions).
pub open spec fn filters_view(f: FilterArgs) -> (Option<Seq<Seq<char>>>, Option<Seq<Seq<char>>>, Option<Seq<Seq<char>>>) {
    (opt_strings(f.include_paths), opt_strings(f.exclude), opt_strings(f.extensions))
}

/// The path filters named by tool arguments.
pub open spec fn spec_filters(arguments: JsonValue) -> (Option<Seq<Seq<char>>>, Option<Seq<Seq<char>>>, Option<Seq<Seq<char>>>) {
    (
        jstrings(jget(arguments, "include"@)),
        jstrings(jget(arguments, "exclude"@)),
        jstrings(jget(arguments, "extensions"@)),
    )
}

/// The path filters of tool arguments.
pub fn filter_args(arguments: &JsonValue) -> (r: FilterArgs)
    ensures
        filters_view(r) == spec_filters(*arguments),
{
    FilterArgs {
        include_paths: string_array(arguments, "include"),
        exclude: string_array(arguments, "exclude"),
        extensions: string_array(arguments, "extensions"),
    }
}

// ---------------------------------------------------------------------------
// Tool calls
// ---------------------------------------------------------------------------

/// The string argument `key` is missing.
pub open spec fn missing(arguments: JsonValue, key: Seq<char>) -> bool {
    jstr(jget(arguments, key)) is None
}

/// The string argument `key` (when present).
pub open spec fn arg(arguments: JsonValue, key: Seq<char>) -> Seq<char> {
    jstr(jget(arguments, key)).unwrap()
}

/// The boolean argument `key`, false by default.
pub open spec fn flag(arguments: JsonValue, key: Seq<char>) -> bool {
    jbool(jget(arguments, key), false)
}

/// `r` is the validation error that names the missing argument `key`.
pub open spec fn missing_error<T>(r: Result<T, RefactorError>, key: Seq<char>) -> bool {
    r matches Err(RefactorError::Validation(m)) && m@ == missing_message(key)
}

/// `r` is the validation error with the message `msg`.
pub open spec fn validation_error<T>(r: Result<T, RefactorError>, msg: Seq<char>) -> bool {
    r matches Err(RefactorError::Validation(m)) && m@ == msg
}

/// The message of an unknown `imports` action.
pub open spec fn unknown_imports_action(action: Seq<char>) -> Seq<char> {
    "Unknown imports action '"@ + action + "'; expected one of: scan, check, migrate, normalize, unused"@
}

/// The message of an unknown `paths` action.
pub open spec fn unknown_paths_action(action: Seq<char>) -> Seq<char> {
    "Unknown paths action '"@ + action + "'; expected one of: scan, check, migrate, normalize"@
}

/// What the `imports` tool runs for its arguments.
pub open spec fn spec_imports_command(arguments: JsonValue, r: Result<ImportsCommand, RefactorError>) -> bool {
    if missing(arguments, "action"@) {
        missing_error(r, "action"@)
    } else {
        let action = arg(arguments, "action"@);
        if action == "scan"@ {
            r matches Ok(c) && (c.action matches ImportsAction::Scan(a) && filters_view(a.filters) == spec_filters(arguments))
        } else if action == "check"@ {
            r matches Ok(c) && (c.action matches ImportsAction::Check(a) && a.strict == flag(arguments, "strict"@))
        } else if action == "migrate"@ {
            if missing(arguments, "old"@) {
                missing_error(r, "old"@)
            } else if missing(arguments, "new"@) {
                missing_error(r, "new"@)
            } else {
                r matches Ok(c) && (c.action matches ImportsAction::Migrate(a) && a.old@ == arg(arguments, "old"@) && a.new@
                    == arg(arguments, "new"@))
            }
        } else if action == "normalize"@ {
            r matches Ok(c) && (c.action matches ImportsAction::Normalize(a) && filters_view(a.filters) == spec_filters(arguments))
        } else if action == "unused"@ {
            r matches Ok(c) && (c.action matches ImportsAction::Unused(a) && filters_view(a.filters) == spec_filters(arguments))
        } else {
            validation_error(r, unknown_imports_action(action))
        }
    }
}

/// What the `paths` tool runs for its arguments.
pub open spec fn spec_paths_command(arguments: JsonValue, r: Result<PathsCommand, RefactorError>) -> bool {
    if missing(arguments, "action"@) {
        missing_error(r, "action"@)
    } else {
        let action = arg(arguments, "action"@);
        if action == "scan"@ {
            r matches Ok(c) && (c.action matches PathsAction::Scan(a) && filters_view(a.filters) == spec_filters(arguments))
        } else if action == "check"@ {
            r matches Ok(c) && (c.action matches PathsAction::Check(a) && a.strict == flag(arguments, "strict"@))
        } else if action == "migrate"@ {
            if missing(arguments, "old"@) {
                missing_error(r, "old"@)
            } else if missing(arguments, "new"@) {
                missing_error(r, "new"@)
            } else {
                r matches Ok(c) && (c.action matches PathsAction::Migrate(a) && a.old@ == arg(arguments, "old"@) && a.new@
                    == arg(arguments, "new"@))
            }
        } else if action == "normalize"@ {
            r matches Ok(c) && (c.action matches PathsAction::Normalize(a) && filters_view(a.filters) == spec_filters(arguments))
        } else {
            validation_error(r, unknown_paths_action(action))
        }
    }
}

/// The `imports` sub-command named by tool arguments.
pub fn imports_command(arguments: &JsonValue) -> (r: Result<ImportsCommand, RefactorError>)
    ensures
        spec_imports_command(*arguments, r),
{
    let action = match req_str(arguments, "action") {
        Ok(a) => a,
        Err(e) => {
            return Err(e);
        },
    };
    if str_eq(action.as_str(), "scan") {
        Ok(ImportsCommand { action: ImportsAction::Scan(ScanArgs { filters: filter_args(arguments) }) })
    } else if str_eq(action.as_str(), "check") {
        Ok(ImportsCommand { action: ImportsAction::Check(CheckArgs { strict: get_bool(arguments, "strict", false) }) })
    } else if str_eq(action.as_str(), "migrate") {
        let old = match req_str(arguments, "old") {
            Ok(s) => s,
            Err(e) => {
                return Err(e);
            },
        };
        let new = match req_str(arguments, "new") {
            Ok(s) => s,
            Err(e) => {
                return Err(e);
            },
        };
        Ok(ImportsCommand { action: ImportsAction::Migrate(ImportMigrateArgs { old, new }) })
    } else if str_eq(action.as_str(), "normalize") {
        Ok(ImportsCommand { action: ImportsAction::Normalize(NormalizeArgs { filters: filter_args(arguments) }) })
    } else if str_eq(action.as_str(), "unused") {
        Ok(ImportsCommand { action: ImportsAction::Unused(UnusedArgs { filters: filter_args(arguments) }) })
    } else {
        let msg = concat(
            concat("Unknown imports action '", action.as_str()).as_str(),
            "'; expected one of: scan, check, migrate, normalize, unused",
        );
        Err(RefactorError::Validation(msg))
    }
}

/// The `paths` sub-command named by tool arguments.
pub fn paths_command(arguments: &JsonValue) -> (r: Result<PathsCommand, RefactorError>)
    ensures
        spec_paths_command(*arguments, r),
{
    let action = match req_str(arguments, "action") {
        Ok(a) => a,
        Err(e) => {
            return Err(e);
        },
    };
    if str_eq(action.as_str(), "scan") {
        Ok(PathsCommand { action: PathsAction::Scan(ScanArgs { filters: filter_args(arguments) }) })
    } else if str_eq(action.as_str(), "check") {
        Ok(PathsCommand { action: PathsAction::Check(CheckArgs { strict: get_bool(arguments, "strict", false) }) })
    } else if str_eq(action.as_str(), "migrate") {
        let old = match req_str(arguments, "old") {
            Ok(s) => s,
            Err(e) => {
                return Err(e);
            },
        };
        let new = match req_str(arguments, "new") {
            Ok(s) => s,
            Err(e) => {
                return Err(e);
            },
        };
        Ok(PathsCommand { action: PathsAction::Migrate(ImportMigrateArgs { old, new }) })
    } else if str_eq(action.as_str(), "normalize") {
        Ok(PathsCommand { action: PathsAction::Normalize(NormalizeArgs { filters: filter_args(arguments) }) })
    } else {
        let msg = concat(
            concat("Unknown paths action '", action.as_str()).as_str(),
            "'; expected one of: scan, check, migrate, normalize",
        );
        Err(RefactorError::Validation(msg))
    }
}

/// The tools that may write: they take an `apply` argument.
pub open spec fn is_mutating_tool(name: Seq<char>) -> bool {
    name == "replace"@ || name == "rename"@ || name == "imports"@ || name == "paths"@ || name == "migrate"@ || name
        == "clean"@
}

/// The tools this server offers.
pub open spec fn is_known_tool(name: Seq<char>) -> bool {
    is_mutating_tool(name) || name == "scan"@ || name == "check"@ || name == "references"@ || name == "unused"@
        || name == "duplicates"@ || name == "normalize"@
}

/// Whether a tool offered by this server has the name `name`.
pub fn known_tool(name: &str) -> (r: bool)
    ensures
        r == is_known_tool(name@),
{
    mutating_tool(name) || str_eq(name, "scan") || str_eq(name, "check") || str_eq(name, "references") || str_eq(
        name,
        "unused",
    ) || str_eq(name, "duplicates") || str_eq(name, "normalize")
}

fn mutating_tool(name: &str) -> (r: bool)
    ensures
        r == is_mutating_tool(name@),
{
    str_eq(name, "replace") || str_eq(name, "rename") || str_eq(name, "imports") || str_eq(name, "paths") || str_eq(
        name,
        "migrate",
    ) || str_eq(name, "clean")
}

/// Whether a tool call writes to disk: only a mutating tool, and only with
/// `apply: true`; every other call is a dry run.
pub fn tool_apply(name: &str, arguments: &JsonValue) -> (r: bool)
    ensures
        r == (is_mutating_tool(name@) && flag(*arguments, "apply"@)),
        r ==> jget(*arguments, "apply"@) == Some(JsonValue::Bool(true)),
{
    mutating_tool(name) && get_bool(arguments, "apply", false)
}

/// The command a tool call runs for its arguments.
pub open spec fn spec_tool_request(name: Seq<char>, arguments: JsonValue, r: Result<Command, RefactorError>) -> bool {
    if name == "scan"@ {
        r matches Ok(Command::Scan(a)) && filters_view(a.filters) == spec_filters(arguments)
    } else if name == "check"@ {
        r matches Ok(Command::Check(a)) && a.strict == flag(arguments, "strict"@)
    } else if name == "replace"@ {
        if missing(arguments, "old"@) {
            missing_error(r, "old"@)
        } else if missing(arguments, "new"@) {
            missing_error(r, "new"@)
        } else {
            r matches Ok(Command::Replace(a)) && a.old@ == arg(arguments, "old"@) && a.new@ == arg(arguments, "new"@)
                && filters_view(a.filters) == spec_filters(arguments) && a.regex == flag(arguments, "regex"@)
                && a.case_sensitive == flag(arguments, "case_sensitive"@) && a.whole_word == flag(arguments, "whole_word"@)
                && a.allow_dirty == flag(arguments, "allow_dirty"@)
        }
    } else if name == "rename"@ {
        if missing(arguments, "old"@) {
            missing_error(r, "old"@)
        } else if missing(arguments, "new"@) {
            missing_error(r, "new"@)
        } else {
            r matches Ok(Command::Rename(a)) && a.old@ == arg(arguments, "old"@) && a.new@ == arg(arguments, "new"@)
        }
    } else if name == "imports"@ {
        match r {
            Ok(Command::Imports(c)) => spec_imports_command(arguments, Ok(c)),
            Ok(_) => false,
            Err(e) => spec_imports_command(arguments, Err(e)),
        }
    } else if name == "paths"@ {
        match r {
            Ok(Command::Paths(c)) => spec_paths_command(arguments, Ok(c)),
            Ok(_) => false,
            Err(e) => spec_paths_command(arguments, Err(e)),
        }
    } else if name == "references"@ {
        if missing(arguments, "path"@) {
            missing_error(r, "path"@)
        } else {
            r matches Ok(Command::References(a)) && a.path@ == arg(arguments, "path"@) && filters_view(a.filters)
                == spec_filters(arguments)
        }
    } else if name == "unused"@ {
        r matches Ok(Command::Unused(a)) && filters_view(a.filters) == spec_filters(arguments)
    } else if name == "duplicates"@ {
        r matches Ok(Command::Duplicates(a)) && a.min_size == ju64(jget(arguments, "min_size"@)) && filters_view(
            a.filters,
        ) == spec_filters(arguments)
    } else if name == "normalize"@ {
        r matches Ok(Command::Normalize(a)) && filters_view(a.filters) == spec_filters(arguments)
    } else if name == "migrate"@ {
        if missing(arguments, "plan"@) {
            missing_error(r, "plan"@)
        } else {
            r matches Ok(Command::Migrate(a)) && a.plan@ == arg(arguments, "plan"@)
        }
    } else if name == "clean"@ {
        r matches Ok(Command::Clean(a)) && a.empty_dirs == flag(arguments, "empty_dirs"@) && a.temp_files == flag(
            arguments,
            "temp_files"@,
        ) && a.cache == flag(arguments, "cache"@)
    } else {
        validation_error(r, "Unknown tool '"@ + name + "'"@)
    }
}

/// The command a tool call runs: the tool's arguments read into the
/// command's arguments, or the validation error for a missing argument, an
/// unknown action or an unknown tool.
pub fn tool_request(name: &str, arguments: &JsonValue) -> (r: Result<Command, RefactorError>)
    ensures
        spec_tool_request(name@, *arguments, r),
{
    if str_eq(name, "scan") {
        Ok(Command::Scan(ScanArgs { filters: filter_args(arguments) }))
    } else if str_eq(name, "check") {
        Ok(Command::Check(CheckArgs { strict: get_bool(arguments, "strict", false) }))
    } else if str_eq(name, "replace") {
        let old = match req_str(arguments, "old") {
            Ok(s) => s,
            Err(e) => {
                return Err(e);
            },
        };
        let new = match req_str(arguments, "new") {
            Ok(s) => s,
            Err(e) => {
                return Err(e);
            },
        };
        Ok(
            Command::Replace(
                ReplaceArgs {
                    old,
                    new,
                    filters: filter_args(arguments),
                    regex: get_bool(arguments, "regex", false),
                    case_sensitive: get_bool(arguments, "case_sensitive", false),
                    whole_word: get_bool(arguments, "whole_word", false),
                    allow_dirty: get_bool(arguments, "allow_dirty", false),
                },
            ),
        )
    } else if str_eq(name, "rename") {
        let old = match req_str(arguments, "old") {
            Ok(s) => s,
            Err(e) => {
                return Err(e);
            },
        };
        let new = match req_str(arguments, "new") {
            Ok(s) => s,
            Err(e) => {
                return Err(e);
            },
        };
        Ok(Command::Rename(RenameArgs { old, new }))
    } else if str_eq(name, "imports") {
        match imports_command(arguments) {
            Ok(c) => Ok(Command::Imports(c)),
            Err(e) => Err(e),
        }
    } else if str_eq(name, "paths") {
        match paths_command(arguments) {
            Ok(c) => Ok(Command::Paths(c)),
            Err(e) => Err(e),
        }
    } else if str_eq(name, "references") {
        let path = match req_str(arguments, "path") {
            Ok(s) => s,
            Err(e) => {
                return Err(e);
            },
        };
        Ok(Command::References(ReferencesArgs { path, filters: filter_args(arguments) }))
    } else if str_eq(name, "unused") {
        Ok(Command::Unused(UnusedArgs { filters: filter_args(arguments) }))
    } else if str_eq(name, "duplicates") {
        Ok(
            Command::Duplicates(
                DuplicatesArgs { min_size: get_opt_u64(arguments, "min_size"), filters: filter_args(arguments) },
            ),
        )
    } else if str_eq(name, "normalize") {
        Ok(Command::Normalize(NormalizeArgs { filters: filter_args(arguments) }))
    } else if str_eq(name, "migrate") {
        let plan = match req_str(arguments, "plan") {
            Ok(s) => s,
            Err(e) => {
                return Err(e);
            },
        };
        Ok(Command::Migrate(MigrateArgs { plan }))
    } else if str_eq(name, "clean") {
        Ok(
            Command::Clean(
                CleanArgs {
                    empty_dirs: get_bool(arguments, "empty_dirs", false),
                    temp_files: get_bool(arguments, "temp_files", false),
                    cache: get_bool(arguments, "cache", false),
                },
            ),
        )
    } else {
        Err(RefactorError::Validation(concat(concat("Unknown tool '", name).as_str(), "'")))
    }
}

/// The text of a tool result: the captured output, or a note with the exit
/// code when the output is blank.
pub open spec fn spec_tool_result_text(text: Seq<char>, code: i32) -> Seq<char> {
    if spec_trim(text).len() == 0 {
        "(no output; exit code "@ + crate::text::spec_decimal_i32(code) + ")"@
    } else {
        text
    }
}

/// The text of a tool result.
pub fn tool_result_text(text: String, code: i32) -> (r: String)
    ensures
        r@ == spec_tool_result_text(text@, code),
{
    if trim(&chars_of(text.as_str())).len() == 0 {
        concat(concat("(no output; exit code ", crate::text::decimal_i32(code).as_str()).as_str(), ")")
    } else {
        text
    }
}

/// The result of a tool call: its text as the one content item, whether it
/// is an error, and, where the text was read as a JSON document, that
/// document as structured content.
pub open spec fn spec_tool_result(content: Seq<char>, code: i32, parsed: Option<JsonView>) -> JsonView {
    let base = seq![
        (
            "content"@,
            JsonView::Array(
                seq![JsonView::Object(seq![("type"@, JsonView::Str("text"@)), ("text"@, JsonView::Str(content))])],
            ),
        ),
        ("isError"@, JsonView::Bool(code >= 2)),
    ];
    JsonView::Object(
        match parsed {
            Some(v) => base.push(("structuredContent"@, v)),
            None => base,
        },
    )
}

/// The result of a tool call from its text, its exit code and the JSON
/// document the text holds, if any.
pub fn tool_result(content: String, code: i32, parsed: Option<JsonValue>) -> (r: JsonValue)
    ensures
        jview(r) == spec_tool_result(
            content@,
            code,
            match parsed {
                Some(v) => Some(jview(v)),
                None => None,
            },
        ),
{
    let ghost cv = content@;
    let ghost pv: Option<JsonView> = if parsed is Some {
        Some(jview(parsed->0))
    } else {
        None
    };
    let mut item: Vec<(String, JsonValue)> = Vec::new();
    item.push(member("type", js("text")));
    item.push(member("text", JsonValue::String(content)));
    proof {
        crate::languages::json::lemma_members_view(item@, 0);
        assert(crate::languages::json::members_view(item@, 0) =~= seq![
            ("type"@, JsonView::Str("text"@)),
            ("text"@, JsonView::Str(cv)),
        ]);
    }
    let item_v = jobject(item);
    let ghost iv = jview(item_v);
    let mut items: Vec<JsonValue> = Vec::new();
    items.push(item_v);
    proof {
        crate::languages::json::lemma_items_view(items@, 0);
        assert(crate::languages::json::items_view(items@, 0) =~= seq![iv]);
    }
    let arr = JsonValue::Array(items);
    proof {
        assert(jview(arr) == JsonView::Array(seq![iv]));
    }
    let mut m: Vec<(String, JsonValue)> = Vec::new();
    m.push(member("content", arr));
    m.push(member("isError", JsonValue::Bool(tool_is_error(code))));
    match parsed {
        Some(v) => {
            m.push(member("structuredContent", v));
        },
        None => {},
    }
    proof {
        crate::languages::json::lemma_members_view(m@, 0);
        assert(crate::languages::json::members_view(m@, 0) =~= match spec_tool_result(cv, code, pv) {
            JsonView::Object(e) => e,
            _ => Seq::empty(),
        });
    }
    jobject(m)
}

/// A JSON-RPC answer to the request `id`: the value under `key` (`result`
/// or `error`).
pub open spec fn envelope_view(id: JsonView, key: Seq<char>, value: JsonView) -> JsonView {
    JsonView::Object(seq![("jsonrpc"@, JsonView::Str("2.0"@)), ("id"@, id), (key, value)])
}

/// The result of `initialize`: the protocol version, the tools capability
/// (no list changes), the server's name and version, and its instructions.
pub open spec fn initialize_view(protocol_version: Seq<char>, version: Seq<char>, instructions: Seq<char>) -> JsonView {
    JsonView::Object(
        seq![
            ("protocolVersion"@, JsonView::Str(protocol_version)),
            (
                "capabilities"@,
                JsonView::Object(seq![("tools"@, JsonView::Object(seq![("listChanged"@, JsonView::Bool(false))]))]),
            ),
            (
                "serverInfo"@,
                JsonView::Object(seq![("name"@, JsonView::Str("refactor-mcp"@)), ("version"@, JsonView::Str(version))]),
            ),
            ("instructions"@, JsonView::Str(instructions)),
        ],
    )
}

/// The result of a tool call that failed: its error text, marked as an
/// error.
pub open spec fn tool_error_view(text: Seq<char>) -> JsonView {
    JsonView::Object(
        seq![
            (
                "content"@,
                JsonView::Array(
                    seq![JsonView::Object(seq![("type"@, JsonView::Str("text"@)), ("text"@, JsonView::Str(text))])],
                ),
            ),
            ("isError"@, JsonView::Bool(true)),
        ],
    )
}

/// The JSON answer to a reply: nothing for silence; else the envelope of
/// the request's id with the result (the `initialize` result, an empty
/// object for `ping`, the tool list, an empty list under its key, the tool
/// call's result `call`, `null` where none was given) or, for an unknown
/// method, the error -32601 "Method not found".
pub open spec fn spec_reply_value(
    reply: Reply,
    version: Seq<char>,
    instructions: Seq<char>,
    call: Option<JsonView>,
) -> Option<JsonView> {
    match reply {
        Reply::Silent => None,
        Reply::Initialize { id, protocol_version } => Some(
            envelope_view(jview(id), "result"@, initialize_view(protocol_version@, version, instructions)),
        ),
        Reply::Pong { id } => Some(envelope_view(jview(id), "result"@, JsonView::Object(Seq::empty()))),
        Reply::ToolList { id } => Some(
            envelope_view(jview(id), "result"@, JsonView::Object(seq![("tools"@, JsonView::Array(tool_list()))])),
        ),
        Reply::EmptyList { id, key } => Some(
            envelope_view(jview(id), "result"@, JsonView::Object(seq![(key@, JsonView::Array(Seq::empty()))])),
        ),
        Reply::CallTool { id, .. } => Some(
            envelope_view(
                jview(id),
                "result"@,
                match call {
                    Some(c) => c,
                    None => JsonView::Null,
                },
            ),
        ),
        Reply::MethodNotFound { id } => Some(
            envelope_view(
                jview(id),
                "error"@,
                JsonView::Object(seq![("code"@, JsonView::Int(-32601)), ("message"@, JsonView::Str("Method not found"@))]),
            ),
        ),
    }
}

/// A JSON-RPC answer to the request `id`.
fn envelope(id: JsonValue, key: &str, value: JsonValue) -> (r: JsonValue)
    ensures
        jview(r) == envelope_view(jview(id), key@, jview(value)),
{
    let ghost iv = jview(id);
    let ghost vv = jview(value);
    let mut m: Vec<(String, JsonValue)> = Vec::new();
    m.push(member("jsonrpc", js("2.0")));
    m.push(member("id", id));
    m.push(member(key, value));
    proof {
        crate::languages::json::lemma_members_view(m@, 0);
        assert(crate::languages::json::members_view(m@, 0) =~= seq![
            ("jsonrpc"@, JsonView::Str("2.0"@)),
            ("id"@, iv),
            (key@, vv),
        ]);
    }
    jobject(m)
}

/// An object of one member.
fn single(key: &str, value: JsonValue) -> (r: JsonValue)
    ensures
        jview(r) == JsonView::Object(seq![(key@, jview(value))]),
{
    let ghost vv = jview(value);
    let mut m: Vec<(String, JsonValue)> = Vec::new();
    m.push(member(key, value));
    proof {
        crate::languages::json::lemma_members_view(m@, 0);
        assert(crate::languages::json::members_view(m@, 0) =~= seq![(key@, vv)]);
    }
    jobject(m)
}

/// An object of two members.
fn pair(k1: &str, v1: JsonValue, k2: &str, v2: JsonValue) -> (r: JsonValue)
    ensures
        jview(r) == JsonView::Object(seq![(k1@, jview(v1)), (k2@, jview(v2))]),
{
    let ghost a = jview(v1);
    let ghost b = jview(v2);
    let mut m: Vec<(String, JsonValue)> = Vec::new();
    m.push(member(k1, v1));
    m.push(member(k2, v2));
    proof {
        crate::languages::json::lemma_members_view(m@, 0);
        assert(crate::languages::json::members_view(m@, 0) =~= seq![(k1@, a), (k2@, b)]);
    }
    jobject(m)
}

/// The result of `initialize`.
fn initialize_result(protocol_version: String, version: &str, instructions: &str) -> (r: JsonValue)
    ensures
        jview(r) == initialize_view(protocol_version@, version@, instructions@),
{
    let ghost pv = protocol_version@;
    let caps = single("tools", single("listChanged", JsonValue::Bool(false)));
    let info = pair("name", js("refactor-mcp"), "version", js(version));
    let ghost cv = jview(caps);
    let ghost iv = jview(info);
    let mut m: Vec<(String, JsonValue)> = Vec::new();
    m.push(member("protocolVersion", JsonValue::String(protocol_version)));
    m.push(member("capabilities", caps));
    m.push(member("serverInfo", info));
    m.push(member("instructions", js(instructions)));
    proof {
        crate::languages::json::lemma_members_view(m@, 0);
        assert(crate::languages::json::members_view(m@, 0) =~= seq![
            ("protocolVersion"@, JsonView::Str(pv)),
            ("capabilities"@, cv),
            ("serverInfo"@, iv),
            ("instructions"@, JsonView::Str(instructions@)),
        ]);
    }
    jobject(m)
}

/// The result of a tool call that failed with the error text `text`.
pub fn tool_error_result(text: String) -> (r: JsonValue)
    ensures
        jview(r) == tool_error_view(text@),
{
    let ghost tv = text@;
    let item = pair("type", js("text"), "text", JsonValue::String(text));
    let ghost itv = jview(item);
    let mut items: Vec<JsonValue> = Vec::new();
    items.push(item);
    proof {
        crate::languages::json::lemma_items_view(items@, 0);
        assert(crate::languages::json::items_view(items@, 0) =~= seq![itv]);
    }
    let arr = JsonValue::Array(items);
    proof {
        assert(jview(arr) == JsonView::Array(seq![itv]));
    }
    pair("content", arr, "isError", JsonValue::Bool(true))
}

/// The JSON answer to a reply, given the server's version and
/// instructions and, for a tool call, its result.
pub fn reply_value(reply: Reply, version: &str, instructions: &str, call: Option<JsonValue>) -> (r: Option<JsonValue>)
    ensures
        match r {
            Some(v) => spec_reply_value(
                reply,
                version@,
                instructions@,
                match call {
                    Some(c) => Some(jview(c)),
                    None => None,
                },
            ) == Some(jview(v)),
            None => spec_reply_value(
                reply,
                version@,
                instructions@,
                match call {
                    Some(c) => Some(jview(c)),
                    None => None,
                },
            ) is None,
        },
{
    match reply {
        Reply::Silent => None,
        Reply::Initialize { id, protocol_version } => Some(
            envelope(id, "result", initialize_result(protocol_version, version, instructions)),
        ),
        Reply::Pong { id } => {
            let empty: Vec<(String, JsonValue)> = Vec::new();
            proof {
                assert(crate::languages::json::members_view(empty@, 0) =~= Seq::<(Seq<char>, JsonView)>::empty());
            }
            Some(envelope(id, "result", jobject(empty)))
        },
        Reply::ToolList { id } => Some(envelope(id, "result", single("tools", tools()))),
        Reply::EmptyList { id, key } => {
            let none: Vec<JsonValue> = Vec::new();
            let arr = JsonValue::Array(none);
            proof {
                assert(crate::languages::json::items_view(none@, 0) =~= Seq::<JsonView>::empty());
                assert(jview(arr) == JsonView::Array(Seq::empty()));
            }
            Some(envelope(id, "result", single(key.as_str(), arr)))
        },
        Reply::CallTool { id, name: _, arguments: _ } => {
            let value = match call {
                Some(c) => c,
                None => JsonValue::Null,
            };
            Some(envelope(id, "result", value))
        },
        Reply::MethodNotFound { id } => {
            let code = JsonValue::Number(JsonNumber::NegInt(-32601));
            proof {
                assert(jview(code) == JsonView::Int(-32601));
            }
            Some(envelope(id, "error", pair("code", code, "message", js("Method not found"))))
        },
    }
}

/// A tool result is an error from exit code 2 on.
pub fn tool_is_error(code: i32) -> (r: bool)
    ensures
        r == (code >= 2),
{
    code >= 2
}

// ---------------------------------------------------------------------------
// Messages
// ---------------------------------------------------------------------------

/// What the server answers to a message.
pub enum Reply {
    /// No answer (a notification, or a request without an id where none is due).
    Silent,
    /// The answer to `initialize`, with the protocol version the client asked for.
    Initialize { id: JsonValue, protocol_version: String },
    /// The answer to `ping`.
    Pong { id: JsonValue },
    /// The answer to `tools/list`.
    ToolList { id: JsonValue },
    /// An empty list under `key` (`resources`, `resourceTemplates`, `prompts`).
    EmptyList { id: JsonValue, key: String },
    /// A tool call to run.
    CallTool { id: JsonValue, name: String, arguments: JsonValue },
    /// The error for an unknown method.
    MethodNotFound { id: JsonValue },
}

/// The method of a message, or the empty text.
pub open spec fn spec_method(message: JsonValue) -> Seq<char> {
    match jstr(jget(message, "method"@)) {
        Some(m) => m,
        None => Seq::empty(),
    }
}

/// The protocol version a client asks for, or this server's.
pub open spec fn spec_requested_version(message: JsonValue) -> Seq<char> {
    match jget(message, "params"@) {
        Some(p) => match jstr(jget(p, "protocolVersion"@)) {
            Some(v) => v,
            None => spec_protocol_version(),
        },
        None => spec_protocol_version(),
    }
}

/// The name of the tool a call asks for, or the empty text.
pub open spec fn spec_call_name(message: JsonValue) -> Seq<char> {
    match jget(message, "params"@) {
        Some(p) => match jstr(jget(p, "name"@)) {
            Some(n) => n,
            None => Seq::empty(),
        },
        None => Seq::empty(),
    }
}

/// The arguments of a tool call: its `arguments` object, or an empty object.
pub open spec fn spec_call_arguments(message: JsonValue) -> JsonView {
    match jget(message, "params"@) {
        Some(p) => match jget(p, "arguments"@) {
            Some(JsonValue::Object(e)) => jview(JsonValue::Object(e)),
            _ => JsonView::Object(Seq::empty()),
        },
        None => JsonView::Object(Seq::empty()),
    }
}

/// The id of a reply equals the id of the message.
pub open spec fn same_id(id: JsonValue, message: JsonValue) -> bool {
    jget(message, "id"@) matches Some(m) && jview(id) == jview(m)
}

/// The reply to a message, by its method: `initialize` (with the version
/// the client asked for), `ping`, `tools/list`, the empty resource,
/// template and prompt lists, and `tools/call` are answered when the
/// message has an id; `notifications/initialized`, `initialized` and
/// `notifications/cancelled` never; any other method with an id gets the
/// method-not-found error.
pub open spec fn spec_handle_message(message: JsonValue, r: Reply) -> bool {
    let method = spec_method(message);
    let has_id = jget(message, "id"@) is Some;
    if method == "notifications/initialized"@ || method == "initialized"@ || method == "notifications/cancelled"@
        || !has_id {
        r is Silent
    } else if method == "initialize"@ {
        r matches Reply::Initialize { id, protocol_version } && same_id(id, message) && protocol_version@
            == spec_requested_version(message)
    } else if method == "ping"@ {
        r matches Reply::Pong { id } && same_id(id, message)
    } else if method == "tools/list"@ {
        r matches Reply::ToolList { id } && same_id(id, message)
    } else if method == "resources/list"@ {
        r matches Reply::EmptyList { id, key } && same_id(id, message) && key@ == "resources"@
    } else if method == "resources/templates/list"@ {
        r matches Reply::EmptyList { id, key } && same_id(id, message) && key@ == "resourceTemplates"@
    } else if method == "prompts/list"@ {
        r matches Reply::EmptyList { id, key } && same_id(id, message) && key@ == "prompts"@
    } else if method == "tools/call"@ {
        r matches Reply::CallTool { id, name, arguments } && same_id(id, message) && name@ == spec_call_name(message)
            && jview(arguments) == spec_call_arguments(message)
    } else {
        r matches Reply::MethodNotFound { id } && same_id(id, message)
    }
}

/// The reply to a message.
pub fn handle_message(message: &JsonValue) -> (r: Reply)
    ensures
        spec_handle_message(*message, r),
{
    let method = match get_str(message, "method") {
        Some(m) => m,
        None => String::new(),
    };
    let m = method.as_str();
    if str_eq(m, "notifications/initialized") || str_eq(m, "initialized") || str_eq(m, "notifications/cancelled") {
        return Reply::Silent;
    }
    let id = match get(message, "id") {
        Some(id) => clone_json(id),
        None => {
            return Reply::Silent;
        },
    };
    if str_eq(m, "initialize") {
        let requested = match get(message, "params") {
            Some(p) => match get_str(p, "protocolVersion") {
                Some(v) => v,
                None => protocol_version(),
            },
            None => protocol_version(),
        };
        Reply::Initialize { id, protocol_version: requested }
    } else if str_eq(m, "ping") {
        Reply::Pong { id }
    } else if str_eq(m, "tools/list") {
        Reply::ToolList { id }
    } else if str_eq(m, "resources/list") {
        Reply::EmptyList { id, key: string_from(&chars_of("resources")) }
    } else if str_eq(m, "resources/templates/list") {
        Reply::EmptyList { id, key: string_from(&chars_of("resourceTemplates")) }
    } else if str_eq(m, "prompts/list") {
        Reply::EmptyList { id, key: string_from(&chars_of("prompts")) }
    } else if str_eq(m, "tools/call") {
        let (name, arguments) = match get(message, "params") {
            Some(p) => {
                let name = match get_str(p, "name") {
                    Some(n) => n,
                    None => String::new(),
                };
                let arguments = match get(p, "arguments") {
                    Some(a) => match a {
                        JsonValue::Object(_) => clone_json(a),
                        _ => empty_object(),
                    },
                    None => empty_object(),
                };
                (name, arguments)
            },
            None => (String::new(), empty_object()),
        };
        Reply::CallTool { id, name, arguments }
    } else {
        Reply::MethodNotFound { id }
    }
}

/// An empty JSON object.
pub fn empty_object() -> (r: JsonValue)
    ensures
        jview(r) == JsonView::Object(Seq::empty()),
        r is Object,
{
    let e: Vec<(String, JsonValue)> = Vec::new();
    let r = JsonValue::Object(e);
    proof {
        assert(crate::languages::json::members_view(e@, 0) =~= Seq::<(Seq<char>, JsonView)>::empty());
    }
    r
}

// ---------------------------------------------------------------------------
// The tool list
// ---------------------------------------------------------------------------

/// A JSON string.
fn js(s: &str) -> (r: JsonValue)
    ensures
        jview(r) == JsonView::Str(s@),
{
    JsonValue::String(string_from(&chars_of(s)))
}

/// A JSON object from its members.
fn jobject(members: Vec<(String, JsonValue)>) -> (r: JsonValue)
    ensures
        jview(r) == JsonView::Object(crate::languages::json::members_view(members@, 0)),
{
    JsonValue::Object(members)
}

/// A member of an object.
fn member(key: &str, value: JsonValue) -> (r: (String, JsonValue))
    ensures
        r.0@ == key@,
        r.1 == value,
{
    (string_from(&chars_of(key)), value)
}

/// A list of strings as JSON.
pub open spec fn str_array(v: Seq<Seq<char>>) -> JsonView {
    JsonView::Array(v.map_values(|s: Seq<char>| JsonView::Str(s)))
}

/// A property of an input schema with its type and description.
pub open spec fn typed_prop(ty: Seq<char>, description: Seq<char>) -> JsonView {
    JsonView::Object(seq![("type"@, JsonView::Str(ty)), ("description"@, JsonView::Str(description))])
}

/// A string-array property of an input schema with its description.
pub open spec fn array_prop_view(description: Seq<char>) -> JsonView {
    JsonView::Object(
        seq![
            ("type"@, JsonView::Str("array"@)),
            ("items"@, JsonView::Object(seq![("type"@, JsonView::Str("string"@))])),
            ("description"@, JsonView::Str(description)),
        ],
    )
}

/// An enumerated string property of an input schema.
pub open spec fn enum_prop_view(description: Seq<char>, values: Seq<Seq<char>>) -> JsonView {
    JsonView::Object(
        seq![
            ("type"@, JsonView::Str("string"@)),
            ("description"@, JsonView::Str(description)),
            ("enum"@, str_array(values)),
        ],
    )
}

/// A property with a type and a description.
fn typed(ty: &str, description: &str) -> (r: JsonValue)
    ensures
        jview(r) == typed_prop(ty@, description@),
{
    let mut m: Vec<(String, JsonValue)> = Vec::new();
    m.push(member("type", js(ty)));
    m.push(member("description", js(description)));
    proof {
        crate::languages::json::lemma_members_view(m@, 0);
        assert(crate::languages::json::members_view(m@, 0) =~= seq![
            ("type"@, JsonView::Str(ty@)),
            ("description"@, JsonView::Str(description@)),
        ]);
    }
    jobject(m)
}

/// A string property of an input schema.
fn string_prop(description: &str) -> (r: JsonValue)
    ensures
        jview(r) == typed_prop("string"@, description@),
{
    typed("string", description)
}

/// A boolean property of an input schema.
fn bool_prop(description: &str) -> (r: JsonValue)
    ensures
        jview(r) == typed_prop("boolean"@, description@),
{
    typed("boolean", description)
}

/// A number property of an input schema.
fn number_prop(description: &str) -> (r: JsonValue)
    ensures
        jview(r) == typed_prop("number"@, description@),
{
    typed("number", description)
}

/// A string-array property of an input schema.
fn array_prop(description: &str) -> (r: JsonValue)
    ensures
        jview(r) == array_prop_view(description@),
{
    let mut items: Vec<(String, JsonValue)> = Vec::new();
    items.push(member("type", js("string")));
    proof {
        crate::languages::json::lemma_members_view(items@, 0);
        assert(crate::languages::json::members_view(items@, 0) =~= seq![("type"@, JsonView::Str("string"@))]);
    }
    let mut m: Vec<(String, JsonValue)> = Vec::new();
    m.push(member("type", js("array")));
    m.push(member("items", jobject(items)));
    m.push(member("description", js(description)));
    proof {
        crate::languages::json::lemma_members_view(m@, 0);
        assert(crate::languages::json::members_view(m@, 0) =~= match array_prop_view(description@) {
            JsonView::Object(e) => e,
            _ => Seq::empty(),
        });
    }
    jobject(m)
}

/// An enumerated string property of an input schema.
fn enum_prop(description: &str, values: Vec<&str>) -> (r: JsonValue)
    ensures
        jview(r) == enum_prop_view(description@, values@.map_values(|x: &str| x@)),
{
    let ghost vv = values@;
    let list = string_list(values);
    proof {
        assert(vv.map_values(|x: &str| JsonView::Str(x@)) =~= vv.map_values(|x: &str| x@).map_values(
            |t: Seq<char>| JsonView::Str(t),
        ));
    }
    let mut m: Vec<(String, JsonValue)> = Vec::new();
    m.push(member("type", js("string")));
    m.push(member("description", js(description)));
    m.push(member("enum", list));
    proof {
        crate::languages::json::lemma_members_view(m@, 0);
        assert(crate::languages::json::members_view(m@, 0) =~= match enum_prop_view(
            description@,
            vv.map_values(|x: &str| x@),
        ) {
            JsonView::Object(e) => e,
            _ => Seq::empty(),
        });
    }
    jobject(m)
}

/// The `root` property.
fn root_prop() -> (r: JsonValue)
    ensures
        jview(r) == typed_prop(
            "string"@,
            "Repository root for this operation (absolute or relative; defaults to the server root)"@,
        ),
{
    string_prop("Repository root for this operation (absolute or relative; defaults to the server root)")
}

/// The `apply` property.
fn apply_prop() -> (r: JsonValue)
    ensures
        jview(r) == typed_prop("boolean"@, "Set to true to apply changes to disk. Defaults to false (dry-run preview)."@),
{
    bool_prop("Set to true to apply changes to disk. Defaults to false (dry-run preview).")
}

/// The `include`, `exclude` and `extensions` properties, appended in that
/// order.
fn push_filter_props(props: &mut Vec<(String, JsonValue)>)
    ensures
        final(props)@.len() == old(props)@.len() + 3,
        forall|k: int| 0 <= k < old(props)@.len() ==> final(props)@[k] == old(props)@[k],
        final(props)@[old(props)@.len() as int].0@ == "include"@,
        jview(final(props)@[old(props)@.len() as int].1) == array_prop_view("Only process these paths"@),
        final(props)@[old(props)@.len() + 1int].0@ == "exclude"@,
        jview(final(props)@[old(props)@.len() + 1int].1) == array_prop_view("Skip these paths"@),
        final(props)@[old(props)@.len() + 2int].0@ == "extensions"@,
        jview(final(props)@[old(props)@.len() + 2int].1) == array_prop_view("File extensions to process"@),
{
    props.push(member("include", array_prop("Only process these paths")));
    props.push(member("exclude", array_prop("Skip these paths")));
    props.push(member("extensions", array_prop("File extensions to process")));
}

/// A list of strings as JSON.
fn string_list(v: Vec<&str>) -> (r: JsonValue)
    ensures
        jview(r) == JsonView::Array(v@.map_values(|s: &str| JsonView::Str(s@))),
{
    let mut out: Vec<JsonValue> = Vec::new();
    let mut i: usize = 0;
    while i < v.len()
        invariant
            i <= v.len(),
            out@.len() == i,
            forall|k: int| 0 <= k < i ==> jview(#[trigger] out@[k]) == JsonView::Str(v@[k]@),
        decreases v.len() - i,
    {
        out.push(js(v[i]));
        i += 1;
    }
    proof {
        crate::languages::json::lemma_items_view(out@, 0);
        assert(crate::languages::json::items_view(out@, 0) =~= v@.map_values(|s: &str| JsonView::Str(s@)));
    }
    JsonValue::Array(out)
}

/// An input schema: an object with exactly the given properties and the
/// given required arguments.
pub open spec fn schema_view(props: Seq<(Seq<char>, JsonView)>, required: Seq<Seq<char>>) -> JsonView {
    JsonView::Object(
        seq![
            ("type"@, JsonView::Str("object"@)),
            ("additionalProperties"@, JsonView::Bool(false)),
            ("properties"@, JsonView::Object(props)),
            ("required"@, str_array(required)),
        ],
    )
}

/// A tool description: its name, what it does and its input schema.
pub open spec fn tool_view(
    name: Seq<char>,
    description: Seq<char>,
    props: Seq<(Seq<char>, JsonView)>,
    required: Seq<Seq<char>>,
) -> JsonView {
    JsonView::Object(
        seq![
            ("name"@, JsonView::Str(name)),
            ("description"@, JsonView::Str(description)),
            ("inputSchema"@, schema_view(props, required)),
        ],
    )
}

/// The `root` property.
pub open spec fn root_member() -> (Seq<char>, JsonView) {
    ("root"@, typed_prop("string"@, "Repository root for this operation (absolute or relative; defaults to the server root)"@))
}

/// The `apply` property.
pub open spec fn apply_member() -> (Seq<char>, JsonView) {
    ("apply"@, typed_prop("boolean"@, "Set to true to apply changes to disk. Defaults to false (dry-run preview)."@))
}

/// The `include`, `exclude` and `extensions` properties.
pub open spec fn filter_members() -> Seq<(Seq<char>, JsonView)> {
    seq![
        ("include"@, array_prop_view("Only process these paths"@)),
        ("exclude"@, array_prop_view("Skip these paths"@)),
        ("extensions"@, array_prop_view("File extensions to process"@)),
    ]
}

/// The description of the `scan` tool.
pub open spec fn scan_tool_view() -> JsonView {
    tool_view(
        "scan"@,
        "Inventory repository files and directories by extension. Read-only."@,
        seq![
            root_member(),
        ],
        seq![],
    )
}

/// The description of the `check` tool.
pub open spec fn check_tool_view() -> JsonView {
    tool_view(
        "check"@,
        "Validate repository consistency: broken imports, broken references, and duplicate files. Read-only; exit code reflects findings."@,
        seq![
            root_member(),
            ("strict"@, typed_prop("boolean"@, "Treat warnings as errors"@)),
        ],
        seq![],
    )
}

/// The description of the `replace` tool.
pub open spec fn replace_tool_view() -> JsonView {
    tool_view(
        "replace"@,
        "Replace a string or regex across source files. Defaults to a dry-run preview; pass apply=true to write changes."@,
        seq![
            ("old"@, typed_prop("string"@, "String or regex pattern to search for (required)"@)),
            ("new"@, typed_prop("string"@, "Replacement text; supports regex capture groups such as $1"@)),
            ("regex"@, typed_prop("boolean"@, "Treat old/new as regex patterns"@)),
            ("case_sensitive"@, typed_prop("boolean"@, "Case-sensitive matching"@)),
            ("whole_word"@, typed_prop("boolean"@, "Match whole words only"@)),
            ("allow_dirty"@, typed_prop("boolean"@, "Skip the git dirty-worktree warning"@)),
            apply_member(),
            root_member(),
        ] + filter_members(),
        seq!["old"@, "new"@],
    )
}

/// The description of the `rename` tool.
pub open spec fn rename_tool_view() -> JsonView {
    tool_view(
        "rename"@,
        "Rename a file or directory and rewrite relative import references. Defaults to a dry-run preview; pass apply=true to write changes."@,
        seq![
            ("old"@, typed_prop("string"@, "Existing file/directory path (required)"@)),
            ("new"@, typed_prop("string"@, "New file/directory path (required)"@)),
            apply_member(),
            root_member(),
        ],
        seq!["old"@, "new"@],
    )
}

/// The description of the `imports` tool.
pub open spec fn imports_tool_view() -> JsonView {
    tool_view(
        "imports"@,
        "Analyze and migrate imports. action=migrate rewrites import paths (apply=true to write); other actions are read-only."@,
        seq![
            ("action"@, enum_prop_view("Sub-operation"@, seq!["scan"@, "check"@, "migrate"@, "normalize"@, "unused"@])),
            ("old"@, typed_prop("string"@, "Import path to migrate from (required for migrate)"@)),
            ("new"@, typed_prop("string"@, "Import path to migrate to (required for migrate)"@)),
            ("strict"@, typed_prop("boolean"@, "Treat warnings as errors (check action)"@)),
            apply_member(),
            root_member(),
        ] + filter_members(),
        seq!["action"@],
    )
}

/// The description of the `paths` tool.
pub open spec fn paths_tool_view() -> JsonView {
    tool_view(
        "paths"@,
        "Analyze and migrate path references. action=migrate rewrites paths (apply=true to write); other actions are read-only."@,
        seq![
            ("action"@, enum_prop_view("Sub-operation"@, seq!["scan"@, "check"@, "migrate"@, "normalize"@])),
            ("old"@, typed_prop("string"@, "Path to migrate from (required for migrate)"@)),
            ("new"@, typed_prop("string"@, "Path to migrate to (required for migrate)"@)),
            ("strict"@, typed_prop("boolean"@, "Treat warnings as errors (check action)"@)),
            apply_member(),
            root_member(),
        ] + filter_members(),
        seq!["action"@],
    )
}

/// The description of the `references` tool.
pub open spec fn references_tool_view() -> JsonView {
    tool_view(
        "references"@,
        "Find every file and line that references a given path. Read-only."@,
        seq![
            ("path"@, typed_prop("string"@, "Target path to search references for (required)"@)),
            root_member(),
        ] + filter_members(),
        seq!["path"@],
    )
}

/// The description of the `unused` tool.
pub open spec fn unused_tool_view() -> JsonView {
    tool_view(
        "unused"@,
        "Detect source files nothing references. Read-only."@,
        seq![
            root_member(),
        ] + filter_members(),
        seq![],
    )
}

/// The description of the `duplicates` tool.
pub open spec fn duplicates_tool_view() -> JsonView {
    tool_view(
        "duplicates"@,
        "Detect files with identical content via blake3 hashing. Read-only."@,
        seq![
            ("min_size"@, typed_prop("number"@, "Minimum file size in bytes to consider"@)),
            root_member(),
        ] + filter_members(),
        seq![],
    )
}

/// The description of the `normalize` tool.
pub open spec fn normalize_tool_view() -> JsonView {
    tool_view(
        "normalize"@,
        "Report imports/paths that can be normalized (slash style, redundant segments). Read-only."@,
        seq![
            root_member(),
        ] + filter_members(),
        seq![],
    )
}

/// The description of the `migrate` tool.
pub open spec fn migrate_tool_view() -> JsonView {
    tool_view(
        "migrate"@,
        "Execute a TOML/JSON migration plan file. Defaults to a dry-run preview; pass apply=true to write changes."@,
        seq![
            ("plan"@, typed_prop("string"@, "Path to the migration plan file (required)"@)),
            apply_member(),
            root_member(),
        ],
        seq!["plan"@],
    )
}

/// The description of the `clean` tool.
pub open spec fn clean_tool_view() -> JsonView {
    tool_view(
        "clean"@,
        "Remove temporary files, caches, and empty directories. Defaults to a dry-run preview; pass apply=true to write changes."@,
        seq![
            ("temp_files"@, typed_prop("boolean"@, "Remove *.tmp, *.bak, .~* temp files"@)),
            ("cache"@, typed_prop("boolean"@, "Remove cache directories (.cache, __pycache__, .pytest_cache)"@)),
            ("empty_dirs"@, typed_prop("boolean"@, "Remove empty directories"@)),
            apply_member(),
            root_member(),
        ],
        seq![],
    )
}

/// The descriptions of the tools, in the order they are listed.
pub open spec fn tool_list() -> Seq<JsonView> {
    seq![
        scan_tool_view(),
        check_tool_view(),
        replace_tool_view(),
        rename_tool_view(),
        imports_tool_view(),
        paths_tool_view(),
        references_tool_view(),
        unused_tool_view(),
        duplicates_tool_view(),
        normalize_tool_view(),
        migrate_tool_view(),
        clean_tool_view(),
    ]
}

/// An object input schema with its properties and required arguments.
fn schema(properties: Vec<(String, JsonValue)>, required: Vec<&str>) -> (r: JsonValue)
    ensures
        jview(r) == schema_view(
            crate::languages::json::members_view(properties@, 0),
            required@.map_values(|x: &str| x@),
        ),
{
    let ghost pv = crate::languages::json::members_view(properties@, 0);
    let ghost rq = required@;
    let mut m: Vec<(String, JsonValue)> = Vec::new();
    m.push(member("type", js("object")));
    m.push(member("additionalProperties", JsonValue::Bool(false)));
    m.push(member("properties", jobject(properties)));
    m.push(member("required", string_list(required)));
    proof {
        crate::languages::json::lemma_members_view(m@, 0);
        assert(rq.map_values(|x: &str| JsonView::Str(x@)) =~= rq.map_values(|x: &str| x@).map_values(
            |s: Seq<char>| JsonView::Str(s),
        ));
        assert(crate::languages::json::members_view(m@, 0) =~= match schema_view(pv, rq.map_values(|x: &str| x@)) {
            JsonView::Object(e) => e,
            _ => Seq::empty(),
        });
    }
    jobject(m)
}

/// A tool description: its name, what it does, and its input schema.
fn tool_def(name: &str, description: &str, input_schema: JsonValue) -> (r: JsonValue)
    ensures
        jview(r) == JsonView::Object(
            seq![
                ("name"@, JsonView::Str(name@)),
                ("description"@, JsonView::Str(description@)),
                ("inputSchema"@, jview(input_schema)),
            ],
        ),
{
    let ghost sv = jview(input_schema);
    let mut m: Vec<(String, JsonValue)> = Vec::new();
    m.push(member("name", js(name)));
    m.push(member("description", js(description)));
    m.push(member("inputSchema", input_schema));
    proof {
        crate::languages::json::lemma_members_view(m@, 0);
        assert(crate::languages::json::members_view(m@, 0) =~= seq![
            ("name"@, JsonView::Str(name@)),
            ("description"@, JsonView::Str(description@)),
            ("inputSchema"@, sv),
        ]);
    }
    jobject(m)
}

/// The description of the `scan` tool.
fn scan_tool() -> (r: JsonValue)
    ensures
        jview(r) == scan_tool_view(),
{
    let mut p: Vec<(String, JsonValue)> = Vec::new();
    p.push(member("root", root_prop()));
    proof {
        crate::languages::json::lemma_members_view(p@, 0);
        assert(crate::languages::json::members_view(p@, 0) =~= match scan_tool_view() {
            JsonView::Object(m) => match m[2].1 {
                JsonView::Object(s) => match s[2].1 {
                    JsonView::Object(props) => props,
                    _ => Seq::empty(),
                },
                _ => Seq::empty(),
            },
            _ => Seq::empty(),
        });
    }
    let req: Vec<&str> = vec![];
    let ghost rq = req@;
    let sch = schema(p, req);
    proof {
        assert(rq.map_values(|x: &str| x@) =~= seq![]);
    }
    tool_def("scan", "Inventory repository files and directories by extension. Read-only.", sch)
}

/// The description of the `check` tool.
fn check_tool() -> (r: JsonValue)
    ensures
        jview(r) == check_tool_view(),
{
    let mut p: Vec<(String, JsonValue)> = Vec::new();
    p.push(member("root", root_prop()));
    p.push(member("strict", bool_prop("Treat warnings as errors")));
    proof {
        crate::languages::json::lemma_members_view(p@, 0);
        assert(crate::languages::json::members_view(p@, 0) =~= match check_tool_view() {
            JsonView::Object(m) => match m[2].1 {
                JsonView::Object(s) => match s[2].1 {
                    JsonView::Object(props) => props,
                    _ => Seq::empty(),
                },
                _ => Seq::empty(),
            },
            _ => Seq::empty(),
        });
    }
    let req: Vec<&str> = vec![];
    let ghost rq = req@;
    let sch = schema(p, req);
    proof {
        assert(rq.map_values(|x: &str| x@) =~= seq![]);
    }
    tool_def("check", "Validate repository consistency: broken imports, broken references, and duplicate files. Read-only; exit code reflects findings.", sch)
}

/// The description of the `replace` tool.
fn replace_tool() -> (r: JsonValue)
    ensures
        jview(r) == replace_tool_view(),
{
    let mut p: Vec<(String, JsonValue)> = Vec::new();
    p.push(member("old", string_prop("String or regex pattern to search for (required)")));
    p.push(member("new", string_prop("Replacement text; supports regex capture groups such as $1")));
    p.push(member("regex", bool_prop("Treat old/new as regex patterns")));
    p.push(member("case_sensitive", bool_prop("Case-sensitive matching")));
    p.push(member("whole_word", bool_prop("Match whole words only")));
    p.push(member("allow_dirty", bool_prop("Skip the git dirty-worktree warning")));
    p.push(member("apply", apply_prop()));
    p.push(member("root", root_prop()));
    push_filter_props(&mut p);
    proof {
        crate::languages::json::lemma_members_view(p@, 0);
        assert(crate::languages::json::members_view(p@, 0) =~= match replace_tool_view() {
            JsonView::Object(m) => match m[2].1 {
                JsonView::Object(s) => match s[2].1 {
                    JsonView::Object(props) => props,
                    _ => Seq::empty(),
                },
                _ => Seq::empty(),
            },
            _ => Seq::empty(),
        });
    }
    let req: Vec<&str> = vec!["old", "new"];
    let ghost rq = req@;
    let sch = schema(p, req);
    proof {
        assert(rq.map_values(|x: &str| x@) =~= seq!["old"@, "new"@]);
    }
    tool_def("replace", "Replace a string or regex across source files. Defaults to a dry-run preview; pass apply=true to write changes.", sch)
}

/// The description of the `rename` tool.
fn rename_tool() -> (r: JsonValue)
    ensures
        jview(r) == rename_tool_view(),
{
    let mut p: Vec<(String, JsonValue)> = Vec::new();
    p.push(member("old", string_prop("Existing file/directory path (required)")));
    p.push(member("new", string_prop("New file/directory path (required)")));
    p.push(member("apply", apply_prop()));
    p.push(member("root", root_prop()));
    proof {
        crate::languages::json::lemma_members_view(p@, 0);
        assert(crate::languages::json::members_view(p@, 0) =~= match rename_tool_view() {
            JsonView::Object(m) => match m[2].1 {
                JsonView::Object(s) => match s[2].1 {
                    JsonView::Object(props) => props,
                    _ => Seq::empty(),
                },
                _ => Seq::empty(),
            },
            _ => Seq::empty(),
        });
    }
    let req: Vec<&str> = vec!["old", "new"];
    let ghost rq = req@;
    let sch = schema(p, req);
    proof {
        assert(rq.map_values(|x: &str| x@) =~= seq!["old"@, "new"@]);
    }
    tool_def("rename", "Rename a file or directory and rewrite relative import references. Defaults to a dry-run preview; pass apply=true to write changes.", sch)
}

/// The description of the `imports` tool.
fn imports_tool() -> (r: JsonValue)
    ensures
        jview(r) == imports_tool_view(),
{
    let mut p: Vec<(String, JsonValue)> = Vec::new();
    let values: Vec<&str> = vec!["scan", "check", "migrate", "normalize", "unused"];
    let ghost vv = values@;
    let ep = enum_prop("Sub-operation", values);
    proof {
        assert(vv.map_values(|x: &str| x@) =~= seq!["scan"@, "check"@, "migrate"@, "normalize"@, "unused"@]);
    }
    p.push(member("action", ep));
    p.push(member("old", string_prop("Import path to migrate from (required for migrate)")));
    p.push(member("new", string_prop("Import path to migrate to (required for migrate)")));
    p.push(member("strict", bool_prop("Treat warnings as errors (check action)")));
    p.push(member("apply", apply_prop()));
    p.push(member("root", root_prop()));
    push_filter_props(&mut p);
    proof {
        crate::languages::json::lemma_members_view(p@, 0);
        assert(crate::languages::json::members_view(p@, 0) =~= match imports_tool_view() {
            JsonView::Object(m) => match m[2].1 {
                JsonView::Object(s) => match s[2].1 {
                    JsonView::Object(props) => props,
                    _ => Seq::empty(),
                },
                _ => Seq::empty(),
            },
            _ => Seq::empty(),
        });
    }
    let req: Vec<&str> = vec!["action"];
    let ghost rq = req@;
    let sch = schema(p, req);
    proof {
        assert(rq.map_values(|x: &str| x@) =~= seq!["action"@]);
    }
    tool_def("imports", "Analyze and migrate imports. action=migrate rewrites import paths (apply=true to write); other actions are read-only.", sch)
}

/// The description of the `paths` tool.
fn paths_tool() -> (r: JsonValue)
    ensures
        jview(r) == paths_tool_view(),
{
    let mut p: Vec<(String, JsonValue)> = Vec::new();
    let values: Vec<&str> = vec!["scan", "check", "migrate", "normalize"];
    let ghost vv = values@;
    let ep = enum_prop("Sub-operation", values);
    proof {
        assert(vv.map_values(|x: &str| x@) =~= seq!["scan"@, "check"@, "migrate"@, "normalize"@]);
    }
    p.push(member("action", ep));
    p.push(member("old", string_prop("Path to migrate from (required for migrate)")));
    p.push(member("new", string_prop("Path to migrate to (required for migrate)")));
    p.push(member("strict", bool_prop("Treat warnings as errors (check action)")));
    p.push(member("apply", apply_prop()));
    p.push(member("root", root_prop()));
    push_filter_props(&mut p);
    proof {
        crate::languages::json::lemma_members_view(p@, 0);
        assert(crate::languages::json::members_view(p@, 0) =~= match paths_tool_view() {
            JsonView::Object(m) => match m[2].1 {
                JsonView::Object(s) => match s[2].1 {
                    JsonView::Object(props) => props,
                    _ => Seq::empty(),
                },
                _ => Seq::empty(),
            },
            _ => Seq::empty(),
        });
    }
    let req: Vec<&str> = vec!["action"];
    let ghost rq = req@;
    let sch = schema(p, req);
    proof {
        assert(rq.map_values(|x: &str| x@) =~= seq!["action"@]);
    }
    tool_def("paths", "Analyze and migrate path references. action=migrate rewrites paths (apply=true to write); other actions are read-only.", sch)
}

/// The description of the `references` tool.
fn references_tool() -> (r: JsonValue)
    ensures
        jview(r) == references_tool_view(),
{
    let mut p: Vec<(String, JsonValue)> = Vec::new();
    p.push(member("path", string_prop("Target path to search references for (required)")));
    p.push(member("root", root_prop()));
    push_filter_props(&mut p);
    proof {
        crate::languages::json::lemma_members_view(p@, 0);
        assert(crate::languages::json::members_view(p@, 0) =~= match references_tool_view() {
            JsonView::Object(m) => match m[2].1 {
                JsonView::Object(s) => match s[2].1 {
                    JsonView::Object(props) => props,
                    _ => Seq::empty(),
                },
                _ => Seq::empty(),
            },
            _ => Seq::empty(),
        });
    }
    let req: Vec<&str> = vec!["path"];
    let ghost rq = req@;
    let sch = schema(p, req);
    proof {
        assert(rq.map_values(|x: &str| x@) =~= seq!["path"@]);
    }
    tool_def("references", "Find every file and line that references a given path. Read-only.", sch)
}

/// The description of the `unused` tool.
fn unused_tool() -> (r: JsonValue)
    ensures
        jview(r) == unused_tool_view(),
{
    let mut p: Vec<(String, JsonValue)> = Vec::new();
    p.push(member("root", root_prop()));
    push_filter_props(&mut p);
    proof {
        crate::languages::json::lemma_members_view(p@, 0);
        assert(crate::languages::json::members_view(p@, 0) =~= match unused_tool_view() {
            JsonView::Object(m) => match m[2].1 {
                JsonView::Object(s) => match s[2].1 {
                    JsonView::Object(props) => props,
                    _ => Seq::empty(),
                },
                _ => Seq::empty(),
            },
            _ => Seq::empty(),
        });
    }
    let req: Vec<&str> = vec![];
    let ghost rq = req@;
    let sch = schema(p, req);
    proof {
        assert(rq.map_values(|x: &str| x@) =~= seq![]);
    }
    tool_def("unused", "Detect source files nothing references. Read-only.", sch)
}

/// The description of the `duplicates` tool.
fn duplicates_tool() -> (r: JsonValue)
    ensures
        jview(r) == duplicates_tool_view(),
{
    let mut p: Vec<(String, JsonValue)> = Vec::new();
    p.push(member("min_size", number_prop("Minimum file size in bytes to consider")));
    p.push(member("root", root_prop()));
    push_filter_props(&mut p);
    proof {
        crate::languages::json::lemma_members_view(p@, 0);
        assert(crate::languages::json::members_view(p@, 0) =~= match duplicates_tool_view() {
            JsonView::Object(m) => match m[2].1 {
                JsonView::Object(s) => match s[2].1 {
                    JsonView::Object(props) => props,
                    _ => Seq::empty(),
                },
                _ => Seq::empty(),
            },
            _ => Seq::empty(),
        });
    }
    let req: Vec<&str> = vec![];
    let ghost rq = req@;
    let sch = schema(p, req);
    proof {
        assert(rq.map_values(|x: &str| x@) =~= seq![]);
    }
    tool_def("duplicates", "Detect files with identical content via blake3 hashing. Read-only.", sch)
}

/// The description of the `normalize` tool.
fn normalize_tool() -> (r: JsonValue)
    ensures
        jview(r) == normalize_tool_view(),
{
    let mut p: Vec<(String, JsonValue)> = Vec::new();
    p.push(member("root", root_prop()));
    push_filter_props(&mut p);
    proof {
        crate::languages::json::lemma_members_view(p@, 0);
        assert(crate::languages::json::members_view(p@, 0) =~= match normalize_tool_view() {
            JsonView::Object(m) => match m[2].1 {
                JsonView::Object(s) => match s[2].1 {
                    JsonView::Object(props) => props,
                    _ => Seq::empty(),
                },
                _ => Seq::empty(),
            },
            _ => Seq::empty(),
        });
    }
    let req: Vec<&str> = vec![];
    let ghost rq = req@;
    let sch = schema(p, req);
    proof {
        assert(rq.map_values(|x: &str| x@) =~= seq![]);
    }
    tool_def("normalize", "Report imports/paths that can be normalized (slash style, redundant segments). Read-only.", sch)
}

/// The description of the `migrate` tool.
fn migrate_tool() -> (r: JsonValue)
    ensures
        jview(r) == migrate_tool_view(),
{
    let mut p: Vec<(String, JsonValue)> = Vec::new();
    p.push(member("plan", string_prop("Path to the migration plan file (required)")));
    p.push(member("apply", apply_prop()));
    p.push(member("root", root_prop()));
    proof {
        crate::languages::json::lemma_members_view(p@, 0);
        assert(crate::languages::json::members_view(p@, 0) =~= match migrate_tool_view() {
            JsonView::Object(m) => match m[2].1 {
                JsonView::Object(s) => match s[2].1 {
                    JsonView::Object(props) => props,
                    _ => Seq::empty(),
                },
                _ => Seq::empty(),
            },
            _ => Seq::empty(),
        });
    }
    let req: Vec<&str> = vec!["plan"];
    let ghost rq = req@;
    let sch = schema(p, req);
    proof {
        assert(rq.map_values(|x: &str| x@) =~= seq!["plan"@]);
    }
    tool_def("migrate", "Execute a TOML/JSON migration plan file. Defaults to a dry-run preview; pass apply=true to write changes.", sch)
}

/// The description of the `clean` tool.
fn clean_tool() -> (r: JsonValue)
    ensures
        jview(r) == clean_tool_view(),
{
    let mut p: Vec<(String, JsonValue)> = Vec::new();
    p.push(member("temp_files", bool_prop("Remove *.tmp, *.bak, .~* temp files")));
    p.push(member("cache", bool_prop("Remove cache directories (.cache, __pycache__, .pytest_cache)")));
    p.push(member("empty_dirs", bool_prop("Remove empty directories")));
    p.push(member("apply", apply_prop()));
    p.push(member("root", root_prop()));
    proof {
        crate::languages::json::lemma_members_view(p@, 0);
        assert(crate::languages::json::members_view(p@, 0) =~= match clean_tool_view() {
            JsonView::Object(m) => match m[2].1 {
                JsonView::Object(s) => match s[2].1 {
                    JsonView::Object(props) => props,
                    _ => Seq::empty(),
                },
                _ => Seq::empty(),
            },
            _ => Seq::empty(),
        });
    }
    let req: Vec<&str> = vec![];
    let ghost rq = req@;
    let sch = schema(p, req);
    proof {
        assert(rq.map_values(|x: &str| x@) =~= seq![]);
    }
    tool_def("clean", "Remove temporary files, caches, and empty directories. Defaults to a dry-run preview; pass apply=true to write changes.", sch)
}

/// The descriptions of the tools this server offers: name, purpose and
/// input schema of each, in a fixed order.
pub fn tools() -> (r: JsonValue)
    ensures
        jview(r) == JsonView::Array(tool_list()),
{
    let mut out: Vec<JsonValue> = Vec::new();
    out.push(scan_tool());
    out.push(check_tool());
    out.push(replace_tool());
    out.push(rename_tool());
    out.push(imports_tool());
    out.push(paths_tool());
    out.push(references_tool());
    out.push(unused_tool());
    out.push(duplicates_tool());
    out.push(normalize_tool());
    out.push(migrate_tool());
    out.push(clean_tool());
    proof {
        crate::languages::json::lemma_items_view(out@, 0);
        assert(crate::languages::json::items_view(out@, 0) =~= tool_list());
    }
    JsonValue::Array(out)
}

/// The repository a tool call works on: its `root` argument, joined to the
/// working directory when relative; else the server's own root.
pub open spec fn spec_resolve_root(arguments: JsonValue, default_root: Seq<char>, current_dir: Seq<char>) -> Seq<char> {
    match jstr(jget(arguments, "root"@)) {
        Some(r) => spec_join(current_dir, r),
        None => default_root,
    }
}

/// The repository a tool call works on.
pub fn resolve_root(arguments: &JsonValue, default_root: &str, current_dir: &str) -> (r: String)
    ensures
        r@ == spec_resolve_root(*arguments, default_root@, current_dir@),
{
    match get_str(arguments, "root") {
        Some(root) => string_from(&join_path(&chars_of(current_dir), &chars_of(root.as_str()))),
        None => string_from(&chars_of(default_root)),
    }
}

/// A tool call's overrides of the configuration: `extensions` replaces the
/// scanned extensions, `exclude` adds to the skipped directories and
/// `include` replaces the paths that files must lie under; strings only,
/// other items of the arrays ignored.
pub fn prepare_config(config: &mut Config, arguments: &JsonValue)
    ensures
        strings_view(final(config).scan.extensions@) == match jstrings(jget(*arguments, "extensions"@)) {
            Some(e) => e,
            None => strings_view(old(config).scan.extensions@),
        },
        strings_view(final(config).scan.exclude@) == match jstrings(jget(*arguments, "exclude"@)) {
            Some(x) => strings_view(old(config).scan.exclude@) + x,
            None => strings_view(old(config).scan.exclude@),
        },
        strings_view(final(config).scan.include_paths@) == match jstrings(jget(*arguments, "include"@)) {
            Some(i) => i,
            None => strings_view(old(config).scan.include_paths@),
        },
        final(config).output == old(config).output,
        final(config).typescript == old(config).typescript,
{
    let extensions = string_array(arguments, "extensions");
    let exclude = string_array(arguments, "exclude");
    let only = string_array(arguments, "include");
    override_scan(config, &extensions, &exclude, &only);
}

/// The plan file of a `migrate` call: its `plan` argument, joined to the
/// repository root when relative.
pub fn migrate_plan_path(root: &str, plan: &str) -> (r: String)
    ensures
        r@ == spec_join(root@, plan@),
{
    string_from(&join_path(&chars_of(root), &chars_of(plan)))
}

} // verus!
