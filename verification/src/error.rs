//! The error type and the process exit code of each error.
use vstd::prelude::*;

verus! {

#[verifier::external_type_specification]
#[verifier::external_body]
pub struct ExIoError(std::io::Error);

#[verifier::external_type_specification]
#[verifier::external_body]
pub struct ExJsonError(serde_json::Error);

#[verifier::external_type_specification]
#[verifier::external_body]
pub struct ExTomlError(toml::de::Error);

#[verifier::external_type_specification]
#[verifier::external_body]
pub struct ExRegexError(regex::Error);

/// Why a command failed.
#[derive(Debug)]
pub enum RefactorError {
    Filesystem(std::io::Error),
    Config(String),
    Parse { file: String, reason: String },
    Validation(String),
    Conflict(String),
    PathSafety(String),
    MigrationPlan(String),
    Json(serde_json::Error),
    Toml(toml::de::Error),
    Regex(regex::Error),
}

/// The exit code of an error: 1 for findings and validation, 2 for usage and
/// path safety, 3 for configuration and plans, 4 for the filesystem, 5 for
/// conflicts.
pub open spec fn spec_exit_code(e: RefactorError) -> i32 {
    match e {
        RefactorError::Filesystem(_) => 4,
        RefactorError::Config(_) => 3,
        RefactorError::Parse { .. } => 1,
        RefactorError::Validation(_) => 1,
        RefactorError::Conflict(_) => 5,
        RefactorError::PathSafety(_) => 2,
        RefactorError::MigrationPlan(_) => 3,
        RefactorError::Json(_) => 3,
        RefactorError::Toml(_) => 3,
        RefactorError::Regex(_) => 2,
    }
}

impl RefactorError {
    /// The process exit code for this error.
    pub fn exit_code(&self) -> (r: i32)
        ensures
            r == spec_exit_code(*self),
    {
        match self {
            RefactorError::Filesystem(_) => 4,
            RefactorError::Config(_) => 3,
            RefactorError::Parse { .. } => 1,
            RefactorError::Validation(_) => 1,
            RefactorError::Conflict(_) => 5,
            RefactorError::PathSafety(_) => 2,
            RefactorError::MigrationPlan(_) => 3,
            RefactorError::Json(_) => 3,
            RefactorError::Toml(_) => 3,
            RefactorError::Regex(_) => 2,
        }
    }
}

/// `Display` of `std::io::Error`: its text.  Nothing is stated of the text,
/// which may come from the operating system.
#[verifier::external_body]
fn io_error_text(e: &std::io::Error) -> (r: String) {
    format!("{e}")
}

/// `Display` of `serde_json::Error`: its text.  Nothing is stated of it.
#[verifier::external_body]
fn json_error_text(e: &serde_json::Error) -> (r: String) {
    format!("{e}")
}

/// `Display` of `toml::de::Error`: its text.  Nothing is stated of it.
#[verifier::external_body]
fn toml_error_text(e: &toml::de::Error) -> (r: String) {
    format!("{e}")
}

/// `Display` of `regex::Error`: its text.  Nothing is stated of it.
#[verifier::external_body]
fn regex_error_text(e: &regex::Error) -> (r: String) {
    format!("{e}")
}

/// `s` begins with `p`.
pub open spec fn begins_with(s: Seq<char>, p: Seq<char>) -> bool {
    s.len() >= p.len() && s.subrange(0, p.len() as int) == p
}

/// `prefix` followed by `detail`.
fn prefixed(prefix: &str, detail: &str) -> (r: String)
    ensures
        r@ == prefix@ + detail@,
        begins_with(r@, prefix@),
{
    let r = crate::text::concat(prefix, detail);
    proof {
        assert((prefix@ + detail@).subrange(0, prefix@.len() as int) =~= prefix@);
    }
    r
}

/// The text shown for an error of the library's own: its kind, then its
/// message.
pub open spec fn spec_error_message(e: RefactorError) -> Seq<char> {
    match e {
        RefactorError::Config(m) => "Configuration error: "@ + m@,
        RefactorError::Parse { file, reason } => "Parse error in "@ + file@ + ": "@ + reason@,
        RefactorError::Validation(m) => "Validation error: "@ + m@,
        RefactorError::Conflict(m) => "Conflict: "@ + m@,
        RefactorError::PathSafety(m) => "Path safety violation: "@ + m@,
        RefactorError::MigrationPlan(m) => "Migration plan error: "@ + m@,
        _ => Seq::empty(),
    }
}

/// The heading of the text shown for an error that wraps an outside error.
pub open spec fn spec_error_heading(e: RefactorError) -> Seq<char> {
    match e {
        RefactorError::Filesystem(_) => "Filesystem error: "@,
        RefactorError::Json(_) => "JSON serialization error: "@,
        RefactorError::Toml(_) => "TOML parsing error: "@,
        RefactorError::Regex(_) => "Regex error: "@,
        _ => Seq::empty(),
    }
}

/// An error wraps an error of an outside crate or of `std`.
pub open spec fn wraps_outside(e: RefactorError) -> bool {
    e is Filesystem || e is Json || e is Toml || e is Regex
}

impl RefactorError {
    /// The text shown for this error: its kind and its message; for an
    /// outside error, its kind followed by that error's own text.
    pub fn message(&self) -> (r: String)
        ensures
            !wraps_outside(*self) ==> r@ == spec_error_message(*self),
            wraps_outside(*self) ==> begins_with(r@, spec_error_heading(*self)),
    {
        match self {
            RefactorError::Filesystem(e) => prefixed("Filesystem error: ", io_error_text(e).as_str()),
            RefactorError::Config(m) => prefixed("Configuration error: ", m.as_str()),
            RefactorError::Parse { file, reason } => {
                let head = prefixed("Parse error in ", file.as_str());
                let mid = prefixed(head.as_str(), ": ");
                prefixed(mid.as_str(), reason.as_str())
            },
            RefactorError::Validation(m) => prefixed("Validation error: ", m.as_str()),
            RefactorError::Conflict(m) => prefixed("Conflict: ", m.as_str()),
            RefactorError::PathSafety(m) => prefixed("Path safety violation: ", m.as_str()),
            RefactorError::MigrationPlan(m) => prefixed("Migration plan error: ", m.as_str()),
            RefactorError::Json(e) => prefixed("JSON serialization error: ", json_error_text(e).as_str()),
            RefactorError::Toml(e) => prefixed("TOML parsing error: ", toml_error_text(e).as_str()),
            RefactorError::Regex(e) => prefixed("Regex error: ", regex_error_text(e).as_str()),
        }
    }
}

} // verus!
