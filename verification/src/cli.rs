//! The command line, as plain values: global options and one value per
//! command and sub-command.
use vstd::prelude::*;

verus! {

/// A parsed command line.
pub struct Cli {
    pub command: Command,
    pub global: GlobalArgs,
}

/// Options that apply to every command.
pub struct GlobalArgs {
    pub root: String,
    pub verbose: bool,
    pub quiet: bool,
    pub json: bool,
    pub no_color: bool,
    pub dry_run: bool,
    pub yes: bool,
    pub include_paths: Option<Vec<String>>,
    pub exclude: Option<Vec<String>>,
    pub extensions: Option<Vec<String>>,
    pub threads: Option<usize>,
}

/// The command to run.
pub enum Command {
    Scan(ScanArgs),
    Check(CheckArgs),
    Replace(ReplaceArgs),
    Rename(RenameArgs),
    Imports(ImportsCommand),
    Paths(PathsCommand),
    References(ReferencesArgs),
    Unused(UnusedArgs),
    Duplicates(DuplicatesArgs),
    Normalize(NormalizeArgs),
    Migrate(MigrateArgs),
    Clean(CleanArgs),
    Update,
    Mcp(McpArgs),
}

/// `scan`.
pub struct ScanArgs {
    pub filters: FilterArgs,
}

/// `check`.
pub struct CheckArgs {
    pub strict: bool,
}

/// `replace OLD NEW`.
pub struct ReplaceArgs {
    pub old: String,
    pub new: String,
    pub filters: FilterArgs,
    pub regex: bool,
    pub case_sensitive: bool,
    pub whole_word: bool,
    pub allow_dirty: bool,
}

/// `rename OLD NEW`.
pub struct RenameArgs {
    pub old: String,
    pub new: String,
}

/// `imports ACTION`.
pub struct ImportsCommand {
    pub action: ImportsAction,
}

/// The sub-commands of `imports`.
pub enum ImportsAction {
    Scan(ScanArgs),
    Check(CheckArgs),
    Migrate(ImportMigrateArgs),
    Normalize(NormalizeArgs),
    Unused(UnusedArgs),
}

/// `imports migrate OLD NEW` and `paths migrate OLD NEW`.
pub struct ImportMigrateArgs {
    pub old: String,
    pub new: String,
}

/// `paths ACTION`.
pub struct PathsCommand {
    pub action: PathsAction,
}

/// The sub-commands of `paths`.
pub enum PathsAction {
    Scan(ScanArgs),
    Check(CheckArgs),
    Migrate(ImportMigrateArgs),
    Normalize(NormalizeArgs),
}

/// `references PATH`.
pub struct ReferencesArgs {
    pub path: String,
    pub filters: FilterArgs,
}

/// `unused`.
pub struct UnusedArgs {
    pub filters: FilterArgs,
}

/// `duplicates`.
pub struct DuplicatesArgs {
    pub min_size: Option<u64>,
    pub filters: FilterArgs,
}

/// `normalize`.
pub struct NormalizeArgs {
    pub filters: FilterArgs,
}

/// `migrate PLAN`.
pub struct MigrateArgs {
    pub plan: String,
}

/// `clean`.
pub struct CleanArgs {
    pub empty_dirs: bool,
    pub temp_files: bool,
    pub cache: bool,
}

/// `mcp`: serve the tools over the Model Context Protocol.
pub struct McpArgs {
    pub root: Option<String>,
}

/// Path filters of a command.
pub struct FilterArgs {
    pub include_paths: Option<Vec<String>>,
    pub exclude: Option<Vec<String>>,
    pub extensions: Option<Vec<String>>,
}

} // verus!
