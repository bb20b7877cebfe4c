//! Refactorings: text replacement, renames with reference updates, import
//! and path migrations, and migration plans.
pub mod matching;
pub mod rename;
pub mod import_migration;
pub mod path_migration;
pub mod replacement;
pub mod result;
pub mod planner;
