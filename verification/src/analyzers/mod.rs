//! Whole-repository analyses: broken imports and references, unused files,
//! duplicate files, and path aliases.
pub mod references;
pub mod imports;
pub mod consistency;
pub mod duplicates;
pub mod tsconfig;
