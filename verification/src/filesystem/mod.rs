//! Decisions about the files of a repository: which are binary, how their
//! bytes become text and back, and which walked paths are kept.
pub mod reader;
pub mod walker;
