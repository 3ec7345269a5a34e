//! Mapping engine for mirroring an input directory tree into a tree of
//! symbolic links whose names are rewritten by per-directory regex rules.
//!
//! Each input directory has a mapping: a filter on file extensions, a renamer
//! for the directory name and a renamer for file names.  From a mapping and a
//! snapshot of the directory's files the engine derives what becomes of each
//! file, and from an old and a new mapping it derives the steps that bring
//! the output tree up to date.  The engine touches neither the file system
//! nor the store: it is handed what was read, and it hands back what is to be
//! done.
//!
//! - [`utils`] and [`text`]: paths and strings.
//! - [`pattern`] and [`renamer`]: the regex engine and the renaming rule.
//! - [`listing`]: the snapshot of a directory.
//! - [`app_state`]: mappings, the list of directories, commits, the editor.
//! - [`input_form`], [`widgets`], [`stdlib_utils`]: small parts for a front
//!   end.

pub mod app_state;
pub mod input_form;
pub mod listing;
pub mod pattern;
pub mod renamer;
pub mod stdlib_utils;
pub mod text;
pub mod utils;
pub mod widgets;
