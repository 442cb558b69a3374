//! Translation of English package-management verbs into the short flags of
//! the underlying tool.
//!
//! A [`translate::CommandTranslator`] owns the fixed table of commands and
//! rewrites the first token of an argument list when it names one of them;
//! every other argument list passes through untouched.

pub mod laws;
pub mod table;
pub mod text;
pub mod translate;
