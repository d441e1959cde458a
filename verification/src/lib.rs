//! Linting and formatting for Age of Empires 2 random map scripts.

pub mod casing;
pub mod decoding;
pub mod checker;
pub mod diagnostic;
pub mod fixes;
pub mod folds;
pub mod formatter;
pub mod format_laws;
pub mod highlight;
pub mod laws;
pub mod lints;
pub mod lsp;
pub mod nesting_laws;
pub mod parser;
pub mod parse_laws;
pub mod report;
pub mod rms_file;
pub mod run;
pub mod similarity;
pub mod state;
pub mod text;
pub mod tokens;
pub mod wordize;
pub mod zip_rms;

pub use crate::checker::{Checker, CheckerBuilder, Lint};
pub use crate::diagnostic::{ByteIndex, Diagnostic, FileId, Fix, Label, Severity, SourceLocation};
pub use crate::formatter::FormatOptions;
pub use crate::lints::actor_areas_match::ActorAreasMatchLint;
pub use crate::lints::arg_types::{is_numeric, is_valid_rnd, ArgTypesLint};
pub use crate::lints::attribute_case::AttributeCaseLint;
pub use crate::lints::comment_contents::CommentContentsLint;
pub use crate::lints::compatibility::CompatibilityLint;
pub use crate::lints::dead_branch_comment::DeadBranchCommentLint;
pub use crate::lints::include_lint::IncludeLint;
pub use crate::lints::incorrect_section::IncorrectSectionLint;
pub use crate::lints::unknown_attribute::UnknownAttributeLint;
pub use crate::parser::{Atom, AtomKind, ParseError, ParseErrorKind, Parser};
pub use crate::rms_file::{Definitions, FileData, RMSFile};
pub use crate::run::{RMSCheck, RMSCheckResult};
pub use crate::state::{Compatibility, Nesting, ParseState};
pub use crate::tokens::{ArgType, TokenContext, TokenType};
pub use crate::wordize::{split_words, Tokenizer, Word};
pub use crate::decoding::to_chardet_string;
pub use crate::zip_rms::{select_pack_files, PackError, ZipRmsError};
