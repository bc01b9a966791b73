//! Rank the functions of a source tree by how many lines they span.
//!
//! The verified core of the tool: the registry that maps file extensions to
//! languages, the extension filter, the extraction of function records from a
//! tree-sitter parse, the two line-count measures, and the ranking and table
//! layout of the results.

pub mod text;
pub mod filter;
pub mod sitter;
pub mod registry;
pub mod grammars;
pub mod language;
pub mod rows;
pub mod scan;
pub mod rank;
pub mod table;

pub use filter::ExtFilter;
pub use language::{for_extension, Lang, LangError};
pub use rank::rank;
pub use registry::{language_for, supports_extension, LangId};
pub use scan::{eligible, functions_in_file, functions_in_source, scan, text_in, CountMode, Function, SourceFile};
pub use table::{column_width, table_row};
