//! Dynamic tree-sitter grammar loading: the decision logic that picks a
//! grammar out of the `package.json` configurations of grammar packages,
//! modeline parsing of query files, highlighting configuration, and the
//! terminal rendering rules of the highlighter front end.

pub mod dl;
pub mod grammar;
pub mod highlight;
pub mod modeline;
pub mod paths;
pub mod render;
pub mod text;

pub use dl::DlError;
pub use modeline::Modeline;
pub use paths::find_in_path;
