//! Parser for line-oriented addon table-of-contents manifests: `## Key: Value`
//! tag lines, `#` comments, and file paths listed in load order.
//!
//! Keys and values of tags are trimmed of whitespace at both ends, and so are
//! file paths; a later tag replaces an earlier one with the same key.
pub mod laws;
pub mod line;
pub mod text;
pub mod toc;

pub use toc::Toc;
