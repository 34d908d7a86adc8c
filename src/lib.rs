//! Indexes a directory ("vault") of markdown files into an in-memory
//! document tree, keyed by each document's identifier.

pub mod error;
pub mod ident;
pub mod legacy;
pub mod parser;
pub mod tree;
pub mod vault;

pub use crate::error::DataStoreError;
pub use crate::parser::cb::CheckboxData;
pub use crate::parser::file::FileData;
pub use crate::parser::fm::FileFrontMatter;
pub use crate::parser::h::HeadingData;
pub use crate::parser::{MdKind, MdNode, Parser};
pub use crate::vault::{Skip, SkippedFile, SourceFile, Vault};
