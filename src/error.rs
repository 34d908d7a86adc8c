use vstd::prelude::*;

verus! {

/// The ways opening or loading a vault can fail.
#[derive(Debug, Clone, PartialEq, Eq)]
pub enum DataStoreError {
    /// The base directory does not exist or cannot be accessed.
    VaultReadError { path: String, msg: String },
    /// The vault pattern could not be evaluated, or no document was loaded.
    EmptyVaultError { path: String },
    /// One file could not be read, tokenized or decoded.
    VaultParseError { fname: String, msg: String },
    /// The document tree could not be initialized.
    AstError,
    /// A file that was to be created already exists.
    FileExistsError { fname: String },
}

} // verus!
