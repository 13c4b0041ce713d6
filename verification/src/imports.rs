use vstd::prelude::*;

verus! {

/// A library a project imports.
#[derive(Debug, Clone)]
pub struct LibraryImport {
    pub name: String,
    pub version: String,
}

/// What an import names. Imports are stored under their (possibly aliased)
/// name, which need not be the name of what they import.
#[derive(Debug, Clone)]
pub enum ImportType {
    /// A file of the host machine, by its path.
    Path(String),
    /// An item (such as a function or a struct) of a dependency or of a
    /// source file imported before, by its module path.
    Dependency(Vec<String>),
}

} // verus!
