use vstd::prelude::*;

verus! {

/// What linking a project needs.
#[derive(Debug, Clone)]
pub struct BuildManifest {
    /// The build artifacts to link.
    pub build_arctifact_paths: Vec<String>,
    /// Further files to link in.
    pub additional_linking_material: Vec<String>,
    /// Where the linked binary is written.
    pub build_path: String,
    /// What kind of binary to link.
    pub build_type: BuildType,
}

/// The kinds of binaries.
#[derive(Debug, Clone, Copy, PartialEq, Eq, Hash, Structural)]
pub enum BuildType {
    /// An executable.
    Executable,
    /// A library.
    Library,
}

} // verus!
