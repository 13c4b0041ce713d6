use vstd::prelude::*;

verus! {

/// A request to replace the sources of a published dependency.
#[derive(Debug, Clone)]
pub struct DependencyUpdateRequest {
    pub dependency_name: String,
    /// The secret given when the dependency was published.
    pub secret: String,
    pub updated_source: Vec<u8>,
}

/// The dependency manager's answer to a publication.
#[derive(Debug, Clone)]
pub struct DependencyUploadReply {
    /// Updates can only be uploaded with this secret.
    pub secret_to_dep: String,
}

/// A dependency to publish.
#[derive(Debug, Clone)]
pub struct DependencyUpload {
    pub dependency_name: String,
    pub dependency_version: String,
    pub author: String,
    /// The source files, as a compressed ZIP archive.
    pub source_files: Vec<u8>,
}

impl DependencyUpload {
    pub fn new(
        dependency_name: String,
        dependency_version: String,
        author: String,
        source_files: Vec<u8>,
    ) -> (r: Self)
        ensures
            r.dependency_name == dependency_name,
            r.dependency_version == dependency_version,
            r.author == author,
            r.source_files == source_files,
    {
        DependencyUpload { dependency_name, dependency_version, author, source_files }
    }
}

/// The errors of the dependency manager.
#[derive(Debug, Clone, PartialEq, Eq)]
pub enum DependencyManagerError {
    DependencyAlreadyExists,
    DecompressionError,
    CompressionError,
    /// A file could not be created at the given path.
    FailedToCreateFile(String),
    /// A file could not be written at the given path.
    FailedToWriteToFile(String),
    BadRequest,
    GenericDatabaseError,
    InvalidZipArchiveFilePath,
    InvalidZipArchive,
    DependencyNotFound,
    InvalidFileError,
}

} // verus!
