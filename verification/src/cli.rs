use vstd::prelude::*;

verus! {

/// The commands of the compiler's command line.
#[derive(Debug, Clone, PartialEq, Eq)]
pub enum CliCommand {
    /// Displays the compiler's version number.
    Version,
    /// Links an executable from a `.manifest` file.
    Link { path: String },
    /// Publishes a dependency to a dependency manager.
    Publish {
        /// The address of the dependency manager.
        url: String,
        /// The name the dependency is published under.
        author: String,
        /// The secret needed to update the dependency.
        secret: Option<String>,
        /// The project to publish.
        path: Option<String>,
    },
    /// Compiles a project without running it.
    Compile {
        /// The project's root; the current directory by default.
        path: Option<String>,
        /// Whether to optimize the output.
        release: bool,
        /// The target triple.
        target_triple: Option<String>,
        /// Extra flags for LLVM.
        llvm_flags: String,
        /// The target CPU's name.
        cpu_name: Option<String>,
        /// The target CPU's features.
        cpu_features: Option<String>,
    },
    /// Compiles a project and runs it.
    Run {
        path: Option<String>,
        release: bool,
        target_triple: Option<String>,
        llvm_flags: String,
        cpu_name: Option<String>,
        cpu_features: Option<String>,
    },
    /// Initializes a project in a folder.
    Init { path: String },
    /// Creates a folder with a new project inside it.
    New { path: String },
}

/// The compiler's command line.
#[derive(Debug, Clone)]
pub struct CompilerArgs {
    pub command: CliCommand,
}

} // verus!
