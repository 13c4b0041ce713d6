use vstd::prelude::*;
use vstd::string::StringExecFns;
use crate::dependency::{DependencyInfo, DistributedCompilerWorker};

verus! {

/// A project's `config.toml`.
#[derive(Debug, Clone)]
pub struct ProjectConfig {
    /// The name of the project.
    pub name: String,
    /// Whether the project is a library.
    pub is_library: bool,
    /// The features a library offers.
    pub features: Option<Vec<String>>,
    /// The remote compiler workers the project may use.
    pub remote_compiler_workers: Option<Vec<DistributedCompilerWorker>>,
    /// The version of the project.
    pub version: String,
    /// The directory where the compiler puts what it emits.
    pub build_path: String,
    /// Extra files linked in when the project is linked.
    pub additional_linking_material: Vec<String>,
    /// The project's dependencies, by name; each must be present in the
    /// project's dependencies folder.
    pub dependencies: Vec<(String, DependencyInfo)>,
    /// The project's root directory; not part of the file, set by the code.
    pub root_path: String,
}

/// Whether the configuration holds the defaults: named `project`, version
/// `0.0.1`, built into `out`, not a library, and with no features, remote
/// workers, extra linking material or dependencies.
pub open spec fn has_defaults_except_name_and_root(c: ProjectConfig) -> bool {
    &&& !c.is_library
    &&& c.features is None
    &&& c.remote_compiler_workers is None
    &&& c.version@ == seq!['0', '.', '0', '.', '1']
    &&& c.build_path@ == seq!['o', 'u', 't']
    &&& c.additional_linking_material@.len() == 0
    &&& c.dependencies@.len() == 0
}

impl Default for ProjectConfig {
    fn default() -> (r: Self)
        ensures
            r.name@ == seq!['p', 'r', 'o', 'j', 'e', 'c', 't'],
            has_defaults_except_name_and_root(r),
            r.root_path@ == Seq::<char>::empty(),
    {
        let name = String::from_str("project");
        let version = String::from_str("0.0.1");
        let build_path = String::from_str("out");
        proof {
            reveal_strlit("project");
            reveal_strlit("0.0.1");
            reveal_strlit("out");
            assert(version@ =~= seq!['0', '.', '0', '.', '1']);
            assert(build_path@ =~= seq!['o', 'u', 't']);
            assert(name@ =~= seq!['p', 'r', 'o', 'j', 'e', 'c', 't']);
        }
        ProjectConfig {
            name,
            is_library: false,
            features: None,
            remote_compiler_workers: None,
            version,
            build_path,
            additional_linking_material: Vec::new(),
            dependencies: Vec::new(),
            root_path: String::new(),
        }
    }
}

impl ProjectConfig {
    /// The default configuration of a project with the given name and root.
    pub fn new(name: String, root_path: String) -> (r: Self)
        ensures
            r.name == name,
            r.root_path == root_path,
            has_defaults_except_name_and_root(r),
    {
        let d = ProjectConfig::default();
        ProjectConfig { name, root_path, ..d }
    }
}

/// What is known of the machine the compiler runs on.
#[derive(Debug, Clone)]
pub struct HostInformation {
    pub cpu_features: Option<String>,
    pub cpu_name: Option<String>,
    pub flags_passed_in: Option<String>,
    pub target_triple: String,
}

impl HostInformation {
    pub fn new(
        cpu_features: Option<String>,
        cpu_name: Option<String>,
        flags_passed_in: Option<String>,
        target_triple: String,
    ) -> (r: Self)
        ensures
            r.cpu_features == cpu_features,
            r.cpu_name == cpu_name,
            r.flags_passed_in == flags_passed_in,
            r.target_triple == target_triple,
    {
        HostInformation { cpu_features, cpu_name, flags_passed_in, target_triple }
    }
}

} // verus!
