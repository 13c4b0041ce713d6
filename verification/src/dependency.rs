use vstd::prelude::*;

verus! {

/// A dependency as a project's configuration names it.
#[derive(Debug, Clone, PartialEq, Eq, Hash)]
pub struct DependencyInfo {
    pub version: String,
    pub features: Vec<String>,
    /// The remote compiler worker that can compile the dependency.
    pub remote: Option<String>,
}

/// Whether no two entries of a list of dependencies share a name: a
/// project's dependencies are keyed by name.
pub open spec fn dependency_names_distinct(list: Seq<(String, DependencyInfo)>) -> bool {
    forall|i: int, j: int| 0 <= i < j < list.len() ==> (#[trigger] list[i]).0@ != (#[trigger] list[j]).0@
}

/// A request to fetch a dependency's sources from a dependency manager.
/// It names no features, as all the source files are fetched.
#[derive(Debug, Clone, PartialEq, Eq, Hash)]
pub struct DependencyRequest {
    pub name: String,
    pub version: String,
}

/// A remote compiler worker, named by the user.
#[derive(Debug, Clone)]
pub struct DistributedCompilerWorker {
    /// The name the user gave the worker.
    pub name: String,
    /// The address to connect to.
    pub address: String,
}

impl Default for DistributedCompilerWorker {
    fn default() -> (r: Self)
        ensures
            r.name@ == Seq::<char>::empty(),
            r.address@ == Seq::<char>::empty(),
    {
        DistributedCompilerWorker { name: String::new(), address: String::new() }
    }
}

} // verus!
