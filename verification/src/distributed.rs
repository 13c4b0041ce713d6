use vstd::prelude::*;

verus! {

/// A request to a remote compiler worker for a dependency compiled for the
/// given target.
#[derive(Debug, Clone)]
pub struct DependencyRequest {
    pub name: String,
    pub version: String,
    pub features: Vec<String>,
    pub target_triple: String,
    pub cpu_features: Option<String>,
    pub cpu_name: Option<String>,
    pub flags_passed_in: String,
}

} // verus!
