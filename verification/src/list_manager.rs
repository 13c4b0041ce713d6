use vstd::prelude::*;
use vstd::string::StringExecFns;
use crate::config::ProjectConfig;
use crate::dependency::{dependency_names_distinct, DependencyInfo};
use crate::requester::DependencyError;

verus! {

/// A copy of a list of strings.
fn clone_strings(v: &Vec<String>) -> (r: Vec<String>)
    ensures
        r@ == v@,
{
    let mut out: Vec<String> = Vec::new();
    let mut i: usize = 0;
    while i < v.len()
        invariant
            0 <= i <= v@.len(),
            out@ == v@.take(i as int),
        decreases v@.len() - i,
    {
        out.push(v[i].clone());
        proof {
            assert(v@.take(i + 1) =~= v@.take(i as int).push(v@[i as int]));
        }
        i = i + 1;
    }
    proof {
        assert(v@.take(v@.len() as int) =~= v@);
    }
    out
}

/// Whether `s` is among `list`, by contents.
pub open spec fn has_string(list: Seq<String>, s: Seq<char>) -> bool {
    exists|i: int| 0 <= i < list.len() && (#[trigger] list[i])@ == s
}

fn contains_string(list: &Vec<String>, s: &String) -> (r: bool)
    ensures
        r == has_string(list@, s@),
{
    let mut i: usize = 0;
    while i < list.len()
        invariant
            0 <= i <= list@.len(),
            forall|k: int| 0 <= k < i ==> (#[trigger] list@[k])@ != s@,
        decreases list@.len() - i,
    {
        if list[i] == *s {
            return true;
        }
        i = i + 1;
    }
    false
}

/// Whether every feature asked for is offered.
pub open spec fn features_offered(enabled: Seq<String>, available: Seq<String>) -> bool {
    forall|i: int| 0 <= i < enabled.len() ==> has_string(available, (#[trigger] enabled[i])@)
}

/// Checks a dependency found in the dependencies folder against what the
/// project asked for: the versions must be the same, the dependency must be a
/// library, and, where it lists the features it offers, every feature asked
/// for must be one of them. The checks are made in that order.
pub fn check_found_dependency(requested: &DependencyInfo, found: &ProjectConfig) -> (r: Result<(), DependencyError>)
    ensures
        r is Ok <==> (requested.version@ == found.version@ && found.is_library && (found.features is Some
            ==> features_offered(requested.features@, found.features->0@))),
        requested.version@ != found.version@ ==> (r matches Err(DependencyError::MismatchedVersion(n, want, got))
            && n@ == found.name@ && want@ == requested.version@ && got@ == found.version@),
        requested.version@ == found.version@ && !found.is_library ==> (r matches Err(
            DependencyError::InvalidDependencyType(n),
        ) && n@ == found.name@),
        requested.version@ == found.version@ && found.is_library && found.features is Some
            && !features_offered(requested.features@, found.features->0@) ==> (r matches Err(
            DependencyError::InvalidDependencyFeature(n, offered, asked),
        ) && n@ == found.name@ && offered@ == found.features->0@ && asked@ == requested.features@),
{
    if requested.version != found.version {
        return Err(
            DependencyError::MismatchedVersion(found.name.clone(), requested.version.clone(), found.version.clone()),
        );
    }
    if !found.is_library {
        return Err(DependencyError::InvalidDependencyType(found.name.clone()));
    }
    if let Some(available) = &found.features {
        let mut i: usize = 0;
        while i < requested.features.len()
            invariant
                0 <= i <= requested.features@.len(),
                requested.version@ == found.version@,
                found.is_library,
                found.features == Some(*available),
                forall|k: int| 0 <= k < i ==> has_string(available@, (#[trigger] requested.features@[k])@),
            decreases requested.features@.len() - i,
        {
            if !contains_string(available, &requested.features[i]) {
                assert(!features_offered(requested.features@, available@));
                return Err(
                    DependencyError::InvalidDependencyFeature(
                        found.name.clone(),
                        clone_strings(available),
                        clone_strings(&requested.features),
                    ),
                );
            }
            i = i + 1;
        }
    }
    Ok(())
}

/// Removes the dependency with the given name from the list of those still
/// to be found, and gives back what the project asked of it.
pub fn take_dependency(list: &mut Vec<(String, DependencyInfo)>, name: &String) -> (r: Option<DependencyInfo>)
    requires
        dependency_names_distinct(old(list)@),
    ensures
        dependency_names_distinct(final(list)@),
        match r {
            Some(info) => exists|i: int|
                0 <= i < old(list)@.len() && (#[trigger] old(list)@[i]).0@ == name@ && old(list)@[i].1 == info
                    && (forall|j: int| 0 <= j < i ==> (#[trigger] old(list)@[j]).0@ != name@)
                    && final(list)@ == old(list)@.remove(i),
            None => (forall|i: int| 0 <= i < old(list)@.len() ==> (#[trigger] old(list)@[i]).0@ != name@)
                && final(list)@ == old(list)@,
        },
{
    let mut i: usize = 0;
    while i < list.len()
        invariant
            0 <= i <= list@.len(),
            list@ == old(list)@,
            dependency_names_distinct(list@),
            forall|k: int| 0 <= k < i ==> (#[trigger] list@[k]).0@ != name@,
        decreases list@.len() - i,
    {
        if list[i].0 == *name {
            let ghost before = list@;
            let (_n, info) = list.remove(i);
            proof {
                assert forall|a: int, b: int| 0 <= a < b < list@.len() implies (#[trigger] list@[a]).0@
                    != (#[trigger] list@[b]).0@ by {
                    let a0 = if a < i { a } else { a + 1 };
                    let b0 = if b < i { b } else { b + 1 };
                    assert(list@[a] == before[a0] && list@[b] == before[b0]);
                    assert(before[a0].0@ != before[b0].0@);
                }
            }
            return Some(info);
        }
        i = i + 1;
    }
    None
}

/// Fails with the dependencies still to be found, if there are any.
pub fn ensure_all_found(remaining: Vec<(String, DependencyInfo)>) -> (r: Result<(), DependencyError>)
    ensures
        remaining@.len() == 0 ==> r is Ok,
        remaining@.len() > 0 ==> r == Err::<(), DependencyError>(DependencyError::MissingDependencies(remaining)),
{
    if remaining.len() == 0 {
        Ok(())
    } else {
        Err(DependencyError::MissingDependencies(remaining))
    }
}

/// The name of a project's configuration file.
pub open spec fn config_file_name() -> Seq<char> {
    seq!['c', 'o', 'n', 'f', 'i', 'g', '.', 't', 'o', 'm', 'l']
}

/// The position of the project's `config.toml` among the names of the
/// entries of a dependency folder (the first such entry); a folder without
/// one is an error naming the folder.
pub fn find_config_file(dependency_path: &String, entry_names: &Vec<String>) -> (r: Result<usize, DependencyError>)
    ensures
        match r {
            Ok(i) => i < entry_names@.len() && entry_names@[i as int]@ == config_file_name() && forall|j: int|
                0 <= j < i ==> (#[trigger] entry_names@[j])@ != config_file_name(),
            Err(e) => (e matches DependencyError::DependencyMissingConfig(p) && p@ == dependency_path@) && forall|j: int|
                0 <= j < entry_names@.len() ==> (#[trigger] entry_names@[j])@ != config_file_name(),
        },
{
    let config = String::from_str("config.toml");
    proof {
        reveal_strlit("config.toml");
        assert(config@ =~= config_file_name());
    }
    let mut i: usize = 0;
    while i < entry_names.len()
        invariant
            0 <= i <= entry_names@.len(),
            config@ == config_file_name(),
            forall|j: int| 0 <= j < i ==> (#[trigger] entry_names@[j])@ != config_file_name(),
        decreases entry_names@.len() - i,
    {
        if entry_names[i] == config {
            return Ok(i);
        }
        i = i + 1;
    }
    Err(DependencyError::DependencyMissingConfig(dependency_path.clone()))
}

} // verus!
