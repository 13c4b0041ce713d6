use fog::config::ProjectConfig;
use fog::dependency::DependencyInfo;
use fog::errors::{ParserError, SyntaxError};
use fog::instructions::parse_compiler_instruction;
use indexmap::IndexSet;
use fog::lexer::tokenize;
use fog::list_manager::{check_found_dependency, ensure_all_found, find_config_file, take_dependency};
use fog::requester::{dependency_requester, plan_request, requests_outcome, request_dependency, send_outcome, DependencyError, DependencyMessage, RemoteHandler, RemoteHandlers};
use fog::stream::{Stream, Streamable};
use fog::token::CompilerInstruction;
use tokio::sync::mpsc::channel;

fn info(version: &str, features: &[&str], remote: Option<&str>) -> DependencyInfo {
    DependencyInfo {
        version: version.to_string(),
        features: features.iter().map(|s| s.to_string()).collect(),
        remote: remote.map(|s| s.to_string()),
    }
}

fn library(name: &str, version: &str, features: Option<&[&str]>) -> ProjectConfig {
    let mut c = ProjectConfig::new(name.to_string(), String::new());
    c.version = version.to_string();
    c.is_library = true;
    c.features = features.map(|f| f.iter().map(|s| s.to_string()).collect());
    c
}

#[test]
fn found_dependency_accepted() {
    let lib = library("math", "1.0", Some(&["fast", "exact"]));
    assert_eq!(check_found_dependency(&info("1.0", &["exact"], None), &lib), Ok(()));
    let open = library("math", "1.0", None);
    assert_eq!(check_found_dependency(&info("1.0", &["anything"], None), &open), Ok(()));
}

#[test]
fn found_dependency_version_checked_first() {
    let mut lib = library("math", "2.0", Some(&[]));
    lib.is_library = false;
    assert_eq!(
        check_found_dependency(&info("1.0", &["x"], None), &lib),
        Err(DependencyError::MismatchedVersion("math".to_string(), "1.0".to_string(), "2.0".to_string()))
    );
}

#[test]
fn found_dependency_must_be_library() {
    let mut lib = library("app", "1.0", None);
    lib.is_library = false;
    assert_eq!(
        check_found_dependency(&info("1.0", &[], None), &lib),
        Err(DependencyError::InvalidDependencyType("app".to_string()))
    );
}

#[test]
fn found_dependency_features_checked() {
    let lib = library("math", "1.0", Some(&["fast"]));
    assert_eq!(
        check_found_dependency(&info("1.0", &["fast", "slow"], None), &lib),
        Err(DependencyError::InvalidDependencyFeature(
            "math".to_string(),
            vec!["fast".to_string()],
            vec!["fast".to_string(), "slow".to_string()],
        ))
    );
}

#[test]
fn take_dependency_removes_the_named_entry() {
    let mut list = vec![
        ("a".to_string(), info("1", &[], None)),
        ("b".to_string(), info("2", &[], None)),
        ("c".to_string(), info("3", &[], None)),
    ];
    assert_eq!(take_dependency(&mut list, &"b".to_string()), Some(info("2", &[], None)));
    assert_eq!(list.len(), 2);
    assert_eq!(list[0].0, "a");
    assert_eq!(list[1].1.version, "3");
    assert_eq!(take_dependency(&mut list, &"z".to_string()), None);
    assert_eq!(list.len(), 2);
}

#[test]
fn all_found_or_missing() {
    assert_eq!(ensure_all_found(Vec::new()), Ok(()));
    let left = vec![("a".to_string(), info("1", &[], None))];
    assert_eq!(ensure_all_found(left.clone()), Err(DependencyError::MissingDependencies(left)));
}

fn handler(name: &str, capacity: usize) -> (RemoteHandler, tokio::sync::mpsc::Receiver<DependencyMessage>) {
    let (tx, rx) = channel(capacity);
    ((name.to_string(), ("127.0.0.1:1".to_string(), tx)), rx)
}

#[test]
fn request_goes_to_named_remote() {
    let (h, mut rx) = handler("worker", 4);
    let mut handlers = RemoteHandlers::new(vec![h]);
    let name = "math".to_string();
    let dep = info("1.0", &["fast"], Some("worker"));
    assert_eq!(request_dependency((&name, &dep), &mut handlers), Ok(()));
    let (got_name, got_info) = rx.try_recv().unwrap();
    assert_eq!(got_name, "math");
    assert_eq!(got_info, dep);
}

#[test]
fn request_without_remote_is_not_found() {
    let mut handlers = RemoteHandlers::new(Vec::new());
    let name = "math".to_string();
    assert_eq!(
        request_dependency((&name, &info("1.0", &[], None)), &mut handlers),
        Err(DependencyError::DependencyNotFound("math".to_string()))
    );
}

#[test]
fn request_to_unknown_remote() {
    let (h, _rx) = handler("worker", 1);
    let mut handlers = RemoteHandlers::new(vec![h]);
    let name = "math".to_string();
    assert_eq!(
        request_dependency((&name, &info("1.0", &[], Some("other"))), &mut handlers),
        Err(DependencyError::InvalidRemoteCompiler("other".to_string()))
    );
}

#[test]
fn request_to_full_or_closed_channel_fails() {
    let (h, rx) = handler("worker", 1);
    let mut handlers = RemoteHandlers::new(vec![h]);
    let name = "math".to_string();
    let dep = info("1.0", &[], Some("worker"));
    assert_eq!(request_dependency((&name, &dep), &mut handlers), Ok(()));
    assert_eq!(
        request_dependency((&name, &dep), &mut handlers),
        Err(DependencyError::FailedConnectingToRemote("worker".to_string()))
    );
    drop(rx);
    let (h2, rx2) = handler("w2", 1);
    drop(rx2);
    let mut handlers2 = RemoteHandlers::new(vec![h2]);
    assert_eq!(
        request_dependency((&name, &info("1.0", &[], Some("w2"))), &mut handlers2),
        Err(DependencyError::FailedConnectingToRemote("w2".to_string()))
    );
}

#[test]
fn send_outcome_maps_result() {
    assert_eq!(send_outcome(&"w".to_string(), true), Ok(()));
    assert_eq!(send_outcome(&"w".to_string(), false), Err(DependencyError::FailedConnectingToRemote("w".to_string())));
}

#[test]
fn requester_stops_at_first_failure() {
    let (h, mut rx) = handler("worker", 8);
    let mut handlers = RemoteHandlers::new(vec![h]);
    let deps = vec![
        ("a".to_string(), info("1", &[], Some("worker"))),
        ("b".to_string(), info("1", &[], None)),
        ("c".to_string(), info("1", &[], Some("worker"))),
    ];
    assert_eq!(dependency_requester(&deps, &mut handlers), Err(DependencyError::DependencyNotFound("b".to_string())));
    assert_eq!(rx.try_recv().unwrap().0, "a");
    assert!(rx.try_recv().is_err());
    let ok = vec![deps[0].clone(), deps[2].clone()];
    assert_eq!(dependency_requester(&ok, &mut handlers), Ok(()));
}

#[test]
fn compiler_instructions_are_collected() {
    let mut set: IndexSet<CompilerInstruction> = IndexSet::new();
    let mut tokens = Stream::new(tokenize("cold feature \"gpu\" cold inline").unwrap());
    assert_eq!(parse_compiler_instruction(&mut set, &mut tokens), Ok(()));
    assert_eq!(tokens.stream_idx(), 1);
    assert_eq!(parse_compiler_instruction(&mut set, &mut tokens), Ok(()));
    assert_eq!(tokens.stream_idx(), 3);
    assert_eq!(parse_compiler_instruction(&mut set, &mut tokens), Ok(()));
    assert_eq!(parse_compiler_instruction(&mut set, &mut tokens), Ok(()));
    let items: Vec<CompilerInstruction> = set.iter().cloned().collect();
    assert_eq!(
        items,
        vec![CompilerInstruction::Cold, CompilerInstruction::Feature("gpu".to_string()), CompilerInstruction::Inline]
    );
    assert_eq!(
        parse_compiler_instruction(&mut set, &mut tokens),
        Err(ParserError::SyntaxError(SyntaxError::CompilerInstructionRequiredAfterSymbol))
    );
}

#[test]
fn compiler_instruction_errors() {
    let mut set: IndexSet<CompilerInstruction> = IndexSet::new();
    let mut tokens = Stream::new(tokenize("feature 12 x").unwrap());
    assert_eq!(parse_compiler_instruction(&mut set, &mut tokens), Err(ParserError::InvalidFunctionFeature(None)));
    assert_eq!(tokens.stream_idx(), 2);
    assert_eq!(
        parse_compiler_instruction(&mut set, &mut tokens),
        Err(ParserError::SyntaxError(SyntaxError::CompilerInstructionRequiredAfterSymbol))
    );
    assert_eq!(tokens.stream_idx(), 3);
    assert!(set.is_empty());
}

#[test]
fn plan_picks_the_named_handler() {
    let (h1, _r1) = handler("first", 1);
    let (h2, _r2) = handler("second", 1);
    let handlers = vec![h1, h2];
    let name = "math".to_string();
    let dep = info("1.0", &["fast"], Some("second"));
    let (i, (n, d)) = plan_request((&name, &dep), &handlers).unwrap();
    assert_eq!(i, 1);
    assert_eq!(n, "math");
    assert_eq!(d, dep);
    assert_eq!(
        plan_request((&name, &info("1.0", &[], Some("third"))), &handlers).err(),
        Some(DependencyError::InvalidRemoteCompiler("third".to_string()))
    );
    assert_eq!(
        plan_request((&name, &info("1.0", &[], None)), &handlers).err(),
        Some(DependencyError::DependencyNotFound("math".to_string()))
    );
}

#[test]
fn request_goes_to_second_handler_only() {
    let (h1, mut r1) = handler("first", 4);
    let (h2, mut r2) = handler("second", 4);
    let mut handlers = RemoteHandlers::new(vec![h1, h2]);
    let name = "math".to_string();
    let dep = info("1.0", &[], Some("second"));
    assert_eq!(request_dependency((&name, &dep), &mut handlers), Ok(()));
    assert!(r1.try_recv().is_err());
    assert_eq!(r2.try_recv().unwrap(), ("math".to_string(), dep));
}

#[test]
fn config_file_is_found_in_folder() {
    let names: Vec<String> = vec!["src".to_string(), "config.toml".to_string(), "deps".to_string()];
    assert_eq!(find_config_file(&"deps/math".to_string(), &names), Ok(1));
    let none: Vec<String> = vec!["src".to_string(), "config.tom".to_string()];
    assert_eq!(
        find_config_file(&"deps/math".to_string(), &none),
        Err(DependencyError::DependencyMissingConfig("deps/math".to_string()))
    );
}

#[test]
fn requests_outcome_reports_first_failure() {
    let (h, _rx) = handler("worker", 1);
    let handlers = vec![h];
    let deps = vec![
        ("a".to_string(), info("1", &[], Some("worker"))),
        ("b".to_string(), info("1", &[], Some("worker"))),
        ("c".to_string(), info("1", &[], None)),
    ];
    assert_eq!(
        requests_outcome(&deps, &handlers, &vec![true, false, false]),
        Err(DependencyError::FailedConnectingToRemote("worker".to_string()))
    );
    assert_eq!(
        requests_outcome(&deps, &handlers, &vec![true, true, true]),
        Err(DependencyError::DependencyNotFound("c".to_string()))
    );
    let ok = vec![deps[0].clone(), deps[1].clone()];
    assert_eq!(requests_outcome(&ok, &handlers, &vec![true, true]), Ok(()));
}

#[test]
fn requester_stops_when_a_handler_refuses() {
    let (h, mut rx) = handler("worker", 1);
    let mut handlers = RemoteHandlers::new(vec![h]);
    let deps = vec![
        ("a".to_string(), info("1", &[], Some("worker"))),
        ("b".to_string(), info("1", &[], Some("worker"))),
        ("c".to_string(), info("1", &[], Some("worker"))),
    ];
    assert_eq!(
        dependency_requester(&deps, &mut handlers),
        Err(DependencyError::FailedConnectingToRemote("worker".to_string()))
    );
    assert_eq!(rx.try_recv().unwrap().0, "a");
    assert!(rx.try_recv().is_err());
}
