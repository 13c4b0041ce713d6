use vstd::prelude::*;
use crate::dependency::{dependency_names_distinct, DependencyInfo};
use tokio::sync::mpsc::Sender;

verus! {

#[verifier::external_type_specification]
#[verifier::external_body]
#[verifier::reject_recursive_types(T)]
pub struct ExSender<T>(Sender<T>);

/// A request for a dependency, as sent to the handler of a remote compiler
/// worker: the dependency's name and what the configuration says of it.
pub type DependencyMessage = (String, DependencyInfo);

/// The handler of a remote compiler worker: its name, its address and the
/// channel to the task that talks to it.
pub type RemoteHandler = (String, (String, Sender<DependencyMessage>));

/// Errors while gathering dependencies.
#[derive(Debug, Clone, PartialEq, Eq)]
pub enum DependencyError {
    /// The dependency was not found and has no remote compiler to ask.
    DependencyNotFound(String),
    /// The handler of the named remote compiler did not take the request.
    FailedConnectingToRemote(String),
    /// No remote compiler of that name was configured.
    InvalidRemoteCompiler(String),
    /// The dependency's name, the version asked for and the version found.
    MismatchedVersion(String, String, String),
    /// The dependency is not a library.
    InvalidDependencyType(String),
    /// The dependency's name, the features it offers and those asked for.
    InvalidDependencyFeature(String, Vec<String>, Vec<String>),
    /// The dependency folder at the path holds no `config.toml`.
    DependencyMissingConfig(String),
    /// Dependencies that were asked for and not found.
    MissingDependencies(Vec<(String, DependencyInfo)>),
}

/// A request handed to the handler at a position, and whether its channel
/// took it.
pub type RequestRecord = (usize, DependencyMessage, bool);

/// The handlers of the remote compiler workers, with the record of every
/// request handed to them, in the order they were handed over.
pub struct RemoteHandlers {
    pub handlers: Vec<RemoteHandler>,
    pub requests: Ghost<Seq<RequestRecord>>,
}

impl RemoteHandlers {
    /// Handlers to which nothing has been handed yet.
    pub fn new(handlers: Vec<RemoteHandler>) -> (r: Self)
        ensures
            r.handlers == handlers,
            r.requests@ == Seq::<RequestRecord>::empty(),
    {
        RemoteHandlers { handlers, requests: Ghost(Seq::empty()) }
    }
}

/// Hands a request to the task of the remote compiler worker at position
/// `i`, and records it.
///
/// Trusted: `tokio::sync::mpsc::Sender::try_send` queues the message if the
/// channel has room and its receiver is still there, and returns it in an
/// error otherwise. Which happens depends on the state of the channel, so
/// nothing is stated of the result; what is stated is that this one request
/// went to that handler (the record), and that the handlers stay as they are.
#[verifier::external_body]
fn try_send_request(hs: &mut RemoteHandlers, i: usize, message: DependencyMessage) -> (sent: bool)
    requires
        i < old(hs).handlers@.len(),
    ensures
        final(hs).handlers == old(hs).handlers,
        final(hs).requests@ == old(hs).requests@.push((i, message, sent)),
{
    hs.handlers[i].1.1.try_send(message).is_ok()
}

/// Whether a handler with the given name is among the handlers.
pub open spec fn has_handler(handlers: Seq<RemoteHandler>, name: Seq<char>) -> bool {
    exists|i: int| 0 <= i < handlers.len() && (#[trigger] handlers[i]).0@ == name
}

/// What a request comes to once the remote compiler's handler has taken it
/// (`sent`) or not.
pub fn send_outcome(remote_compiler: &String, sent: bool) -> (r: Result<(), DependencyError>)
    ensures
        sent ==> r is Ok,
        !sent ==> (r matches Err(DependencyError::FailedConnectingToRemote(rc)) && rc@ == remote_compiler@),
{
    if sent {
        Ok(())
    } else {
        Err(DependencyError::FailedConnectingToRemote(remote_compiler.clone()))
    }
}

/// Whether a dependency can be asked for: it names a remote compiler, and
/// that compiler has a handler.
pub open spec fn requestable(info: DependencyInfo, handlers: Seq<RemoteHandler>) -> bool {
    info.remote matches Some(rc) && has_handler(handlers, rc@)
}

/// Whether `e` is an error that asking for the dependency can give: no
/// remote compiler named, no handler for it, or a handler that did not
/// take the request.
pub open spec fn request_error(name: Seq<char>, info: DependencyInfo, handlers: Seq<RemoteHandler>, e: DependencyError) -> bool {
    match info.remote {
        None => e matches DependencyError::DependencyNotFound(n) && n@ == name,
        Some(rc) => if has_handler(handlers, rc@) {
            e matches DependencyError::FailedConnectingToRemote(x) && x@ == rc@
        } else {
            e matches DependencyError::InvalidRemoteCompiler(x) && x@ == rc@
        },
    }
}

/// Whether no two handlers share a name: handlers are found by name.
pub open spec fn handler_names_distinct(handlers: Seq<RemoteHandler>) -> bool {
    forall|i: int, j: int| 0 <= i < j < handlers.len() ==> (#[trigger] handlers[i]).0@ != (#[trigger] handlers[j]).0@
}

/// Whether `copy` holds the same dependency information as `info`.
pub open spec fn same_info(copy: DependencyInfo, info: DependencyInfo) -> bool {
    &&& copy.version == info.version
    &&& copy.features@ == info.features@
    &&& copy.remote == info.remote
}

/// A copy of a dependency's information.
fn copy_info(info: &DependencyInfo) -> (r: DependencyInfo)
    ensures
        same_info(r, *info),
{
    let remote = match &info.remote {
        Some(rc) => Some(rc.clone()),
        None => None,
    };
    DependencyInfo { version: info.version.clone(), features: copy_strings(&info.features), remote }
}

/// A copy of a list of strings.
fn copy_strings(v: &Vec<String>) -> (r: Vec<String>)
    ensures
        r@ == v@,
{
    let mut out: Vec<String> = Vec::new();
    let mut i: usize = 0;
    while i < v.len()
        invariant
            0 <= i <= v@.len(),
            out@ == v@.take(i as int),
        decreases v@.len() - i,
    {
        out.push(v[i].clone());
        proof {
            assert(v@.take(i + 1) =~= v@.take(i as int).push(v@[i as int]));
        }
        i = i + 1;
    }
    proof {
        assert(v@.take(v@.len() as int) =~= v@);
    }
    out
}

/// What asking for a dependency comes to before anything is sent: the
/// position of the handler of the remote compiler the dependency names (the
/// first with that name) and the request to hand it, which holds the
/// dependency's name and information; or the error when the dependency names
/// no remote compiler, or one that has no handler.
pub fn plan_request(dependency: (&String, &DependencyInfo), remote_handlers: &Vec<RemoteHandler>) -> (r: Result<
    (usize, DependencyMessage),
    DependencyError,
>)
    ensures
        match r {
            Ok((i, m)) => {
                &&& requestable(*dependency.1, remote_handlers@)
                &&& i < remote_handlers@.len()
                &&& remote_handlers@[i as int].0@ == dependency.1.remote->0@
                &&& forall|j: int| 0 <= j < i ==> (#[trigger] remote_handlers@[j]).0@ != dependency.1.remote->0@
                &&& m.0@ == dependency.0@
                &&& same_info(m.1, *dependency.1)
            },
            Err(e) => !requestable(*dependency.1, remote_handlers@) && request_error(
                dependency.0@,
                *dependency.1,
                remote_handlers@,
                e,
            ),
        },
{
    let remote_compiler = match &dependency.1.remote {
        Some(rc) => rc,
        None => {
            return Err(DependencyError::DependencyNotFound(dependency.0.clone()));
        },
    };
    let mut i: usize = 0;
    while i < remote_handlers.len()
        invariant
            0 <= i <= remote_handlers@.len(),
            dependency.1.remote == Some(*remote_compiler),
            forall|k: int| 0 <= k < i ==> (#[trigger] remote_handlers@[k]).0@ != remote_compiler@,
        decreases remote_handlers@.len() - i,
    {
        if remote_handlers[i].0 == *remote_compiler {
            let message = (dependency.0.clone(), copy_info(dependency.1));
            return Ok((i, message));
        }
        i = i + 1;
    }
    Err(DependencyError::InvalidRemoteCompiler(remote_compiler.clone()))
}

/// Whether `record` is the request that asking for dependency `dep` hands
/// over: to the handler of the remote compiler it names, holding its name and
/// information.
pub open spec fn is_request_for(record: RequestRecord, dep: (String, DependencyInfo), handlers: Seq<RemoteHandler>) -> bool {
    &&& record.0 < handlers.len()
    &&& handlers[record.0 as int].0@ == dep.1.remote->0@
    &&& record.1.0@ == dep.0@
    &&& same_info(record.1.1, dep.1)
}

/// Asks the remote compiler a dependency names to compile it: the request
/// that `plan_request` makes is handed to that compiler's handler. A
/// dependency that names no remote compiler is not found; one whose remote
/// compiler has no handler names an invalid compiler; a handler that does not
/// take the request fails the connection.
pub fn request_dependency(dependency: (&String, &DependencyInfo), remote_handlers: &mut RemoteHandlers) -> (r: Result<
    (),
    DependencyError,
>)
    requires
        handler_names_distinct(old(remote_handlers).handlers@),
    ensures
        final(remote_handlers).handlers == old(remote_handlers).handlers,
        !requestable(*dependency.1, old(remote_handlers).handlers@) ==> {
            &&& final(remote_handlers).requests@ == old(remote_handlers).requests@
            &&& r matches Err(e)
            &&& request_error(dependency.0@, *dependency.1, old(remote_handlers).handlers@, e)
        },
        requestable(*dependency.1, old(remote_handlers).handlers@) ==> {
            &&& final(remote_handlers).requests@.len() == old(remote_handlers).requests@.len() + 1
            &&& final(remote_handlers).requests@.drop_last() == old(remote_handlers).requests@
            &&& is_request_for(
                final(remote_handlers).requests@.last(),
                (*dependency.0, *dependency.1),
                old(remote_handlers).handlers@,
            )
            &&& (r is Ok <==> final(remote_handlers).requests@.last().2)
            &&& (r matches Err(e) ==> e matches DependencyError::FailedConnectingToRemote(x) && x@
                == dependency.1.remote->0@)
        },
{
    match plan_request(dependency, &remote_handlers.handlers) {
        Err(e) => Err(e),
        Ok((i, message)) => {
            let name = remote_handlers.handlers[i].0.clone();
            let sent = try_send_request(remote_handlers, i, message);
            proof {
                assert(remote_handlers.requests@.drop_last() =~= old(remote_handlers).requests@);
            }
            send_outcome(&name, sent)
        },
    }
}

/// Whether asking for entry `i` fails: it cannot be requested, or its
/// handler did not take the request (`sent[i]` is false).
pub open spec fn entry_fails(
    deps: Seq<(String, DependencyInfo)>,
    handlers: Seq<RemoteHandler>,
    sent: Seq<bool>,
    i: int,
) -> bool {
    !requestable(deps[i].1, handlers) || !sent[i]
}

/// Whether `e` is the error of asking for entry `i`, which fails.
pub open spec fn entry_error(
    deps: Seq<(String, DependencyInfo)>,
    handlers: Seq<RemoteHandler>,
    i: int,
    e: DependencyError,
) -> bool {
    if requestable(deps[i].1, handlers) {
        e matches DependencyError::FailedConnectingToRemote(x) && x@ == deps[i].1.remote->0@
    } else {
        request_error(deps[i].0@, deps[i].1, handlers, e)
    }
}

/// What asking for the dependencies in order comes to, given for each entry
/// whether its handler took the request: the error of the first entry that
/// fails, or success when none does.
pub fn requests_outcome(
    dependencies: &Vec<(String, DependencyInfo)>,
    remote_handlers: &Vec<RemoteHandler>,
    sent: &Vec<bool>,
) -> (r: Result<(), DependencyError>)
    requires
        sent@.len() == dependencies@.len(),
    ensures
        r is Ok <==> forall|i: int| 0 <= i < dependencies@.len() ==> !#[trigger] entry_fails(
            dependencies@,
            remote_handlers@,
            sent@,
            i,
        ),
        r matches Err(e) ==> exists|i: int|
            #![trigger entry_fails(dependencies@, remote_handlers@, sent@, i)]
            0 <= i < dependencies@.len() && entry_fails(dependencies@, remote_handlers@, sent@, i) && entry_error(
                dependencies@,
                remote_handlers@,
                i,
                e,
            ) && forall|j: int| 0 <= j < i ==> !#[trigger] entry_fails(dependencies@, remote_handlers@, sent@, j),
{
    let mut i: usize = 0;
    while i < dependencies.len()
        invariant
            0 <= i <= dependencies@.len(),
            sent@.len() == dependencies@.len(),
            forall|j: int| 0 <= j < i ==> !#[trigger] entry_fails(dependencies@, remote_handlers@, sent@, j),
        decreases dependencies@.len() - i,
    {
        let dep = &dependencies[i];
        match plan_request((&dep.0, &dep.1), remote_handlers) {
            Err(e) => {
                assert(entry_fails(dependencies@, remote_handlers@, sent@, i as int));
                return Err(e);
            },
            Ok((h, _message)) => {
                if !sent[i] {
                    let r = send_outcome(&remote_handlers[h].0, false);
                    assert(entry_fails(dependencies@, remote_handlers@, sent@, i as int));
                    return r;
                }
            },
        }
        i = i + 1;
    }
    Ok(())
}

/// Whether `log` is what asking for the dependencies in order hands over,
/// up to where asking stops: the request of each entry it reaches, in order,
/// every one but the last taken by its handler.
pub open spec fn requests_handed_over(
    deps: Seq<(String, DependencyInfo)>,
    handlers: Seq<RemoteHandler>,
    log: Seq<RequestRecord>,
) -> bool {
    &&& log.len() <= deps.len()
    &&& forall|j: int| 0 <= j < log.len() ==> requestable(#[trigger] deps[j].1, handlers) && is_request_for(
        log[j],
        deps[j],
        handlers,
    )
    &&& forall|j: int| 0 <= j < log.len() - 1 ==> (#[trigger] log[j]).2
}

/// Asks for every dependency, in order: each request that `plan_request`
/// makes is handed to its handler, and asking stops at the first entry that
/// cannot be requested or whose handler does not take the request. The
/// result is that entry's error, or success when every entry was taken.
pub fn dependency_requester(dependencies: &Vec<(String, DependencyInfo)>, remote_handlers: &mut RemoteHandlers) -> (r:
    Result<(), DependencyError>)
    requires
        handler_names_distinct(old(remote_handlers).handlers@),
        dependency_names_distinct(dependencies@),
    ensures
        final(remote_handlers).handlers == old(remote_handlers).handlers,
        ({
            let handlers = old(remote_handlers).handlers@;
            let before = old(remote_handlers).requests@;
            let after = final(remote_handlers).requests@;
            let log = after.skip(before.len() as int);
            &&& after.len() >= before.len()
            &&& after.take(before.len() as int) == before
            &&& requests_handed_over(dependencies@, handlers, log)
            &&& (r is Ok <==> (log.len() == dependencies@.len() && forall|j: int| 0 <= j < log.len() ==> (#[trigger] log[j]).2))
            &&& (r matches Err(e) ==> (if log.len() > 0 && !log.last().2 {
                e matches DependencyError::FailedConnectingToRemote(x) && x@ == dependencies@[log.len() - 1].1.remote->0@
            } else {
                &&& log.len() < dependencies@.len()
                &&& !requestable(dependencies@[log.len() as int].1, handlers)
                &&& request_error(dependencies@[log.len() as int].0@, dependencies@[log.len() as int].1, handlers, e)
            }))
        }),
{
    let ghost before = remote_handlers.requests@;
    let ghost handlers = remote_handlers.handlers@;
    let mut i: usize = 0;
    while i < dependencies.len()
        invariant
            0 <= i <= dependencies@.len(),
            remote_handlers.handlers == old(remote_handlers).handlers,
            handlers == old(remote_handlers).handlers@,
            before == old(remote_handlers).requests@,
            handler_names_distinct(handlers),
            remote_handlers.requests@.len() == before.len() + i,
            remote_handlers.requests@.take(before.len() as int) == before,
            requests_handed_over(dependencies@, handlers, remote_handlers.requests@.skip(before.len() as int)),
            forall|j: int| 0 <= j < i ==> (#[trigger] remote_handlers.requests@.skip(before.len() as int)[j]).2,
        decreases dependencies@.len() - i,
    {
        let ghost log0 = remote_handlers.requests@;
        let dep = &dependencies[i];
        let res = request_dependency((&dep.0, &dep.1), remote_handlers);
        proof {
            let log = remote_handlers.requests@.skip(before.len() as int);
            if requestable(dependencies@[i as int].1, handlers) {
                assert(log0.skip(before.len() as int) =~= log.drop_last());
                assert(remote_handlers.requests@.take(before.len() as int) =~= log0.take(before.len() as int));
                assert forall|j: int| 0 <= j < log.len() implies requestable(#[trigger] dependencies@[j].1, handlers)
                    && is_request_for(log[j], dependencies@[j], handlers) by {
                    if j < i {
                        assert(log[j] == log0.skip(before.len() as int)[j]);
                    }
                }
            } else {
                assert(log =~= log0.skip(before.len() as int));
            }
        }
        match res {
            Ok(()) => {},
            Err(e) => {
                proof {
                    let log = remote_handlers.requests@.skip(before.len() as int);
                    if !requestable(dependencies@[i as int].1, handlers) {
                        assert(log.len() == i);
                        if i > 0 {
                            assert(log.last() == log[i - 1]);
                            assert(log.last().2);
                        }
                        assert(request_error(dependencies@[log.len() as int].0@, dependencies@[log.len() as int].1, handlers, e));
                    }
                    if requestable(dependencies@[i as int].1, handlers) {
                        assert(log.len() == i + 1);
                        assert(log.last() == remote_handlers.requests@.last());
                        assert(!log.last().2);
                        assert(dependencies@[log.len() - 1] == dependencies@[i as int]);
                        assert(e matches DependencyError::FailedConnectingToRemote(x) && x@ == dependencies@[log.len() - 1].1.remote->0@);
                        assert forall|j: int| 0 <= j < log.len() - 1 implies (#[trigger] log[j]).2 by {
                            assert(log[j] == log0.skip(before.len() as int)[j]);
                        }
                    }
                }
                return Err(e);
            },
        }
        proof {
            let log = remote_handlers.requests@.skip(before.len() as int);
            assert(log.last() == remote_handlers.requests@.last());
            assert forall|j: int| 0 <= j < i + 1 implies (#[trigger] log[j]).2 by {
                if j < i {
                    assert(log[j] == log0.skip(before.len() as int)[j]);
                }
            }
        }
        i = i + 1;
    }
    Ok(())
}

} // verus!
