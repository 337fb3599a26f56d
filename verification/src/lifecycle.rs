//! The startup sequence of the proxy's two sockets.
//!
//! The proxy first replaces whatever a previous run left at the public socket
//! path by a fresh listening socket that every local user may connect to,
//! then connects to the private socket of the backend, and only then serves.
//! Any failure on the way is final: without its public socket, or without
//! its backend, the proxy has nothing to offer.
//!
//! [`Startup`] names the step to take next; the program performs it and
//! reports how it went.

use vstd::prelude::*;

verus! {

/// Where untrusted local clients reach the proxy.
pub const PUBLIC_SOCKET_PATH: &'static str = "/run/geopm-service/grpc.sock";

/// Where the proxy, and nobody else, reaches the backend.
pub const PRIVATE_SOCKET_PATH: &'static str = "/run/geopm-service/grpc-private.sock";

/// Permission bits of the public socket: read, write and execute for its
/// owner, its group and everybody else.
pub const PUBLIC_SOCKET_MODE: u32 = 0o777;

/// Why the proxy gives up before it serves.
#[derive(Clone, Copy, Debug, PartialEq, Eq, Structural)]
pub enum StartupError {
    /// A file at the public socket path is in the way and cannot be removed.
    StaleSocketNotRemoved,
    /// The public socket could not be bound.
    BindFailed,
    /// The permission bits of the public socket could not be set.
    PermissionsNotSet,
    /// The backend could not be reached at the private socket.
    BackendUnreachable,
}

/// How a step of the startup went.
#[derive(Clone, Copy, Debug, PartialEq, Eq, Structural)]
pub enum Outcome {
    /// The step succeeded.
    Done,
    /// The step failed because the file it works on does not exist.
    NotFound,
    /// The step failed for any other reason.
    Failed,
}

/// The step that the startup has reached: what the program does next.
#[derive(Clone, Copy, Debug, PartialEq, Eq, Structural)]
pub enum Startup {
    /// Remove the file at [`PUBLIC_SOCKET_PATH`], if there is one.
    RemoveStaleSocket,
    /// Bind a listening socket at [`PUBLIC_SOCKET_PATH`].
    BindPublicSocket,
    /// Set the permission bits of the socket at [`PUBLIC_SOCKET_PATH`] to
    /// [`PUBLIC_SOCKET_MODE`].
    SetPermissions,
    /// Connect to the backend at [`PRIVATE_SOCKET_PATH`].
    ConnectBackend,
    /// Accept inbound connections.
    Serve,
    /// Terminate with the error.
    Abort(StartupError),
}

/// A step of the startup spelled out for the program that performs it.
#[derive(Clone, Copy, Debug, PartialEq, Eq)]
pub enum Action {
    /// Remove the file at the path; that there is none is no failure.
    RemoveFile(&'static str),
    /// Bind a listening socket at the path.
    Bind(&'static str),
    /// Set the permission bits of the file at the path.
    SetPermissions(&'static str, u32),
    /// Connect to the socket at the path.
    Connect(&'static str),
    /// Accept inbound connections.
    Serve,
    /// Terminate with the error.
    Abort(StartupError),
}

impl Startup {
    /// The step that follows `self` when it went as `outcome` says. A stale
    /// socket that is not there needs no removing; every other failure ends
    /// the startup. Serving and giving up are final.
    pub open spec fn next(self, outcome: Outcome) -> Startup {
        match self {
            Startup::RemoveStaleSocket => if outcome == Outcome::Failed {
                Startup::Abort(StartupError::StaleSocketNotRemoved)
            } else {
                Startup::BindPublicSocket
            },
            Startup::BindPublicSocket => if outcome == Outcome::Done {
                Startup::SetPermissions
            } else {
                Startup::Abort(StartupError::BindFailed)
            },
            Startup::SetPermissions => if outcome == Outcome::Done {
                Startup::ConnectBackend
            } else {
                Startup::Abort(StartupError::PermissionsNotSet)
            },
            Startup::ConnectBackend => if outcome == Outcome::Done {
                Startup::Serve
            } else {
                Startup::Abort(StartupError::BackendUnreachable)
            },
            Startup::Serve => Startup::Serve,
            Startup::Abort(error) => Startup::Abort(error),
        }
    }

    /// The first step of every startup.
    pub fn begin() -> (first: Startup)
        ensures
            first == Startup::RemoveStaleSocket,
    {
        Startup::RemoveStaleSocket
    }

    /// Moves on from the step `self`, which went as `outcome` says.
    pub fn advance(self, outcome: Outcome) -> (then: Startup)
        ensures
            then == self.next(outcome),
    {
        match self {
            Startup::RemoveStaleSocket => match outcome {
                Outcome::Failed => Startup::Abort(StartupError::StaleSocketNotRemoved),
                _ => Startup::BindPublicSocket,
            },
            Startup::BindPublicSocket => match outcome {
                Outcome::Done => Startup::SetPermissions,
                _ => Startup::Abort(StartupError::BindFailed),
            },
            Startup::SetPermissions => match outcome {
                Outcome::Done => Startup::ConnectBackend,
                _ => Startup::Abort(StartupError::PermissionsNotSet),
            },
            Startup::ConnectBackend => match outcome {
                Outcome::Done => Startup::Serve,
                _ => Startup::Abort(StartupError::BackendUnreachable),
            },
            Startup::Serve => Startup::Serve,
            Startup::Abort(error) => Startup::Abort(error),
        }
    }

    /// What the program is to do at this step, with the socket path and the
    /// permission bits that it is to do it with.
    pub fn action(&self) -> (action: Action)
        ensures
            match *self {
                Startup::RemoveStaleSocket => action matches Action::RemoveFile(path) && path@
                    == PUBLIC_SOCKET_PATH@,
                Startup::BindPublicSocket => action matches Action::Bind(path) && path@
                    == PUBLIC_SOCKET_PATH@,
                Startup::SetPermissions => action matches Action::SetPermissions(path, mode)
                    && path@ == PUBLIC_SOCKET_PATH@ && mode == PUBLIC_SOCKET_MODE,
                Startup::ConnectBackend => action matches Action::Connect(path) && path@
                    == PRIVATE_SOCKET_PATH@,
                Startup::Serve => action is Serve,
                Startup::Abort(error) => action matches Action::Abort(reason) && reason == error,
            },
    {
        match self {
            Startup::RemoveStaleSocket => Action::RemoveFile(PUBLIC_SOCKET_PATH),
            Startup::BindPublicSocket => Action::Bind(PUBLIC_SOCKET_PATH),
            Startup::SetPermissions => Action::SetPermissions(
                PUBLIC_SOCKET_PATH,
                PUBLIC_SOCKET_MODE,
            ),
            Startup::ConnectBackend => Action::Connect(PRIVATE_SOCKET_PATH),
            Startup::Serve => Action::Serve,
            Startup::Abort(error) => Action::Abort(*error),
        }
    }
}

/// The step that a startup has reached after its steps so far went as
/// `outcomes` says, first step first.
pub open spec fn reached(outcomes: Seq<Outcome>) -> Startup
    decreases outcomes.len(),
{
    if outcomes.len() == 0 {
        Startup::RemoveStaleSocket
    } else {
        reached(outcomes.drop_last()).next(outcomes.last())
    }
}

/// Whether the outcomes are those of a startup without fault: the public
/// socket path was cleared or found clear, the socket was bound, its
/// permission bits were set, and the backend was reached.
pub open spec fn clean_start(outcomes: Seq<Outcome>) -> bool {
    &&& outcomes.len() >= 4
    &&& outcomes[0] != Outcome::Failed
    &&& outcomes[1] == Outcome::Done
    &&& outcomes[2] == Outcome::Done
    &&& outcomes[3] == Outcome::Done
}

/// The step reached after `outcomes`, told from the outcomes directly: the
/// first step that failed decides the error, and a startup of which no step
/// has failed is at the step that follows its last outcome.
pub open spec fn reached_directly(outcomes: Seq<Outcome>) -> Startup {
    if outcomes.len() == 0 {
        Startup::RemoveStaleSocket
    } else if outcomes[0] == Outcome::Failed {
        Startup::Abort(StartupError::StaleSocketNotRemoved)
    } else if outcomes.len() == 1 {
        Startup::BindPublicSocket
    } else if outcomes[1] != Outcome::Done {
        Startup::Abort(StartupError::BindFailed)
    } else if outcomes.len() == 2 {
        Startup::SetPermissions
    } else if outcomes[2] != Outcome::Done {
        Startup::Abort(StartupError::PermissionsNotSet)
    } else if outcomes.len() == 3 {
        Startup::ConnectBackend
    } else if outcomes[3] != Outcome::Done {
        Startup::Abort(StartupError::BackendUnreachable)
    } else {
        Startup::Serve
    }
}

/// Step by step or told directly, the startup reaches the same step.
pub proof fn lemma_reached_directly(outcomes: Seq<Outcome>)
    ensures
        reached(outcomes) == reached_directly(outcomes),
    decreases outcomes.len(),
{
    if outcomes.len() > 0 {
        let earlier = outcomes.drop_last();
        lemma_reached_directly(earlier);
        assert(forall|i: int| 0 <= i < earlier.len() ==> earlier[i] == outcomes[i]);
    }
}

/// A startup that has given up stays so: nothing that happens later makes
/// the proxy serve.
pub proof fn lemma_failure_is_final(outcomes: Seq<Outcome>, k: int)
    requires
        0 <= k <= outcomes.len(),
        reached(outcomes.take(k)) is Abort,
    ensures
        reached(outcomes) == reached(outcomes.take(k)),
    decreases outcomes.len() - k,
{
    if k < outcomes.len() {
        assert(outcomes.take(k + 1).drop_last() =~= outcomes.take(k));
        lemma_failure_is_final(outcomes, k + 1);
    } else {
        assert(outcomes.take(k) =~= outcomes);
    }
}

/// The proxy serves if and only if its first four steps went without fault;
/// after four steps it has given up if and only if one of them failed.
pub proof fn lemma_serves_exactly_after_clean_start(outcomes: Seq<Outcome>)
    ensures
        reached(outcomes) == Startup::Serve <==> clean_start(outcomes),
        outcomes.len() >= 4 ==> (reached(outcomes) is Abort <==> !clean_start(outcomes)),
{
    lemma_reached_directly(outcomes);
}

/// The public socket is made anew whether or not an earlier run left one
/// behind: a stale socket that was removed and a path that was found clear
/// lead to the same startup.
pub proof fn lemma_stale_socket_makes_no_difference(rest: Seq<Outcome>)
    ensures
        reached(seq![Outcome::Done] + rest) == reached(seq![Outcome::NotFound] + rest),
{
    let removed = seq![Outcome::Done] + rest;
    let absent = seq![Outcome::NotFound] + rest;
    lemma_reached_directly(removed);
    lemma_reached_directly(absent);
    assert(forall|i: int| 1 <= i < removed.len() ==> removed[i] == absent[i]);
}

/// The proxy never serves without its backend: if the backend cannot be
/// reached once the public socket stands, the startup ends with that error,
/// whatever is reported afterwards.
pub proof fn lemma_no_service_without_backend(outcomes: Seq<Outcome>)
    requires
        outcomes.len() >= 4,
        reached(outcomes.take(3)) == Startup::ConnectBackend,
        outcomes[3] != Outcome::Done,
    ensures
        reached(outcomes) == Startup::Abort(StartupError::BackendUnreachable),
{
    lemma_reached_directly(outcomes);
    lemma_reached_directly(outcomes.take(3));
}

} // verus!
