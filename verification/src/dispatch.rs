//! The entry points of the proxy, one per operation of the backend.
//!
//! Every operation follows one pattern. The entry point works out the
//! caller's identity from the connection, writes it over the identity field
//! of the request, and draws a ticket for the backend connection. The program
//! sends the request when the ticket comes up and hands the reply to
//! [`GeopmServiceImp::complete`], which gives the connection back and returns
//! the reply as it came. The one operation without an identity field passes
//! through untouched and asks nothing about the caller.

use crate::handle::{Admission, BackendHandle, HandleEvent, HandleView, NotHolder};
use crate::identity::{
    identity_of, lemma_token_injective, session_key, token, ConnectInfo, PeerCredentials,
    Rejection, SessionKey,
};
use vstd::prelude::*;

verus! {

/// The operations of the backend, which the proxy offers under the same names.
#[derive(Clone, Copy, Debug, PartialEq, Eq, Structural)]
pub enum Operation {
    /// Open a session.
    OpenSession,
    /// Close a session.
    CloseSession,
    /// Restore the controls that a session has changed.
    RestoreControl,
    /// List the signals and controls that the caller may use.
    GetUserAccess,
    /// Describe signals.
    GetSignalInfo,
    /// Describe controls.
    GetControlInfo,
    /// Start a batch session.
    StartBatch,
    /// Stop a batch session.
    StopBatch,
    /// Read one signal.
    ReadSignal,
    /// Write one control.
    WriteControl,
    /// Fetch the topology cache.
    TopoGetCache,
    /// Start profiling.
    StartProfile,
    /// Stop profiling.
    StopProfile,
    /// List the processes of a profile.
    GetProfilePids,
    /// Take the region names of a profile.
    PopProfileRegionNames,
}

/// A request with an identity field. `body` stands for all its other fields.
#[derive(Clone, Debug, PartialEq, Eq)]
pub struct KeyedRequest<B> {
    /// The identity under which the call runs. Whatever a caller puts here is
    /// overwritten before the request reaches the backend.
    pub session_key: Option<SessionKey>,
    /// The fields that the proxy relays as they are.
    pub body: B,
}

/// A call that the proxy has accepted and the program is to make.
#[derive(Debug)]
pub struct BackendCall<Q> {
    /// The backend operation to invoke.
    pub operation: Operation,
    /// The ticket of the call, and whether it may be sent at once.
    pub admission: Admission,
    /// The request to send.
    pub request: Q,
}

/// The end of a call.
#[derive(Debug)]
pub struct Completion<R, E> {
    /// What the caller receives: the backend's reply.
    pub reply: Result<R, E>,
    /// The ticket whose turn it is now, or the refusal to give back a
    /// connection that the finished call did not hold.
    pub next: Result<Option<u64>, NotHolder>,
}

/// The identity of the caller of an inbound call: its session token, or the
/// reason why the call is turned down.
pub open spec fn caller_identity(conn_info: Option<&ConnectInfo>) -> Result<Seq<char>, Rejection> {
    match conn_info {
        None => Err(Rejection::MissingConnectInfo),
        Some(info) => identity_of(*info),
    }
}

/// Whether the proxy has turned a call down for `reason`: the program is
/// told so, and the proxy stays in the state it was in.
pub open spec fn turned_down<Q>(
    reason: Rejection,
    pre: HandleView,
    post: HandleView,
    outcome: Result<BackendCall<Q>, Rejection>,
) -> bool {
    outcome == Err::<BackendCall<Q>, Rejection>(reason) && post == pre
}

/// Whether the proxy, in going from state `pre` to state `post`, has let in
/// a call of `operation` whose caller needs no further leave. The call draws
/// the next ticket, and the request that goes to the backend is one that
/// `accepts` admits; only when no ticket is left is the call turned down.
pub open spec fn let_in<Q>(
    operation: Operation,
    pre: HandleView,
    post: HandleView,
    outcome: Result<BackendCall<Q>, Rejection>,
    accepts: spec_fn(Q) -> bool,
) -> bool {
    if pre.issued >= u64::MAX {
        turned_down(Rejection::TicketsExhausted, pre, post, outcome)
    } else {
        &&& post == pre.step(HandleEvent::Acquire)
        &&& outcome matches Ok(call)
        &&& call.operation == operation
        &&& call.admission == pre.admission()
        &&& accepts(call.request)
    }
}

impl<B> KeyedRequest<B> {
    /// Whether `self` is the inbound request with the identity `name` in
    /// place of the caller's: the identity field holds `name`, and every
    /// other field is as it came.
    pub open spec fn carries(self, name: Seq<char>, inbound: KeyedRequest<B>) -> bool {
        &&& self.session_key matches Some(key)
        &&& key@ == name
        &&& self.body == inbound.body
    }

    /// Whether `outcome` is the right answer to the inbound request `self`
    /// of `operation`: a caller without identity is turned down, and for
    /// any other the request that goes to the backend carries the identity
    /// of the caller.
    pub open spec fn forwarded_as(
        self,
        operation: Operation,
        conn_info: Option<&ConnectInfo>,
        pre: HandleView,
        post: HandleView,
        outcome: Result<BackendCall<KeyedRequest<B>>, Rejection>,
    ) -> bool {
        match caller_identity(conn_info) {
            Err(reason) => turned_down(reason, pre, post, outcome),
            Ok(name) => let_in(
                operation,
                pre,
                post,
                outcome,
                |outbound: KeyedRequest<B>| outbound.carries(name, self),
            ),
        }
    }
}

/// Whether `outcome` is the right answer to an inbound request of
/// `operation` that consists of an identity alone: a caller without identity
/// is turned down, and for any other the backend gets the identity of the
/// caller and nothing of what the caller sent.
pub open spec fn session_forwarded_as(
    operation: Operation,
    conn_info: Option<&ConnectInfo>,
    pre: HandleView,
    post: HandleView,
    outcome: Result<BackendCall<SessionKey>, Rejection>,
) -> bool {
    match caller_identity(conn_info) {
        Err(reason) => turned_down(reason, pre, post, outcome),
        Ok(name) => let_in(operation, pre, post, outcome, |outbound: SessionKey| outbound@ == name),
    }
}

/// Whether `outcome` is the right answer to an inbound request of
/// `operation` that has no identity field: the backend gets the request as
/// it came, whoever the caller is.
pub open spec fn passed_through_as<Q>(
    operation: Operation,
    request: Q,
    pre: HandleView,
    post: HandleView,
    outcome: Result<BackendCall<Q>, Rejection>,
) -> bool {
    let_in(operation, pre, post, outcome, |outbound: Q| outbound == request)
}

/// Sets the identity field of `request` to `key` and leaves every other
/// field as it is. The identity that the request came with is discarded.
pub fn rewrite<B>(request: KeyedRequest<B>, key: SessionKey) -> (rewritten: KeyedRequest<B>)
    ensures
        rewritten.session_key == Some(key),
        rewritten.body == request.body,
{
    KeyedRequest { session_key: Some(key), body: request.body }
}

/// Works out the session identity of the caller of an inbound call.
pub fn caller_key(conn_info: Option<&ConnectInfo>) -> (key: Result<SessionKey, Rejection>)
    ensures
        match caller_identity(conn_info) {
            Ok(name) => key matches Ok(k) && k@ == name,
            Err(reason) => key == Err::<SessionKey, Rejection>(reason),
        },
{
    match conn_info {
        None => Err(Rejection::MissingConnectInfo),
        Some(info) => session_key(info),
    }
}

/// The proxy: the context that all inbound connections share.
pub struct GeopmServiceImp {
    handle: BackendHandle,
}

impl View for GeopmServiceImp {
    type V = HandleView;

    closed spec fn view(&self) -> HandleView {
        self.handle@
    }
}

impl GeopmServiceImp {
    /// A proxy whose backend connection is free.
    pub fn new() -> (proxy: GeopmServiceImp)
        ensures
            proxy@ == HandleView::fresh(0),
    {
        GeopmServiceImp { handle: BackendHandle::new() }
    }

    /// A proxy that shares out its backend connection by `handle`.
    pub fn with_handle(handle: BackendHandle) -> (proxy: GeopmServiceImp)
        ensures
            proxy@ == handle@,
            proxy@.wf(),
    {
        proof {
            use_type_invariant(&handle);
        }
        GeopmServiceImp { handle }
    }

    /// The handle to the backend connection.
    pub fn handle(&self) -> (handle: &BackendHandle)
        ensures
            handle@ == self@,
            self@.wf(),
    {
        proof {
            use_type_invariant(&self.handle);
        }
        &self.handle
    }

    fn forward_session(
        &mut self,
        operation: Operation,
        conn_info: Option<&ConnectInfo>,
    ) -> (outcome: Result<BackendCall<SessionKey>, Rejection>)
        ensures
            final(self)@.wf(),
            session_forwarded_as(operation, conn_info, old(self)@, final(self)@, outcome),
    {
        proof {
            use_type_invariant(&self.handle);
        }
        let key = match caller_key(conn_info) {
            Ok(key) => key,
            Err(reason) => {
                return Err(reason);
            },
        };
        match self.handle.acquire() {
            None => Err(Rejection::TicketsExhausted),
            Some(admission) => Ok(BackendCall { operation, admission, request: key }),
        }
    }

    fn forward_with_identity<B>(
        &mut self,
        operation: Operation,
        conn_info: Option<&ConnectInfo>,
        request: KeyedRequest<B>,
    ) -> (outcome: Result<BackendCall<KeyedRequest<B>>, Rejection>)
        ensures
            final(self)@.wf(),
            request.forwarded_as(operation, conn_info, old(self)@, final(self)@, outcome),
    {
        proof {
            use_type_invariant(&self.handle);
        }
        let key = match caller_key(conn_info) {
            Ok(key) => key,
            Err(reason) => {
                return Err(reason);
            },
        };
        match self.handle.acquire() {
            None => Err(Rejection::TicketsExhausted),
            Some(admission) => Ok(
                BackendCall { operation, admission, request: rewrite(request, key) },
            ),
        }
    }

    fn forward_unchanged<Q>(
        &mut self,
        operation: Operation,
        request: Q,
    ) -> (outcome: Result<BackendCall<Q>, Rejection>)
        ensures
            final(self)@.wf(),
            passed_through_as(operation, request, old(self)@, final(self)@, outcome),
    {
        match self.handle.acquire() {
            None => Err(Rejection::TicketsExhausted),
            Some(admission) => Ok(BackendCall { operation, admission, request }),
        }
    }

    /// Opens a session for the caller. The request consists of an
    /// identity alone, so nothing of what the caller sent reaches the
    /// backend.
    pub fn open_session(
        &mut self,
        conn_info: Option<&ConnectInfo>,
        _request: SessionKey,
    ) -> (outcome: Result<BackendCall<SessionKey>, Rejection>)
        ensures
            final(self)@.wf(),
            session_forwarded_as(
                Operation::OpenSession,
                conn_info,
                old(self)@,
                final(self)@,
                outcome,
            ),
    {
        self.forward_session(Operation::OpenSession, conn_info)
    }

    /// Closes the session of the caller. The request consists of an
    /// identity alone, so nothing of what the caller sent reaches the
    /// backend.
    pub fn close_session(
        &mut self,
        conn_info: Option<&ConnectInfo>,
        _request: SessionKey,
    ) -> (outcome: Result<BackendCall<SessionKey>, Rejection>)
        ensures
            final(self)@.wf(),
            session_forwarded_as(
                Operation::CloseSession,
                conn_info,
                old(self)@,
                final(self)@,
                outcome,
            ),
    {
        self.forward_session(Operation::CloseSession, conn_info)
    }

    /// Restores the controls that the session of the caller has changed. The request consists of an
    /// identity alone, so nothing of what the caller sent reaches the
    /// backend.
    pub fn restore_control(
        &mut self,
        conn_info: Option<&ConnectInfo>,
        _request: SessionKey,
    ) -> (outcome: Result<BackendCall<SessionKey>, Rejection>)
        ensures
            final(self)@.wf(),
            session_forwarded_as(
                Operation::RestoreControl,
                conn_info,
                old(self)@,
                final(self)@,
                outcome,
            ),
    {
        self.forward_session(Operation::RestoreControl, conn_info)
    }

    /// Asks which signals and controls the caller may use. The request consists of an
    /// identity alone, so nothing of what the caller sent reaches the
    /// backend.
    pub fn get_user_access(
        &mut self,
        conn_info: Option<&ConnectInfo>,
        _request: SessionKey,
    ) -> (outcome: Result<BackendCall<SessionKey>, Rejection>)
        ensures
            final(self)@.wf(),
            session_forwarded_as(
                Operation::GetUserAccess,
                conn_info,
                old(self)@,
                final(self)@,
                outcome,
            ),
    {
        self.forward_session(Operation::GetUserAccess, conn_info)
    }

    /// Asks for the description of signals.
    pub fn get_signal_info<B>(
        &mut self,
        conn_info: Option<&ConnectInfo>,
        request: KeyedRequest<B>,
    ) -> (outcome: Result<BackendCall<KeyedRequest<B>>, Rejection>)
        ensures
            final(self)@.wf(),
            request.forwarded_as(
                Operation::GetSignalInfo,
                conn_info,
                old(self)@,
                final(self)@,
                outcome,
            ),
    {
        self.forward_with_identity(Operation::GetSignalInfo, conn_info, request)
    }

    /// Asks for the description of controls.
    pub fn get_control_info<B>(
        &mut self,
        conn_info: Option<&ConnectInfo>,
        request: KeyedRequest<B>,
    ) -> (outcome: Result<BackendCall<KeyedRequest<B>>, Rejection>)
        ensures
            final(self)@.wf(),
            request.forwarded_as(
                Operation::GetControlInfo,
                conn_info,
                old(self)@,
                final(self)@,
                outcome,
            ),
    {
        self.forward_with_identity(Operation::GetControlInfo, conn_info, request)
    }

    /// Starts a batch session for the caller.
    pub fn start_batch<B>(
        &mut self,
        conn_info: Option<&ConnectInfo>,
        request: KeyedRequest<B>,
    ) -> (outcome: Result<BackendCall<KeyedRequest<B>>, Rejection>)
        ensures
            final(self)@.wf(),
            request.forwarded_as(
                Operation::StartBatch,
                conn_info,
                old(self)@,
                final(self)@,
                outcome,
            ),
    {
        self.forward_with_identity(Operation::StartBatch, conn_info, request)
    }

    /// Stops a batch session of the caller.
    pub fn stop_batch<B>(
        &mut self,
        conn_info: Option<&ConnectInfo>,
        request: KeyedRequest<B>,
    ) -> (outcome: Result<BackendCall<KeyedRequest<B>>, Rejection>)
        ensures
            final(self)@.wf(),
            request.forwarded_as(
                Operation::StopBatch,
                conn_info,
                old(self)@,
                final(self)@,
                outcome,
            ),
    {
        self.forward_with_identity(Operation::StopBatch, conn_info, request)
    }

    /// Reads one signal for the caller.
    pub fn read_signal<B>(
        &mut self,
        conn_info: Option<&ConnectInfo>,
        request: KeyedRequest<B>,
    ) -> (outcome: Result<BackendCall<KeyedRequest<B>>, Rejection>)
        ensures
            final(self)@.wf(),
            request.forwarded_as(
                Operation::ReadSignal,
                conn_info,
                old(self)@,
                final(self)@,
                outcome,
            ),
    {
        self.forward_with_identity(Operation::ReadSignal, conn_info, request)
    }

    /// Writes one control for the caller.
    pub fn write_control<B>(
        &mut self,
        conn_info: Option<&ConnectInfo>,
        request: KeyedRequest<B>,
    ) -> (outcome: Result<BackendCall<KeyedRequest<B>>, Rejection>)
        ensures
            final(self)@.wf(),
            request.forwarded_as(
                Operation::WriteControl,
                conn_info,
                old(self)@,
                final(self)@,
                outcome,
            ),
    {
        self.forward_with_identity(Operation::WriteControl, conn_info, request)
    }

    /// Fetches the topology cache. The request has no identity field: it
    /// reaches the backend as it came, and the call is accepted whoever the
    /// caller is and whether or not its credentials can be read.
    pub fn topo_get_cache<Q>(&mut self, request: Q) -> (outcome: Result<BackendCall<Q>, Rejection>)
        ensures
            final(self)@.wf(),
            passed_through_as(
                Operation::TopoGetCache,
                request,
                old(self)@,
                final(self)@,
                outcome,
            ),
    {
        self.forward_unchanged(Operation::TopoGetCache, request)
    }

    /// Starts profiling for the caller.
    pub fn start_profile<B>(
        &mut self,
        conn_info: Option<&ConnectInfo>,
        request: KeyedRequest<B>,
    ) -> (outcome: Result<BackendCall<KeyedRequest<B>>, Rejection>)
        ensures
            final(self)@.wf(),
            request.forwarded_as(
                Operation::StartProfile,
                conn_info,
                old(self)@,
                final(self)@,
                outcome,
            ),
    {
        self.forward_with_identity(Operation::StartProfile, conn_info, request)
    }

    /// Stops profiling for the caller.
    pub fn stop_profile<B>(
        &mut self,
        conn_info: Option<&ConnectInfo>,
        request: KeyedRequest<B>,
    ) -> (outcome: Result<BackendCall<KeyedRequest<B>>, Rejection>)
        ensures
            final(self)@.wf(),
            request.forwarded_as(
                Operation::StopProfile,
                conn_info,
                old(self)@,
                final(self)@,
                outcome,
            ),
    {
        self.forward_with_identity(Operation::StopProfile, conn_info, request)
    }

    /// Asks for the processes of a profile.
    pub fn get_profile_pids<B>(
        &mut self,
        conn_info: Option<&ConnectInfo>,
        request: KeyedRequest<B>,
    ) -> (outcome: Result<BackendCall<KeyedRequest<B>>, Rejection>)
        ensures
            final(self)@.wf(),
            request.forwarded_as(
                Operation::GetProfilePids,
                conn_info,
                old(self)@,
                final(self)@,
                outcome,
            ),
    {
        self.forward_with_identity(Operation::GetProfilePids, conn_info, request)
    }

    /// Takes the region names that a profile has gathered.
    pub fn pop_profile_region_names<B>(
        &mut self,
        conn_info: Option<&ConnectInfo>,
        request: KeyedRequest<B>,
    ) -> (outcome: Result<BackendCall<KeyedRequest<B>>, Rejection>)
        ensures
            final(self)@.wf(),
            request.forwarded_as(
                Operation::PopProfileRegionNames,
                conn_info,
                old(self)@,
                final(self)@,
                outcome,
            ),
    {
        self.forward_with_identity(Operation::PopProfileRegionNames, conn_info, request)
    }

    /// Ends a call. Gives the connection back on behalf of `ticket`, names
    /// the ticket whose request is to be sent next, and returns the
    /// backend's `reply` for the caller as it is, a response and an error
    /// alike. Only the holder can give the connection back: for any other
    /// ticket the counters of the handle stay as they were.
    pub fn complete<R, E>(&mut self, ticket: u64, reply: Result<R, E>) -> (done: Completion<R, E>)
        ensures
            final(self)@.wf(),
            done.reply == reply,
            final(self)@ == old(self)@.step(HandleEvent::Release(ticket as nat)),
            done.next is Ok <==> old(self)@.frees(HandleEvent::Release(ticket as nat)),
            done.next matches Ok(turn) ==> match turn {
                Some(t) => old(self)@.grants(HandleEvent::Release(ticket as nat)) == Some(t as nat),
                None => old(self)@.grants(HandleEvent::Release(ticket as nat)) is None,
            },
    {
        let next = self.handle.release(ticket);
        Completion { reply, next }
    }

    /// Lets the turn of `ticket` pass without a reply, for a call whose
    /// caller has gone away. While the ticket holds the connection this
    /// gives the connection back and names the ticket to go ahead next; for
    /// a ticket that holds nothing the counters stay as they are.
    pub fn abandon(&mut self, ticket: u64) -> (next: Result<Option<u64>, NotHolder>)
        ensures
            final(self)@.wf(),
            final(self)@ == old(self)@.step(HandleEvent::Release(ticket as nat)),
            next is Ok <==> old(self)@.frees(HandleEvent::Release(ticket as nat)),
            next matches Ok(turn) ==> match turn {
                Some(t) => old(self)@.grants(HandleEvent::Release(ticket as nat)) == Some(t as nat),
                None => old(self)@.grants(HandleEvent::Release(ticket as nat)) is None,
            },
    {
        self.handle.release(ticket)
    }
}

/// A forwarded request carries the identity of the peer that the kernel
/// reported for the connection, whatever the caller wrote into it, and the
/// proxy turns such a caller down only when the tickets have run out.
pub proof fn lemma_forwarded_identity_is_the_peers<B>(
    inbound: KeyedRequest<B>,
    operation: Operation,
    uid: u32,
    pid: i32,
    pre: HandleView,
    post: HandleView,
    outcome: Result<BackendCall<KeyedRequest<B>>, Rejection>,
)
    requires
        inbound.forwarded_as(
            operation,
            Some(&ConnectInfo { peer_cred: Some(PeerCredentials { uid, pid: Some(pid) }) }),
            pre,
            post,
            outcome,
        ),
    ensures
        outcome matches Ok(call) ==> {
            &&& call.request.session_key matches Some(key)
            &&& key@ == token(uid, pid)
            &&& call.request.body == inbound.body
        },
        outcome matches Err(reason) ==> reason == Rejection::TicketsExhausted && pre.issued
            >= u64::MAX,
{
}

/// What holds of requests with an identity field holds of the requests that
/// consist of an identity alone: the backend gets the identity of the peer
/// that the kernel reported.
pub proof fn lemma_session_identity_is_the_peers(
    operation: Operation,
    uid: u32,
    pid: i32,
    pre: HandleView,
    post: HandleView,
    outcome: Result<BackendCall<SessionKey>, Rejection>,
)
    requires
        session_forwarded_as(
            operation,
            Some(&ConnectInfo { peer_cred: Some(PeerCredentials { uid, pid: Some(pid) }) }),
            pre,
            post,
            outcome,
        ),
    ensures
        outcome matches Ok(call) ==> call.request@ == token(uid, pid),
        outcome matches Err(reason) ==> reason == Rejection::TicketsExhausted && pre.issued
            >= u64::MAX,
{
}

/// The identity that the caller wrote into a request has no part in what the
/// backend gets: two requests that differ in nothing else are answered alike.
pub proof fn lemma_caller_identity_is_ignored<B>(
    first: KeyedRequest<B>,
    second: KeyedRequest<B>,
    operation: Operation,
    conn_info: Option<&ConnectInfo>,
    pre: HandleView,
    post: HandleView,
    outcome: Result<BackendCall<KeyedRequest<B>>, Rejection>,
)
    requires
        first.body == second.body,
        first.forwarded_as(operation, conn_info, pre, post, outcome),
    ensures
        second.forwarded_as(operation, conn_info, pre, post, outcome),
{
}

/// Two callers get the same identity from the proxy only if the kernel
/// reports the same user id and the same process id for both.
pub proof fn lemma_identities_tell_peers_apart(first: ConnectInfo, second: ConnectInfo)
    requires
        caller_identity(Some(&first)) is Ok,
        caller_identity(Some(&first)) == caller_identity(Some(&second)),
    ensures
        first == second,
{
    let a = first.peer_cred->Some_0;
    let b = second.peer_cred->Some_0;
    lemma_token_injective(a.uid, a.pid->Some_0, b.uid, b.pid->Some_0);
}

/// A request without identity field is accepted whatever is known of the
/// caller, and reaches the backend unchanged: the answer to it is the same
/// for every caller.
pub proof fn lemma_passed_through_unchanged<Q>(
    operation: Operation,
    request: Q,
    pre: HandleView,
    post: HandleView,
    outcome: Result<BackendCall<Q>, Rejection>,
)
    requires
        passed_through_as(operation, request, pre, post, outcome),
    ensures
        outcome matches Ok(call) ==> call.request == request,
        outcome is Err <==> pre.issued >= u64::MAX,
{
}

} // verus!
