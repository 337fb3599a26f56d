//! The order in which calls share the single backend connection.
//!
//! The handle works like the ticket counter of a waiting room. A call draws a
//! ticket when it wants the connection; the connection goes to the tickets in
//! the order drawn, one at a time, and passes on only when its holder gives it
//! back. No ticket is skipped, and every ticket gets its turn.
//!
//! The state of the handle is two counters. Its model keeps beside them
//! everything that has happened at the handle, so that what is said of the
//! counters can be held against the course of events: who was handed the
//! connection, in which order, and how many hold it at once.

use vstd::prelude::*;

verus! {

/// What can happen at the handle.
pub enum HandleEvent {
    /// A call draws a ticket.
    Acquire,
    /// The call with this ticket gives the connection back.
    Release(nat),
}

/// The state of the handle. Tickets below `serving` have given the
/// connection back, tickets from `serving` up to `issued` are live.
pub struct HandleView {
    /// The first ticket that the handle gave or will give out.
    pub first: nat,
    /// The events at the handle so far, oldest first.
    pub history: Seq<HandleEvent>,
    /// The ticket whose turn it is.
    pub serving: nat,
    /// The ticket that is drawn next.
    pub issued: nat,
}

impl HandleView {
    /// The state of a handle whose first ticket is `first`, before anything
    /// has happened.
    pub open spec fn fresh(first: nat) -> HandleView {
        HandleView { first, history: Seq::empty(), serving: first, issued: first }
    }

    /// Nobody holds the connection.
    pub open spec fn idle(self) -> bool {
        self.serving >= self.issued
    }

    /// The ticket that holds the connection.
    pub open spec fn holder(self) -> Option<nat> {
        if self.serving < self.issued {
            Some(self.serving)
        } else {
            None
        }
    }

    /// The tickets that wait for the connection, next in line first.
    pub open spec fn waiting(self) -> Seq<nat> {
        if self.serving + 1 < self.issued {
            Seq::new(
                (self.issued - self.serving - 1) as nat,
                |i: int| (self.serving + 1 + i) as nat,
            )
        } else {
            Seq::empty()
        }
    }

    /// The ticket to which `event` hands the connection, if it hands it to any.
    pub open spec fn grants(self, event: HandleEvent) -> Option<nat> {
        match event {
            HandleEvent::Acquire => if self.idle() {
                Some(self.issued)
            } else {
                None
            },
            HandleEvent::Release(ticket) => if self.holder() == Some(ticket) && self.serving + 1
                < self.issued {
                Some(self.serving + 1)
            } else {
                None
            },
        }
    }

    /// Whether `event` takes the connection from its holder.
    pub open spec fn frees(self, event: HandleEvent) -> bool {
        event matches HandleEvent::Release(ticket) && self.holder() == Some(ticket)
    }

    /// The state after `event`. Drawing a ticket moves `issued` on, giving
    /// the connection back moves `serving` on, and giving back a connection
    /// that the ticket does not hold moves neither.
    pub open spec fn step(self, event: HandleEvent) -> HandleView {
        HandleView {
            first: self.first,
            history: self.history.push(event),
            serving: if self.frees(event) {
                self.serving + 1
            } else {
                self.serving
            },
            issued: if event is Acquire {
                self.issued + 1
            } else {
                self.issued
            },
        }
    }

    /// What a call that draws a ticket in this state is told: its ticket,
    /// and whether the connection is its own at once.
    pub open spec fn admission(self) -> Admission {
        if self.grants(HandleEvent::Acquire) is Some {
            Admission::Granted(self.issued as u64)
        } else {
            Admission::Queued(self.issued as u64)
        }
    }

    /// The state after the holder, and then each holder after it, has
    /// given the connection back, `count` of them in all.
    pub open spec fn after_releases(self, count: nat) -> HandleView
        decreases count,
    {
        if count == 0 {
            self
        } else {
            self.step(HandleEvent::Release(self.serving)).after_releases((count - 1) as nat)
        }
    }

    /// The counters are those that the history has led to.
    pub open spec fn wf(self) -> bool {
        self == run(self.first, self.history)
    }

    /// The tickets to which the connection has been handed so far, in the
    /// order in which they got it.
    pub open spec fn granted(self) -> Seq<nat> {
        granted(self.first, self.history)
    }

    /// How often the connection has been given back so far.
    pub open spec fn returned(self) -> nat {
        returned(self.first, self.history)
    }

    /// The number of calls that hold the connection: those that were handed
    /// it and have not given it back.
    pub open spec fn in_flight(self) -> int {
        self.granted().len() - self.returned()
    }
}

/// The state that a history of events leaves behind on a handle whose first
/// ticket is `first`.
pub open spec fn run(first: nat, history: Seq<HandleEvent>) -> HandleView
    decreases history.len(),
{
    if history.len() == 0 {
        HandleView::fresh(first)
    } else {
        run(first, history.drop_last()).step(history.last())
    }
}

/// The tickets to which the connection was handed in the course of a
/// history, in the order in which they got it.
pub open spec fn granted(first: nat, history: Seq<HandleEvent>) -> Seq<nat>
    decreases history.len(),
{
    if history.len() == 0 {
        Seq::empty()
    } else {
        let earlier = history.drop_last();
        match run(first, earlier).grants(history.last()) {
            Some(ticket) => granted(first, earlier).push(ticket),
            None => granted(first, earlier),
        }
    }
}

/// How often the connection was given back in the course of a history.
pub open spec fn returned(first: nat, history: Seq<HandleEvent>) -> nat
    decreases history.len(),
{
    if history.len() == 0 {
        0
    } else {
        let earlier = history.drop_last();
        if run(first, earlier).frees(history.last()) {
            returned(first, earlier) + 1
        } else {
            returned(first, earlier)
        }
    }
}

/// A state that its history has led to stays so with every further event.
pub proof fn lemma_step_keeps_wf(state: HandleView, event: HandleEvent)
    requires
        state.wf(),
    ensures
        state.step(event).wf(),
{
    assert(state.history.push(event).drop_last() =~= state.history);
}

/// In a state that its history has led to, the counters are in order, every
/// ticket below the one being served has had and returned the connection,
/// and the ticket being served, if it is live, has been handed the
/// connection.
pub proof fn lemma_history_counts(state: HandleView)
    requires
        state.wf(),
    ensures
        state.first <= state.serving <= state.issued,
        state.first + state.returned() == state.serving,
        state.first + state.granted().len() == if state.idle() {
            state.serving
        } else {
            state.serving + 1
        },
    decreases state.history.len(),
{
    if state.history.len() > 0 {
        let earlier = run(state.first, state.history.drop_last());
        lemma_run_keeps_history(state.first, state.history.drop_last());
        lemma_history_counts(earlier);
    }
}

/// The state that a history leads to remembers the history.
pub proof fn lemma_run_keeps_history(first: nat, history: Seq<HandleEvent>)
    ensures
        run(first, history).first == first,
        run(first, history).history == history,
        run(first, history).wf(),
    decreases history.len(),
{
    if history.len() > 0 {
        lemma_run_keeps_history(first, history.drop_last());
        assert(history.drop_last().push(history.last()) =~= history);
    }
}

/// At most one call holds the backend connection at any time, whatever calls
/// arrive and in whatever order they finish; and exactly one holds it
/// whenever a ticket is live.
pub proof fn lemma_one_call_in_flight(state: HandleView)
    requires
        state.wf(),
    ensures
        0 <= state.in_flight() <= 1,
        state.in_flight() == 1 <==> state.holder() is Some,
{
    lemma_history_counts(state);
}

/// The connection is handed out strictly in the order in which the tickets
/// were drawn: the first call served holds the first ticket, the next call
/// the ticket after it, and so on without a gap.
pub proof fn lemma_served_in_ticket_order(state: HandleView)
    requires
        state.wf(),
    ensures
        forall|k: int|
            0 <= k < state.granted().len() ==> #[trigger] state.granted()[k] == state.first + k,
    decreases state.history.len(),
{
    if state.history.len() > 0 {
        let earlier = run(state.first, state.history.drop_last());
        lemma_run_keeps_history(state.first, state.history.drop_last());
        lemma_served_in_ticket_order(earlier);
        lemma_history_counts(earlier);
    }
}

/// Every live ticket gets its turn: once the tickets before it have given
/// the connection back, each in its turn, the connection is its own.
pub proof fn lemma_turn_comes(state: HandleView, ticket: nat)
    requires
        state.serving <= ticket < state.issued,
    ensures
        state.after_releases((ticket - state.serving) as nat).holder() == Some(ticket),
        state.after_releases((ticket - state.serving) as nat).issued == state.issued,
    decreases ticket - state.serving,
{
    if ticket > state.serving {
        lemma_turn_comes(state.step(HandleEvent::Release(state.serving)), ticket);
    }
}

/// What a call learns when it draws a ticket.
#[derive(Clone, Copy, Debug, PartialEq, Eq, Structural)]
pub enum Admission {
    /// The connection was free: the call holds it now.
    Granted(u64),
    /// The connection is in use: the call waits until its ticket comes up.
    Queued(u64),
}

impl Admission {
    /// The ticket drawn.
    pub open spec fn spec_ticket(&self) -> u64 {
        match *self {
            Admission::Granted(t) => t,
            Admission::Queued(t) => t,
        }
    }

    /// The ticket drawn.
    #[verifier::when_used_as_spec(spec_ticket)]
    pub fn ticket(&self) -> (t: u64)
        ensures
            t == self.spec_ticket(),
    {
        match self {
            Admission::Granted(t) => *t,
            Admission::Queued(t) => *t,
        }
    }
}

/// The error of giving back a connection that the ticket does not hold.
#[derive(Clone, Copy, Debug, PartialEq, Eq, Structural)]
pub struct NotHolder;

/// The shared handle to the backend connection.
pub struct BackendHandle {
    serving: u64,
    issued: u64,
    first: Ghost<nat>,
    history: Ghost<Seq<HandleEvent>>,
}

impl View for BackendHandle {
    type V = HandleView;

    closed spec fn view(&self) -> HandleView {
        HandleView {
            first: self.first@,
            history: self.history@,
            serving: self.serving as nat,
            issued: self.issued as nat,
        }
    }
}

impl BackendHandle {
    /// Every handle is in a state that its history has led to.
    #[verifier::type_invariant]
    pub open spec fn inv(self) -> bool {
        self@.wf()
    }

    /// A handle that nobody holds and nobody waits for. Its first ticket
    /// is 0.
    pub fn new() -> (handle: BackendHandle)
        ensures
            handle@ == HandleView::fresh(0),
    {
        BackendHandle { serving: 0, issued: 0, first: Ghost(0), history: Ghost(Seq::empty()) }
    }

    /// A handle that nobody holds and nobody waits for, and whose first
    /// ticket is `first`.
    pub fn starting_at(first: u64) -> (handle: BackendHandle)
        ensures
            handle@ == HandleView::fresh(first as nat),
    {
        BackendHandle {
            serving: first,
            issued: first,
            first: Ghost(first as nat),
            history: Ghost(Seq::empty()),
        }
    }

    /// Draws a ticket for a call. The call holds the connection at once if
    /// nobody else does, and waits behind all earlier tickets otherwise.
    /// Returns `None`, and changes nothing, once the tickets have run out.
    pub fn acquire(&mut self) -> (admission: Option<Admission>)
        ensures
            old(self)@.wf(),
            final(self)@.wf(),
            old(self)@.issued >= u64::MAX ==> admission is None && final(self)@ == old(self)@,
            old(self)@.issued < u64::MAX ==> {
                &&& final(self)@ == old(self)@.step(HandleEvent::Acquire)
                &&& admission == Some(old(self)@.admission())
            },
    {
        proof {
            use_type_invariant(&*self);
            lemma_history_counts(self@);
        }
        if self.issued == u64::MAX {
            return None;
        }
        let ticket = self.issued;
        let free = self.serving == self.issued;
        proof {
            lemma_step_keeps_wf(self@, HandleEvent::Acquire);
        }
        *self = BackendHandle {
            serving: self.serving,
            issued: ticket + 1,
            first: self.first,
            history: Ghost(self.history@.push(HandleEvent::Acquire)),
        };
        if free {
            Some(Admission::Granted(ticket))
        } else {
            Some(Admission::Queued(ticket))
        }
    }

    /// Gives the connection back on behalf of `ticket` and passes it to the
    /// next ticket in line, which is returned. Only the holder can give the
    /// connection back: for any other ticket the counters stay as they are.
    pub fn release(&mut self, ticket: u64) -> (next: Result<Option<u64>, NotHolder>)
        ensures
            old(self)@.wf(),
            final(self)@.wf(),
            final(self)@ == old(self)@.step(HandleEvent::Release(ticket as nat)),
            next is Ok <==> old(self)@.frees(HandleEvent::Release(ticket as nat)),
            next matches Ok(turn) ==> match turn {
                Some(t) => old(self)@.grants(HandleEvent::Release(ticket as nat)) == Some(t as nat),
                None => old(self)@.grants(HandleEvent::Release(ticket as nat)) is None,
            },
    {
        proof {
            use_type_invariant(&*self);
            lemma_history_counts(self@);
            lemma_step_keeps_wf(self@, HandleEvent::Release(ticket as nat));
        }
        let held = self.serving < self.issued && ticket == self.serving;
        *self = BackendHandle {
            serving: if held {
                ticket + 1
            } else {
                self.serving
            },
            issued: self.issued,
            first: self.first,
            history: Ghost(self.history@.push(HandleEvent::Release(ticket as nat))),
        };
        if !held {
            Err(NotHolder)
        } else if self.serving < self.issued {
            Ok(Some(self.serving))
        } else {
            Ok(None)
        }
    }

    /// The ticket that holds the connection, if any.
    pub fn holder(&self) -> (ticket: Option<u64>)
        ensures
            self@.wf(),
            match ticket {
                Some(t) => self@.holder() == Some(t as nat),
                None => self@.holder() is None,
            },
    {
        proof {
            use_type_invariant(self);
        }
        if self.serving < self.issued {
            Some(self.serving)
        } else {
            None
        }
    }

    /// The number of calls that wait for the connection.
    pub fn waiting(&self) -> (count: u64)
        ensures
            self@.wf(),
            count == self@.waiting().len(),
    {
        proof {
            use_type_invariant(self);
            lemma_history_counts(self@);
        }
        if self.serving < self.issued {
            self.issued - self.serving - 1
        } else {
            0
        }
    }
}

} // verus!
