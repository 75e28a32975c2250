//! The course of one client session, as a machine: the proxy performs each
//! action that the machine asks for and reports what came of it.
//!
//! A session begins in [`SessionState::Accepted`], with the first read from
//! the client under way. Each [`SessionEvent`] is answered with the next state
//! and one [`SessionAction`]. An action that comes with the state
//! [`SessionState::Closed`] is the last of the session.

use crate::proxy::faulter::check_result;
use crate::proxy::faulter::fault_step;
use crate::proxy::faulter::request_command;
use crate::proxy::faulter::FaultStep;
use crate::proxy::faulter::FaultStepView;
use crate::proxy::faulter::Faulter;
use crate::proxy::resp_util::chosen_host;
use crate::proxy::resp_util::get_host_name;
use crate::proxy::resp_util::url_host;
use crate::proxy::resp_util::RespErrors;
use crate::store::fault_store::has_fault_for;
use crate::store::fault_store::opt_view;
use crate::store::fault_store::Fault;
use crate::store::fault_store::FaultStore;
use crate::store::fault_store::FaultView;
use crate::store::fault_store::Records;
use crate::text::utf8_text;
use vstd::prelude::*;
use vstd::string::StringSliceAdditionalSpecFns;
use vstd::utf8::valid_utf8;

verus! {

/// Where a session stands.
#[derive(Debug, PartialEq, Eq)]
pub enum SessionState {
    /// The client has connected; its first request is awaited.
    Accepted,
    /// A delay fault holds the request back.
    Delaying(Vec<u8>),
    /// The connection to the server is being opened for the request.
    Connecting(Vec<u8>),
    /// Bytes are copied both ways; each flag says whether that side's write
    /// half is still open.
    Forwarding { client_open: bool, upstream_open: bool },
    /// The session is over.
    Closed,
}

/// What the proxy reports to the machine.
#[derive(Debug, PartialEq, Eq)]
pub enum SessionEvent {
    /// The first read from the client returned these bytes; none at all
    /// where the client closed without sending.
    Received(Vec<u8>),
    /// The first read from the client failed.
    ReceiveFailed,
    /// The wait that was asked for is over.
    TimerFired,
    /// The connection to the server stands.
    Connected,
    /// The server could not be reached.
    ConnectFailed,
    /// The copy from the client to the server has ended.
    ClientDrained,
    /// The copy from the server to the client has ended.
    UpstreamDrained,
}

/// What the machine asks the proxy to do.
#[derive(Debug, PartialEq, Eq)]
pub enum SessionAction {
    /// Wait for so many milliseconds, then report `TimerFired`.
    Sleep(u64),
    /// Write the bytes to the client and close the client's write half.
    Reply(Vec<u8>),
    /// Close the client's write half without writing.
    Hangup,
    /// Open the connection to the server at `address`, inside TLS for the
    /// host `tls_host` where there is one, within a bounded time. Report
    /// `Connected` or `ConnectFailed`.
    Connect { address: String, tls_host: Option<String> },
    /// Write the bytes to the server, then copy what the client sends to the
    /// server and what the server sends to the client. Report the end of each
    /// copy.
    Splice(Vec<u8>),
    /// Close the server's write half.
    CloseUpstream,
    /// Close the client's write half.
    CloseClient,
    /// Nothing is left to do but to let go of the session.
    Release,
}

/// A [`SessionState`] as mathematical values.
pub enum StateView {
    Accepted,
    Delaying(Seq<u8>),
    Connecting(Seq<u8>),
    Forwarding { client_open: bool, upstream_open: bool },
    Closed,
}

/// A [`SessionEvent`] as mathematical values.
pub enum EventView {
    Received(Seq<u8>),
    ReceiveFailed,
    TimerFired,
    Connected,
    ConnectFailed,
    ClientDrained,
    UpstreamDrained,
}

/// A [`SessionAction`] as mathematical values.
pub enum ActionView {
    Sleep(u64),
    Reply(Seq<u8>),
    Hangup,
    Connect { address: Seq<char>, tls_host: Option<Seq<char>> },
    Splice(Seq<u8>),
    CloseUpstream,
    CloseClient,
    Release,
}

impl View for SessionState {
    type V = StateView;

    open spec fn view(&self) -> StateView {
        match *self {
            SessionState::Accepted => StateView::Accepted,
            SessionState::Delaying(request) => StateView::Delaying(request@),
            SessionState::Connecting(request) => StateView::Connecting(request@),
            SessionState::Forwarding { client_open, upstream_open } => StateView::Forwarding {
                client_open,
                upstream_open,
            },
            SessionState::Closed => StateView::Closed,
        }
    }
}

impl View for SessionEvent {
    type V = EventView;

    open spec fn view(&self) -> EventView {
        match *self {
            SessionEvent::Received(bytes) => EventView::Received(bytes@),
            SessionEvent::ReceiveFailed => EventView::ReceiveFailed,
            SessionEvent::TimerFired => EventView::TimerFired,
            SessionEvent::Connected => EventView::Connected,
            SessionEvent::ConnectFailed => EventView::ConnectFailed,
            SessionEvent::ClientDrained => EventView::ClientDrained,
            SessionEvent::UpstreamDrained => EventView::UpstreamDrained,
        }
    }
}

impl View for SessionAction {
    type V = ActionView;

    open spec fn view(&self) -> ActionView {
        match *self {
            SessionAction::Sleep(ms) => ActionView::Sleep(ms),
            SessionAction::Reply(bytes) => ActionView::Reply(bytes@),
            SessionAction::Hangup => ActionView::Hangup,
            SessionAction::Connect { address, tls_host } => ActionView::Connect {
                address: address@,
                tls_host: match tls_host {
                    Some(host) => Some(host@),
                    None => None,
                },
            },
            SessionAction::Splice(bytes) => ActionView::Splice(bytes@),
            SessionAction::CloseUpstream => ActionView::CloseUpstream,
            SessionAction::CloseClient => ActionView::CloseClient,
            SessionAction::Release => ActionView::Release,
        }
    }
}

impl ActionView {
    /// Whether the action reaches out to the server.
    pub open spec fn contacts_upstream(self) -> bool {
        self is Connect || self is Splice || self is CloseUpstream
    }
}

/// Where sessions are forwarded to.
#[derive(Debug)]
pub struct Connection {
    server_addr: String,
    is_tls_conn: bool,
}

/// A [`Connection`] as mathematical values.
pub struct ConnectionView {
    pub server_addr: Seq<char>,
    pub is_tls_conn: bool,
}

impl View for Connection {
    type V = ConnectionView;

    closed spec fn view(&self) -> ConnectionView {
        ConnectionView { server_addr: self.server_addr@, is_tls_conn: self.is_tls_conn }
    }
}

/// The host that the TLS handshake names, for a server that is reached
/// through TLS: `Err` where the address yields none. `Ok(None)` for a server
/// that is reached without TLS.
pub open spec fn tls_host(conn: ConnectionView) -> Result<Option<Seq<char>>, ()> {
    if conn.is_tls_conn {
        match chosen_host(url_host(conn.server_addr), url_host("redis://"@ + conn.server_addr)) {
            Ok(host) => Ok(Some(host)),
            Err(_) => Err(()),
        }
    } else {
        Ok(None)
    }
}

/// The step that opens the way to the server for a request: the session
/// waits for the connection, or ends where TLS is asked for and the address
/// yields no host.
pub open spec fn open_upstream(conn: ConnectionView, request: Seq<u8>) -> (StateView, ActionView) {
    match tls_host(conn) {
        Ok(host) => (
            StateView::Connecting(request),
            ActionView::Connect { address: conn.server_addr, tls_host: host },
        ),
        Err(_) => (StateView::Closed, ActionView::Hangup),
    }
}

/// What the check of a request's fault comes to for the session: the step
/// that the fault asks for, or none where the check or the fault failed.
pub open spec fn plan_of(checked: Result<Option<FaultView>, RespErrors>) -> Option<FaultStepView> {
    match checked {
        Err(_) => None,
        Ok(found) => match fault_step(found) {
            Ok(step) => Some(step),
            Err(_) => None,
        },
    }
}

/// The step on a first request, given what the check of its fault came to.
pub open spec fn on_request(conn: ConnectionView, request: Seq<u8>, plan: Option<FaultStepView>) -> (
    StateView,
    ActionView,
) {
    match plan {
        None => (StateView::Closed, ActionView::Hangup),
        Some(FaultStepView::Proceed) => open_upstream(conn, request),
        Some(FaultStepView::Sleep(ms)) => (StateView::Delaying(request), ActionView::Sleep(ms)),
        Some(FaultStepView::Reply(bytes)) => (StateView::Closed, ActionView::Reply(bytes)),
        Some(FaultStepView::Hangup) => (StateView::Closed, ActionView::Hangup),
    }
}

/// Whether the event is a first request that the fault plan is consulted
/// for: bytes, and valid text.
pub open spec fn consults(state: StateView, event: EventView) -> bool {
    state is Accepted && (event matches EventView::Received(bytes) && bytes.len() > 0 && valid_utf8(
        bytes,
    ))
}

/// The step on every event for which the fault plan is not consulted.
pub open spec fn plain_step(conn: ConnectionView, state: StateView, event: EventView) -> (
    StateView,
    ActionView,
) {
    match (state, event) {
        (StateView::Closed, _) => (StateView::Closed, ActionView::Release),
        (StateView::Accepted, EventView::Received(bytes)) => if bytes.len() == 0 {
            (StateView::Closed, ActionView::Release)
        } else {
            (StateView::Closed, ActionView::Hangup)
        },
        (StateView::Accepted, EventView::ReceiveFailed) => (StateView::Closed, ActionView::Release),
        (StateView::Delaying(request), EventView::TimerFired) => open_upstream(conn, request),
        (StateView::Connecting(request), EventView::Connected) => (
            StateView::Forwarding { client_open: true, upstream_open: true },
            ActionView::Splice(request),
        ),
        (StateView::Connecting(_), EventView::ConnectFailed) => (
            StateView::Closed,
            ActionView::Release,
        ),
        (
            StateView::Forwarding { client_open, upstream_open: true },
            EventView::ClientDrained,
        ) => (
            if client_open {
                StateView::Forwarding { client_open: true, upstream_open: false }
            } else {
                StateView::Closed
            },
            ActionView::CloseUpstream,
        ),
        (
            StateView::Forwarding { client_open: true, upstream_open },
            EventView::UpstreamDrained,
        ) => (
            if upstream_open {
                StateView::Forwarding { client_open: false, upstream_open: true }
            } else {
                StateView::Closed
            },
            ActionView::CloseClient,
        ),
        _ => (StateView::Closed, ActionView::Hangup),
    }
}

/// Whether the machine may answer `event` in `state` with `next` and
/// `action`, over a store with the given records.
///
/// The answer is fixed by the state and the event, but for a first request:
/// there it is fixed by the fault that the store finds for the request's
/// command, and a store that holds several for one command may find any.
pub open spec fn steps(
    conn: ConnectionView,
    records: Records,
    dependable: bool,
    state: StateView,
    event: EventView,
    next: StateView,
    action: ActionView,
) -> bool {
    if consults(state, event) {
        exists|checked: Result<Option<Fault>, RespErrors>|
            #[trigger] check_result(
                records,
                dependable,
                request_command(event->Received_0),
                checked,
            ) && (next, action) == on_request(
                conn,
                event->Received_0,
                plan_of(checked_view(checked)),
            )
    } else {
        (next, action) == plain_step(conn, state, event)
    }
}

/// The view of what a check came to.
pub open spec fn checked_view(checked: Result<Option<Fault>, RespErrors>) -> Result<
    Option<FaultView>,
    RespErrors,
> {
    match checked {
        Ok(found) => Ok(opt_view(found)),
        Err(e) => Err(e),
    }
}

impl Connection {
    /// A connection handler for the server at `server_addr`, reached through
    /// TLS where `is_tls_conn` is set.
    pub fn new(server_addr: String, is_tls_conn: bool) -> (conn: Self)
        ensures
            conn@ == (ConnectionView { server_addr: server_addr@, is_tls_conn }),
    {
        Connection { server_addr, is_tls_conn }
    }

    /// The state in which every session begins.
    pub fn accepted() -> (state: SessionState)
        ensures
            state@ == StateView::Accepted,
    {
        SessionState::Accepted
    }

    /// Opens the way to the server for a request.
    fn open_upstream(&self, request: Vec<u8>) -> (r: (SessionState, SessionAction))
        ensures
            (r.0@, r.1@) == open_upstream(self@, request@),
    {
        let host = if self.is_tls_conn {
            match get_host_name(self.server_addr.as_str()) {
                Ok(host) => Some(host),
                Err(_) => {
                    return (SessionState::Closed, SessionAction::Hangup);
                },
            }
        } else {
            None
        };
        (
            SessionState::Connecting(request),
            SessionAction::Connect { address: self.server_addr.clone(), tls_host: host },
        )
    }

    /// The step on a first request, given what the faulter's step for it is,
    /// or that there is none.
    pub fn on_request(&self, request: Vec<u8>, plan: Option<FaultStep>) -> (r: (
        SessionState,
        SessionAction,
    ))
        ensures
            (r.0@, r.1@) == on_request(
                self@,
                request@,
                match plan {
                    Some(step) => Some(step@),
                    None => None,
                },
            ),
    {
        match plan {
            None => (SessionState::Closed, SessionAction::Hangup),
            Some(FaultStep::Proceed) => self.open_upstream(request),
            Some(FaultStep::Sleep(ms)) => (SessionState::Delaying(request), SessionAction::Sleep(ms)),
            Some(FaultStep::Reply(bytes)) => (SessionState::Closed, SessionAction::Reply(bytes)),
            Some(FaultStep::Hangup) => (SessionState::Closed, SessionAction::Hangup),
        }
    }

    /// Answers an event of a session: the next state, and the action that the
    /// proxy is to perform.
    ///
    /// The first request is checked against the fault plan; no later event
    /// is. Whatever does not belong to the state it arrives in ends the
    /// session.
    pub fn handle<S: FaultStore>(
        &self,
        faulter: &Faulter<S>,
        state: SessionState,
        event: SessionEvent,
    ) -> (r: (SessionState, SessionAction))
        ensures
            steps(
                self@,
                faulter.store().records(),
                faulter.store().dependable(),
                state@,
                event@,
                r.0@,
                r.1@,
            ),
    {
        match (state, event) {
            (SessionState::Closed, _) => (SessionState::Closed, SessionAction::Release),
            (SessionState::Accepted, SessionEvent::Received(bytes)) => {
                if bytes.len() == 0 {
                    return (SessionState::Closed, SessionAction::Release);
                }
                let checked = match utf8_text(bytes.as_slice()) {
                    Some(text) => faulter.check_fault(text),
                    None => {
                        return (SessionState::Closed, SessionAction::Hangup);
                    },
                };
                let ghost seen = checked;
                let plan = match checked {
                    Err(_) => None,
                    Ok(found) => match faulter.execute_fault(found) {
                        Ok(step) => Some(step),
                        Err(_) => None,
                    },
                };
                let r = self.on_request(bytes, plan);
                proof {
                    assert(check_result(
                        faulter.store().records(),
                        faulter.store().dependable(),
                        request_command(bytes@),
                        seen,
                    ));
                    assert((r.0@, r.1@) == on_request(self@, bytes@, plan_of(checked_view(seen))));
                }
                r
            },
            (SessionState::Accepted, SessionEvent::ReceiveFailed) => (
                SessionState::Closed,
                SessionAction::Release,
            ),
            (SessionState::Delaying(request), SessionEvent::TimerFired) => self.open_upstream(
                request,
            ),
            (SessionState::Connecting(request), SessionEvent::Connected) => (
                SessionState::Forwarding { client_open: true, upstream_open: true },
                SessionAction::Splice(request),
            ),
            (SessionState::Connecting(_), SessionEvent::ConnectFailed) => (
                SessionState::Closed,
                SessionAction::Release,
            ),
            (
                SessionState::Forwarding { client_open, upstream_open: true },
                SessionEvent::ClientDrained,
            ) => (
                if client_open {
                    SessionState::Forwarding { client_open: true, upstream_open: false }
                } else {
                    SessionState::Closed
                },
                SessionAction::CloseUpstream,
            ),
            (
                SessionState::Forwarding { client_open: true, upstream_open },
                SessionEvent::UpstreamDrained,
            ) => (
                if upstream_open {
                    SessionState::Forwarding { client_open: false, upstream_open: true }
                } else {
                    SessionState::Closed
                },
                SessionAction::CloseClient,
            ),
            _ => (SessionState::Closed, SessionAction::Hangup),
        }
    }
}

/// Whether a session that stands in `state` may answer the events, one after
/// the other, with the actions.
pub open spec fn runs(
    conn: ConnectionView,
    records: Records,
    dependable: bool,
    state: StateView,
    events: Seq<EventView>,
    actions: Seq<ActionView>,
) -> bool
    decreases events.len(),
{
    if events.len() == 0 {
        actions.len() == 0
    } else {
        &&& actions.len() == events.len()
        &&& exists|next: StateView|
            {
                &&& #[trigger] steps(conn, records, dependable, state, events[0], next, actions[0])
                &&& runs(conn, records, dependable, next, events.drop_first(), actions.drop_first())
            }
    }
}

/// Whether a state holds the given request, if it holds one.
pub open spec fn carries(state: StateView, request: Seq<u8>) -> bool {
    match state {
        StateView::Delaying(held) => held == request,
        StateView::Connecting(held) => held == request,
        _ => true,
    }
}

/// The step on a first request is fixed by the store where every fault that
/// applies to the request's command asks for the same step, and where no
/// fault applies: there `plan` is the step without a fault.
pub proof fn lemma_first_request(
    conn: ConnectionView,
    records: Records,
    request: Seq<u8>,
    command: Seq<char>,
    plan: Option<FaultStepView>,
    next: StateView,
    action: ActionView,
)
    requires
        request.len() > 0,
        valid_utf8(request),
        request_command(request) == Ok::<Seq<char>, RespErrors>(command),
        forall|name: Seq<char>|
            records.dom().contains(name) && #[trigger] records[name].applies_to(command)
                ==> plan_of(Ok(Some(records[name]))) == plan,
        !has_fault_for(records, command) ==> plan == plan_of(Ok(None)),
        steps(conn, records, true, StateView::Accepted, EventView::Received(request), next, action),
    ensures
        (next, action) == on_request(conn, request, plan),
{
    let checked = choose|checked: Result<Option<Fault>, RespErrors>|
        #[trigger] check_result(records, true, request_command(request), checked) && (next, action)
            == on_request(conn, request, plan_of(checked_view(checked)));
    match checked {
        Ok(Some(fault)) => {
            let name = choose|name: Seq<char>| #[trigger] records.contains_pair(name, fault@);
            assert(records[name].applies_to(command));
        },
        _ => {},
    }
}

/// A request that could not be read as a command ends the session: the
/// client's connection is closed, and the server is not contacted.
pub proof fn lemma_unreadable_request_ends_session(
    conn: ConnectionView,
    records: Records,
    dependable: bool,
    request: Seq<u8>,
    next: StateView,
    action: ActionView,
)
    requires
        request.len() > 0,
        !valid_utf8(request) || request_command(request) is Err,
        steps(
            conn,
            records,
            dependable,
            StateView::Accepted,
            EventView::Received(request),
            next,
            action,
        ),
    ensures
        next == StateView::Closed,
        action == ActionView::Hangup,
{
}

/// A delay is over before the server is contacted: a session that waits
/// turns to the server on `TimerFired` and on nothing else.
pub proof fn lemma_delay_precedes_upstream(
    conn: ConnectionView,
    records: Records,
    dependable: bool,
    request: Seq<u8>,
    event: EventView,
    next: StateView,
    action: ActionView,
)
    requires
        steps(conn, records, dependable, StateView::Delaying(request), event, next, action),
    ensures
        action.contacts_upstream() ==> event == EventView::TimerFired,
        event == EventView::TimerFired ==> (next, action) == open_upstream(conn, request),
{
}

/// A session that is over stays over: every later event is answered with
/// `Release`, so nothing is sent to the client or to the server any more.
pub proof fn lemma_closed_is_final(
    conn: ConnectionView,
    records: Records,
    dependable: bool,
    events: Seq<EventView>,
    actions: Seq<ActionView>,
)
    requires
        runs(conn, records, dependable, StateView::Closed, events, actions),
    ensures
        forall|i: int| 0 <= i < actions.len() ==> actions[i] == ActionView::Release,
    decreases events.len(),
{
    if events.len() > 0 {
        let next = choose|next: StateView|
            {
                &&& #[trigger] steps(
                    conn,
                    records,
                    dependable,
                    StateView::Closed,
                    events[0],
                    next,
                    actions[0],
                )
                &&& runs(conn, records, dependable, next, events.drop_first(), actions.drop_first())
            };
        lemma_closed_is_final(conn, records, dependable, events.drop_first(), actions.drop_first());
        assert forall|i: int| 0 <= i < actions.len() implies actions[i] == ActionView::Release by {
            if i > 0 {
                assert(actions.drop_first()[i - 1] == actions[i]);
            }
        }
    }
}

/// A session whose first step ends it never contacts the server: this is so
/// after an error fault, after a drop fault, and after a request that could
/// not be read.
pub proof fn lemma_ended_session_spares_upstream(
    conn: ConnectionView,
    records: Records,
    dependable: bool,
    events: Seq<EventView>,
    actions: Seq<ActionView>,
)
    requires
        events.len() > 0,
        runs(conn, records, dependable, StateView::Accepted, events, actions),
        actions[0] is Reply || actions[0] is Hangup || actions[0] is Release,
    ensures
        forall|i: int| 0 <= i < actions.len() ==> !actions[i].contacts_upstream(),
{
    let next = choose|next: StateView|
        {
            &&& #[trigger] steps(
                conn,
                records,
                dependable,
                StateView::Accepted,
                events[0],
                next,
                actions[0],
            )
            &&& runs(conn, records, dependable, next, events.drop_first(), actions.drop_first())
        };
    assert(next == StateView::Closed);
    lemma_closed_is_final(conn, records, dependable, events.drop_first(), actions.drop_first());
    assert forall|i: int| 0 <= i < actions.len() implies !actions[i].contacts_upstream() by {
        if i > 0 {
            assert(actions.drop_first()[i - 1] == actions[i]);
        }
    }
}

/// Past the first request, whatever a session hands to the server first is
/// the request it holds, byte for byte.
pub proof fn lemma_forwards_held_request(
    conn: ConnectionView,
    records: Records,
    dependable: bool,
    state: StateView,
    request: Seq<u8>,
    events: Seq<EventView>,
    actions: Seq<ActionView>,
)
    requires
        state !is Accepted,
        carries(state, request),
        !(state is Forwarding),
        runs(conn, records, dependable, state, events, actions),
    ensures
        forall|i: int|
            0 <= i < actions.len() ==> (#[trigger] actions[i] matches ActionView::Splice(seed)
                ==> seed == request),
    decreases events.len(),
{
    if events.len() > 0 {
        let next = choose|next: StateView|
            {
                &&& #[trigger] steps(conn, records, dependable, state, events[0], next, actions[0])
                &&& runs(conn, records, dependable, next, events.drop_first(), actions.drop_first())
            };
        if next is Forwarding {
            lemma_splices_once(conn, records, dependable, next, events.drop_first(), actions.drop_first());
        } else {
            lemma_forwards_held_request(
                conn,
                records,
                dependable,
                next,
                request,
                events.drop_first(),
                actions.drop_first(),
            );
        }
        assert forall|i: int| 0 <= i < actions.len() implies (#[trigger] actions[i] matches ActionView::Splice(
            seed,
        ) ==> seed == request) by {
            if i > 0 {
                assert(actions.drop_first()[i - 1] == actions[i]);
            }
        }
    }
}

/// Once the copies run, nothing more is handed to the server but the end of
/// its input.
pub proof fn lemma_splices_once(
    conn: ConnectionView,
    records: Records,
    dependable: bool,
    state: StateView,
    events: Seq<EventView>,
    actions: Seq<ActionView>,
)
    requires
        state is Forwarding || state is Closed,
        runs(conn, records, dependable, state, events, actions),
    ensures
        forall|i: int|
            0 <= i < actions.len() ==> !(#[trigger] actions[i] is Splice) && !(actions[i] is Connect),
    decreases events.len(),
{
    if events.len() > 0 {
        let next = choose|next: StateView|
            {
                &&& #[trigger] steps(conn, records, dependable, state, events[0], next, actions[0])
                &&& runs(conn, records, dependable, next, events.drop_first(), actions.drop_first())
            };
        lemma_splices_once(conn, records, dependable, next, events.drop_first(), actions.drop_first());
        assert forall|i: int| 0 <= i < actions.len() implies !(#[trigger] actions[i] is Splice) && !(actions[i] is Connect) by {
            if i > 0 {
                assert(actions.drop_first()[i - 1] == actions[i]);
            }
        }
    }
}

/// Whatever a session hands to the server first is the client's first
/// request, byte for byte: no fault rewrites it, and a delay only holds it
/// back.
pub proof fn lemma_passthrough(
    conn: ConnectionView,
    records: Records,
    dependable: bool,
    request: Seq<u8>,
    events: Seq<EventView>,
    actions: Seq<ActionView>,
)
    requires
        events.len() > 0,
        events[0] == EventView::Received(request),
        runs(conn, records, dependable, StateView::Accepted, events, actions),
    ensures
        forall|i: int|
            0 <= i < actions.len() ==> (#[trigger] actions[i] matches ActionView::Splice(seed)
                ==> seed == request),
{
    let next = choose|next: StateView|
        {
            &&& #[trigger] steps(
                conn,
                records,
                dependable,
                StateView::Accepted,
                events[0],
                next,
                actions[0],
            )
            &&& runs(conn, records, dependable, next, events.drop_first(), actions.drop_first())
        };
    assert(carries(next, request) && next !is Accepted && !(next is Forwarding) && !(actions[0] is Splice));
    lemma_forwards_held_request(
        conn,
        records,
        dependable,
        next,
        request,
        events.drop_first(),
        actions.drop_first(),
    );
    assert forall|i: int| 0 <= i < actions.len() implies (#[trigger] actions[i] matches ActionView::Splice(
        seed,
    ) ==> seed == request) by {
        if i > 0 {
            assert(actions.drop_first()[i - 1] == actions[i]);
        }
    }
}

} // verus!
