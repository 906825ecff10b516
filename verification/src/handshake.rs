//! The decisions of the session-creation handshake. The caller does the
//! outside work (it asks for the account, binds the callback endpoint, opens
//! the browser, waits for the session) and reports each outcome here; the
//! answer is what to do next.

use crate::approval::{
    approval_page, approval_url, approval_url_text, callback_pair_text, ends_query_with, page_text,
};
use crate::error::SessionError;
use crate::model::{policy_texts, Policy, PolicyText, Session};
use vstd::prelude::*;

verus! {

/// How far the handshake has come.
#[derive(Debug, Clone, Copy, PartialEq, Eq, Structural)]
pub enum Phase {
    /// The callback endpoint is being bound.
    Binding,
    /// The browser is being opened on the approval URL.
    Launching,
    /// The endpoint serves, and the session is awaited.
    Waiting,
    /// The session has been returned.
    Done,
    /// The handshake has failed.
    Failed,
}

/// A handshake in progress.
#[derive(Debug, PartialEq, Eq)]
pub struct Handshake {
    /// How far it has come.
    pub phase: Phase,
    /// The address of the approval page, without the callback address.
    pub page: String,
}

/// A handshake, with its page address as text.
pub struct HandshakeText {
    pub phase: Phase,
    pub page: Seq<char>,
}

impl View for Handshake {
    type V = HandshakeText;

    open spec fn view(&self) -> HandshakeText {
        HandshakeText { phase: self.phase, page: self.page@ }
    }
}

/// What the caller reports.
#[derive(Debug, PartialEq, Eq)]
pub enum Event {
    /// The endpoint was bound to this port, or could not be bound.
    EndpointBound(Option<u16>),
    /// The browser was opened, or could not be.
    BrowserLaunched(bool),
    /// The wait ended: with the session that the endpoint forwarded, or
    /// with nothing because the endpoint went away.
    Received(Option<Session>),
}

/// What the caller does next.
#[derive(Debug, PartialEq, Eq)]
pub enum Action {
    /// Bind the callback endpoint to a free local port.
    BindEndpoint,
    /// Open the browser on this URL.
    OpenBrowser(String),
    /// Serve the callback endpoint and wait for the session.
    AwaitSession,
    /// Return this session: the handshake has succeeded.
    Return(Session),
    /// Return this error: the handshake has failed.
    Fail(SessionError),
    /// Nothing: the report was not the one that the handshake waits for.
    Nothing,
}

/// An action, with its URL as text.
pub enum ActionText {
    BindEndpoint,
    OpenBrowser(Seq<char>),
    AwaitSession,
    Return(Session),
    Fail(SessionError),
    Nothing,
}

impl View for Action {
    type V = ActionText;

    open spec fn view(&self) -> ActionText {
        match self {
            Action::BindEndpoint => ActionText::BindEndpoint,
            Action::OpenBrowser(url) => ActionText::OpenBrowser(url@),
            Action::AwaitSession => ActionText::AwaitSession,
            Action::Return(session) => ActionText::Return(*session),
            Action::Fail(error) => ActionText::Fail(*error),
            Action::Nothing => ActionText::Nothing,
        }
    }
}

/// A handshake in phase `phase` for the page address `page`.
pub open spec fn in_phase(phase: Phase, page: Seq<char>) -> HandshakeText {
    HandshakeText { phase, page }
}

/// How a handshake begins. Without a signed-in account it fails at once
/// with `IdentityUnavailable`; with one, the page address is fixed and the
/// endpoint is to be bound.
pub open spec fn begun(
    account: Option<Seq<char>>,
    rpc_url: Seq<char>,
    policies: Seq<PolicyText>,
) -> (HandshakeText, ActionText) {
    match account {
        Some(name) => (
            in_phase(Phase::Binding, page_text(name, rpc_url, policies)),
            ActionText::BindEndpoint,
        ),
        None => (
            in_phase(Phase::Failed, Seq::empty()),
            ActionText::Fail(SessionError::IdentityUnavailable),
        ),
    }
}

/// How a handshake goes on: the state and the action that follow a report.
/// A report that the phase does not wait for changes nothing.
pub open spec fn stepped(state: HandshakeText, event: Event) -> (HandshakeText, ActionText) {
    match (state.phase, event) {
        (Phase::Binding, Event::EndpointBound(Some(port))) => match approval_url_text(
            state.page,
            port,
        ) {
            Some(url) => (in_phase(Phase::Launching, state.page), ActionText::OpenBrowser(url)),
            None => (
                in_phase(Phase::Failed, state.page),
                ActionText::Fail(SessionError::EncodingError),
            ),
        },
        (Phase::Binding, Event::EndpointBound(None)) => (
            in_phase(Phase::Failed, state.page),
            ActionText::Fail(SessionError::EndpointBindFailed),
        ),
        (Phase::Launching, Event::BrowserLaunched(true)) => (
            in_phase(Phase::Waiting, state.page),
            ActionText::AwaitSession,
        ),
        (Phase::Launching, Event::BrowserLaunched(false)) => (
            in_phase(Phase::Failed, state.page),
            ActionText::Fail(SessionError::BrowserLaunchFailed),
        ),
        (Phase::Waiting, Event::Received(Some(session))) => (
            in_phase(Phase::Done, state.page),
            ActionText::Return(session),
        ),
        (Phase::Waiting, Event::Received(None)) => (
            in_phase(Phase::Failed, state.page),
            ActionText::Fail(SessionError::ChannelClosed),
        ),
        _ => (state, ActionText::Nothing),
    }
}

/// The text of an account name, where there is an account.
pub open spec fn account_text(account: Option<&str>) -> Option<Seq<char>> {
    match account {
        Some(name) => Some(name@),
        None => None,
    }
}

impl Handshake {
    /// Begins the creation of a session for the signed-in account, the RPC
    /// endpoint `rpc_url` and `policies`.
    pub fn begin(account: Option<&str>, rpc_url: &str, policies: &[Policy]) -> (r: (
        Handshake,
        Action,
    ))
        ensures
            (r.0@, r.1@) == begun(account_text(account), rpc_url@, policy_texts(policies@)),
    {
        let name = match account {
            Some(name) => name,
            None => {
                return (
                    Handshake { phase: Phase::Failed, page: String::new() },
                    Action::Fail(SessionError::IdentityUnavailable),
                );
            },
        };
        match approval_page(name, rpc_url, policies) {
            Ok(page) => (Handshake { phase: Phase::Binding, page }, Action::BindEndpoint),
            Err(error) => (
                Handshake { phase: Phase::Failed, page: String::new() },
                Action::Fail(error),
            ),
        }
    }

    /// What follows the binding of the endpoint, once the approval URL has
    /// been worked out: with a URL the browser is opened on it, without one
    /// the handshake fails with the error that came in its place.
    pub fn launching(page: String, url: Result<String, SessionError>) -> (r: (Handshake, Action))
        ensures
            r.0@ == in_phase(
                if url is Ok {
                    Phase::Launching
                } else {
                    Phase::Failed
                },
                page@,
            ),
            r.1@ == match url {
                Ok(text) => ActionText::OpenBrowser(text@),
                Err(error) => ActionText::Fail(error),
            },
    {
        match url {
            Ok(url) => (Handshake { phase: Phase::Launching, page }, Action::OpenBrowser(url)),
            Err(error) => (Handshake { phase: Phase::Failed, page }, Action::Fail(error)),
        }
    }

    /// Takes a report and says what to do next. Where that is to open the
    /// browser, the query of the URL ends with the callback address of the
    /// port that was reported.
    pub fn step(self, event: Event) -> (r: (Handshake, Action))
        ensures
            (r.0@, r.1@) == stepped(self@, event),
            match (r.1@, event) {
                (ActionText::OpenBrowser(url), Event::EndpointBound(Some(port))) => ends_query_with(
                    url,
                    callback_pair_text(port),
                ),
                _ => true,
            },
    {
        let Handshake { phase, page } = self;
        match phase {
            Phase::Binding => match event {
                Event::EndpointBound(Some(port)) => {
                    let url = approval_url(page.as_str(), port);
                    Handshake::launching(page, url)
                },
                Event::EndpointBound(None) => (
                    Handshake { phase: Phase::Failed, page },
                    Action::Fail(SessionError::EndpointBindFailed),
                ),
                _ => (Handshake { phase, page }, Action::Nothing),
            },
            Phase::Launching => match event {
                Event::BrowserLaunched(true) => (
                    Handshake { phase: Phase::Waiting, page },
                    Action::AwaitSession,
                ),
                Event::BrowserLaunched(false) => (
                    Handshake { phase: Phase::Failed, page },
                    Action::Fail(SessionError::BrowserLaunchFailed),
                ),
                _ => (Handshake { phase, page }, Action::Nothing),
            },
            Phase::Waiting => match event {
                Event::Received(Some(session)) => (
                    Handshake { phase: Phase::Done, page },
                    Action::Return(session),
                ),
                Event::Received(None) => (
                    Handshake { phase: Phase::Failed, page },
                    Action::Fail(SessionError::ChannelClosed),
                ),
                _ => (Handshake { phase, page }, Action::Nothing),
            },
            _ => (Handshake { phase, page }, Action::Nothing),
        }
    }
}

/// How the callback endpoint answers one request.
#[derive(Debug, PartialEq, Eq)]
pub enum Reply {
    /// The body is a session and the first one: hand it to the waiting
    /// caller and answer with success.
    Forward(Session),
    /// The body is no session: refuse the request and hand nothing on.
    Malformed,
    /// A session has been handed on before: refuse the request.
    Conflict,
}

/// The endpoint's state, `fulfilled`, and its answer after a request whose
/// body decoded to `body`; `None` is a body that is no session. A body
/// that is no session changes nothing, and only the first session is
/// handed on.
pub open spec fn answered(fulfilled: bool, body: Option<Session>) -> (bool, Reply) {
    match body {
        None => (fulfilled, Reply::Malformed),
        Some(session) => if fulfilled {
            (true, Reply::Conflict)
        } else {
            (true, Reply::Forward(session))
        },
    }
}

/// The HTTP status of an answer.
pub open spec fn status_of(reply: Reply) -> u16 {
    match reply {
        Reply::Forward(_) => 200,
        Reply::Malformed => 400,
        Reply::Conflict => 409,
    }
}

/// The failure that a refused request is logged as, where the refusal is
/// one: a body that is no session is a `MalformedCallback`.
pub open spec fn failure_of(reply: Reply) -> Option<SessionError> {
    match reply {
        Reply::Malformed => Some(SessionError::MalformedCallback),
        _ => None,
    }
}

impl Reply {
    /// The failure to log for this answer, if it is one.
    pub fn failure(&self) -> (r: Option<SessionError>)
        ensures
            r == failure_of(*self),
    {
        match self {
            Reply::Malformed => Some(SessionError::MalformedCallback),
            _ => None,
        }
    }

    /// The HTTP status to answer with.
    pub fn status(&self) -> (r: u16)
        ensures
            r == status_of(*self),
    {
        match self {
            Reply::Forward(_) => 200,
            Reply::Malformed => 400,
            Reply::Conflict => 409,
        }
    }
}

/// The callback endpoint of one handshake: it hands on one session and no
/// more.
#[derive(Debug, PartialEq, Eq)]
pub struct CallbackEndpoint {
    /// Whether a session has been handed on.
    pub fulfilled: bool,
}

impl CallbackEndpoint {
    /// An endpoint that has handed on nothing yet.
    pub fn new() -> (r: CallbackEndpoint)
        ensures
            !r.fulfilled,
    {
        CallbackEndpoint { fulfilled: false }
    }

    /// Answers a request to `POST /callback` whose body decoded to `body`;
    /// `None` is a body that is no session.
    pub fn on_callback(&mut self, body: Option<Session>) -> (reply: Reply)
        ensures
            (final(self).fulfilled, reply) == answered(old(self).fulfilled, body),
    {
        match body {
            None => Reply::Malformed,
            Some(session) => {
                if self.fulfilled {
                    Reply::Conflict
                } else {
                    self.fulfilled = true;
                    Reply::Forward(session)
                }
            },
        }
    }
}

/// The endpoint's state after a run of requests.
pub open spec fn fulfilled_after(fulfilled: bool, bodies: Seq<Option<Session>>) -> bool
    decreases bodies.len(),
{
    if bodies.len() == 0 {
        fulfilled
    } else {
        fulfilled_after(answered(fulfilled, bodies[0]).0, bodies.skip(1))
    }
}

/// The endpoint's answers to a run of requests, in order.
pub open spec fn replies(fulfilled: bool, bodies: Seq<Option<Session>>) -> Seq<Reply>
    decreases bodies.len(),
{
    if bodies.len() == 0 {
        Seq::empty()
    } else {
        seq![answered(fulfilled, bodies[0]).1] + replies(
            answered(fulfilled, bodies[0]).0,
            bodies.skip(1),
        )
    }
}

/// Once a session has been handed on, none is handed on again.
pub proof fn lemma_fulfilled_forwards_nothing(bodies: Seq<Option<Session>>)
    ensures
        replies(true, bodies).len() == bodies.len(),
        fulfilled_after(true, bodies),
        forall|i: int| 0 <= i < bodies.len() ==> !(#[trigger] replies(true, bodies)[i] is Forward),
    decreases bodies.len(),
{
    if bodies.len() > 0 {
        lemma_fulfilled_forwards_nothing(bodies.skip(1));
        let later = replies(true, bodies.skip(1));
        assert forall|i: int| 0 <= i < bodies.len() implies !(#[trigger] replies(true, bodies)[i]
            is Forward) by {
            if i > 0 {
                assert(replies(true, bodies)[i] == later[i - 1]);
            }
        }
    }
}

/// Malformed requests neither complete the handshake nor spoil it: each is
/// answered as malformed, and the endpoint is left as it was.
pub proof fn lemma_malformed_changes_nothing(fulfilled: bool, bodies: Seq<Option<Session>>)
    requires
        forall|i: int| 0 <= i < bodies.len() ==> bodies[i] is None,
    ensures
        fulfilled_after(fulfilled, bodies) == fulfilled,
        replies(fulfilled, bodies).len() == bodies.len(),
        forall|i: int|
            0 <= i < bodies.len() ==> #[trigger] replies(fulfilled, bodies)[i] == Reply::Malformed,
    decreases bodies.len(),
{
    if bodies.len() > 0 {
        let later = bodies.skip(1);
        assert forall|i: int| 0 <= i < later.len() implies later[i] is None by {}
        lemma_malformed_changes_nothing(fulfilled, later);
        assert forall|i: int| 0 <= i < bodies.len() implies #[trigger] replies(fulfilled, bodies)[i]
            == Reply::Malformed by {
            if i > 0 {
                assert(replies(fulfilled, bodies)[i] == replies(fulfilled, later)[i - 1]);
            }
        }
    }
}

/// Single delivery. Of a run of requests to a fresh endpoint, the first
/// that carries a session has that session handed on, and no other request
/// has anything handed on, whatever came before or comes after. The waiting
/// handshake returns the session that was handed on, and returns once:
/// after that no report makes it act again.
pub proof fn lemma_single_delivery(
    bodies: Seq<Option<Session>>,
    first: int,
    page: Seq<char>,
    later: Event,
)
    requires
        0 <= first < bodies.len(),
        bodies[first] is Some,
        forall|i: int| 0 <= i < first ==> bodies[i] is None,
    ensures
        replies(false, bodies).len() == bodies.len(),
        replies(false, bodies)[first] == Reply::Forward(bodies[first]->0),
        forall|i: int|
            0 <= i < bodies.len() && i != first ==> !(#[trigger] replies(false, bodies)[i]
                is Forward),
        stepped(in_phase(Phase::Waiting, page), Event::Received(bodies[first])) == (
            in_phase(Phase::Done, page),
            ActionText::Return(bodies[first]->0),
        ),
        stepped(in_phase(Phase::Done, page), later) == (
            in_phase(Phase::Done, page),
            ActionText::Nothing,
        ),
    decreases bodies.len(),
{
    let rest = bodies.skip(1);
    if first == 0 {
        lemma_fulfilled_forwards_nothing(rest);
        assert forall|i: int| 0 <= i < bodies.len() && i != first implies !(#[trigger] replies(
            false,
            bodies,
        )[i] is Forward) by {
            assert(replies(false, bodies)[i] == replies(true, rest)[i - 1]);
        }
    } else {
        assert forall|i: int| 0 <= i < first - 1 implies rest[i] is None by {}
        lemma_single_delivery(rest, first - 1, page, later);
        assert forall|i: int| 0 <= i < bodies.len() && i != first implies !(#[trigger] replies(
            false,
            bodies,
        )[i] is Forward) by {
            if i > 0 {
                assert(replies(false, bodies)[i] == replies(false, rest)[i - 1]);
            }
        }
    }
}

/// A malformed request does not end the wait: the endpoint is as it was,
/// the waiting handshake has had no report, and a session that arrives
/// afterwards is handed on and returned.
pub proof fn lemma_malformed_then_valid(session: Session, page: Seq<char>)
    ensures
        answered(false, None) == (false, Reply::Malformed),
        answered(answered(false, None).0, Some(session)) == (true, Reply::Forward(session)),
        stepped(in_phase(Phase::Waiting, page), Event::Received(Some(session))).1
            == ActionText::Return(session),
{
}

/// A handshake that has ended, well or badly, stays as it is.
pub proof fn lemma_ended_stays(state: HandshakeText, event: Event)
    requires
        state.phase == Phase::Done || state.phase == Phase::Failed,
    ensures
        stepped(state, event) == (state, ActionText::Nothing),
{
}

} // verus!
