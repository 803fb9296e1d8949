//! The server session as a state machine.
//!
//! The session owns no transport. A driver feeds it events (bytes read from
//! the client, the outcome of the outbound connect, the end of the relay) and
//! carries out the action that each event is answered with: bytes to send to
//! the client, then a read, a connect, the relay or the end of the session.

use std::sync::Arc;
use vstd::prelude::*;
use crate::codec::peek_front;
use crate::codec::take_front;
use crate::codec::wanted;
use crate::codec::Encoder;
use crate::codec::Fault;
use crate::codec::Front;
use crate::socks5::credentials::Credentials;
use crate::socks5::credentials::CredentialsView;
use crate::socks5::proto::messages::auth::username_password::ClientAuthenticationRequest;
use crate::socks5::proto::messages::auth::username_password::ClientAuthenticationRequestView;
use crate::socks5::proto::messages::auth::username_password::ServerResponse;
use crate::socks5::proto::messages::ClientGreeting;
use crate::socks5::proto::messages::ClientGreetingView;
use crate::socks5::proto::messages::Request;
use crate::socks5::proto::messages::RequestView;
use crate::socks5::proto::messages::Response;
use crate::socks5::proto::messages::ResponseView;
use crate::socks5::proto::messages::ServerChoice;
use crate::socks5::proto::Address;
use crate::socks5::proto::AddressView;
use crate::socks5::proto::AuthenticationMethod;
use crate::socks5::proto::CommandType;
use crate::socks5::proto::ConversionError;
use crate::socks5::proto::Reply;
use crate::socks5::proto::Status;
use crate::socks5::proto::messages::auth::username_password::lemma_client_authentication_request_exact_read;
use crate::socks5::proto::messages::lemma_client_greeting_exact_read;
use crate::socks5::proto::messages::lemma_request_exact_read;
use crate::socks5::proto::VERSION;
use crate::socks5::server::lemma_method_intersection;
use crate::socks5::server::default_authenticate_impl;
use crate::socks5::server::default_handle_request_impl;
use crate::socks5::server::select_method;
use crate::socks5::server::selectable;
use crate::socks5::server::selected_method;
use crate::socks5::server::RequestDecision;
use crate::socks5::server::ServerError;

verus! {

/// Where a server session stands.
#[derive(Debug, Clone, Copy, PartialEq, Eq, Structural)]
pub enum ServerState {
    /// The connection is accepted; the greeting is awaited.
    Accepted,
    /// Username/password was selected; the credentials are awaited.
    MethodSelected,
    /// The client is authenticated; its request is awaited.
    Authenticated,
    /// The outcome of the outbound connect is awaited.
    Connecting,
    /// Bytes are relayed between client and target.
    Relaying,
    /// The session ended: it served its client, its transport failed, the
    /// client broke the protocol, or the driver abandoned it.
    Closed,
    /// The session ended because the server turned the client down.
    Rejected,
}

/// What a driver reports to a server session.
pub enum ServerEvent {
    /// The connection was accepted.
    Accepted,
    /// These bytes were read from the client.
    Received(Vec<u8>),
    /// The transport to the client failed or ended.
    Failed(std::io::Error),
    /// The outbound connection is open; this is its local endpoint.
    Connected(Address, u16),
    /// The outbound connection could not be opened.
    ConnectFailed,
    /// One direction of the relay came to its end.
    RelayFinished,
}

/// A [`ServerEvent`] as a mathematical value.
pub enum ServerEventView {
    Accepted,
    Received(Seq<u8>),
    Failed(std::io::Error),
    Connected(AddressView, u16),
    ConnectFailed,
    RelayFinished,
}

impl View for ServerEvent {
    type V = ServerEventView;

    open spec fn view(&self) -> ServerEventView {
        match self {
            ServerEvent::Accepted => ServerEventView::Accepted,
            ServerEvent::Received(bytes) => ServerEventView::Received(bytes@),
            ServerEvent::Failed(error) => ServerEventView::Failed(*error),
            ServerEvent::Connected(address, port) => ServerEventView::Connected(address@, *port),
            ServerEvent::ConnectFailed => ServerEventView::ConnectFailed,
            ServerEvent::RelayFinished => ServerEventView::RelayFinished,
        }
    }
}

/// What a driver does once it has sent the bytes of an action.
pub enum ServerNext {
    /// Read exactly this many bytes from the client and report them.
    Read(usize),
    /// Open a connection to this target and report the outcome.
    Connect(Address, u16),
    /// Relay between client and target until either direction ends, and
    /// report that. These bytes came from the client ahead of the relay and
    /// go to the target first.
    Relay(Vec<u8>),
    /// End the session with this result.
    Finish(Result<(), ServerError>),
    /// Nothing: the session is over.
    Closed,
}

/// A [`ServerNext`] as a mathematical value.
pub enum ServerNextView {
    Read(nat),
    Connect(AddressView, u16),
    Relay(Seq<u8>),
    Finish(Result<(), ServerError>),
    Closed,
}

impl View for ServerNext {
    type V = ServerNextView;

    open spec fn view(&self) -> ServerNextView {
        match self {
            ServerNext::Read(count) => ServerNextView::Read(*count as nat),
            ServerNext::Connect(address, port) => ServerNextView::Connect(address@, *port),
            ServerNext::Relay(pending) => ServerNextView::Relay(pending@),
            ServerNext::Finish(result) => ServerNextView::Finish(*result),
            ServerNext::Closed => ServerNextView::Closed,
        }
    }
}

/// How a server session answers an event: bytes to send to the client, then
/// what to do next.
pub struct ServerAction {
    pub send: Vec<u8>,
    pub next: ServerNext,
}

/// A [`ServerAction`] as a mathematical value.
pub struct ServerActionView {
    pub send: Seq<u8>,
    pub next: ServerNextView,
}

impl View for ServerAction {
    type V = ServerActionView;

    open spec fn view(&self) -> ServerActionView {
        ServerActionView { send: self.send@, next: self.next@ }
    }
}

/// A server session as a mathematical value.
pub struct ServerModel {
    /// The credentials that a client must present.
    pub credentials: CredentialsView,
    /// The methods that the server supports, most preferred first.
    pub supported: Seq<AuthenticationMethod>,
    pub state: ServerState,
    /// The bytes received from the client that no message has used yet.
    pub inbound: Seq<u8>,
}

/// The error that a fault in the client's bytes ends the session with.
pub open spec fn protocol_error(fault: Fault) -> ServerError {
    match fault {
        Fault::InvalidVersion { version } => ServerError::Protocol(
            ConversionError::InvalidProtocolVersion(version),
        ),
        _ => ServerError::Protocol(ConversionError::MalformedMessage),
    }
}

impl ServerModel {
    /// Whether the session has ended.
    pub open spec fn is_over(self) -> bool {
        self.state is Closed || self.state is Rejected
    }

    /// The session in another state.
    pub open spec fn in_state(self, state: ServerState) -> ServerModel {
        ServerModel { state, ..self }
    }

    /// The session with other unused bytes.
    pub open spec fn holding(self, inbound: Seq<u8>) -> ServerModel {
        ServerModel { inbound, ..self }
    }

    /// The session goes on in `state`: `send` is sent and `next` follows.
    pub open spec fn go(self, state: ServerState, send: Seq<u8>, next: ServerNextView) -> (
        ServerModel,
        ServerActionView,
    ) {
        (self.in_state(state), ServerActionView { send, next })
    }

    /// The session ends in `state` with `error`, after `send` is sent.
    pub open spec fn end(self, state: ServerState, send: Seq<u8>, error: ServerError) -> (
        ServerModel,
        ServerActionView,
    ) {
        self.go(state, send, ServerNextView::Finish(Err(error)))
    }

    /// The driver reported what the session did not await: the session is
    /// abandoned without a byte being sent.
    pub open spec fn abandon(self) -> (ServerModel, ServerActionView) {
        if self.is_over() {
            self.go(self.state, Seq::empty(), ServerNextView::Closed)
        } else {
            self.go(ServerState::Closed, Seq::empty(), ServerNextView::Closed)
        }
    }

    /// What follows the selection of `method`, once `send` is sent: the
    /// request is awaited after `NO_AUTHENTICATION`, the credentials after
    /// `USERNAME_PASSWORD`, and the session ends after any other method.
    pub open spec fn authenticate(self, method: AuthenticationMethod, send: Seq<u8>) -> (
        ServerModel,
        ServerActionView,
    ) {
        if method.0 == AuthenticationMethod::USERNAME_PASSWORD {
            self.go(
                ServerState::MethodSelected,
                send,
                ServerNextView::Read(wanted(ClientAuthenticationRequestView::parse(self.inbound))),
            )
        } else if method.0 == AuthenticationMethod::NO_AUTHENTICATION {
            self.go(
                ServerState::Authenticated,
                send,
                ServerNextView::Read(wanted(RequestView::parse(self.inbound))),
            )
        } else {
            self.end(ServerState::Rejected, send, ServerError::NoAcceptableAuthMethods)
        }
    }

    /// The answer to a greeting: the choice is sent, and the session ends
    /// where the choice is the refusal of all methods.
    pub open spec fn perform_handshake(self, greeting: ClientGreetingView) -> (
        ServerModel,
        ServerActionView,
    ) {
        let method = selected_method(greeting.authentication_methods, self.supported);
        let choice = (ServerChoice { chosen_authentication_method: method }).spec_wire();
        if selectable(method) {
            self.authenticate(method, choice)
        } else {
            self.end(ServerState::Rejected, choice, ServerError::NoAcceptableAuthMethods)
        }
    }

    /// The answer to credentials: status zero and the request is awaited
    /// where they are the configured ones, status one and the end of the
    /// session where they are not.
    pub open spec fn check_credentials(self, presented: ClientAuthenticationRequestView) -> (
        ServerModel,
        ServerActionView,
    ) {
        if presented.username == self.credentials.username && presented.password
            == self.credentials.password {
            self.go(
                ServerState::Authenticated,
                (ServerResponse { status: Status(Status::SUCCESS) }).spec_wire(),
                ServerNextView::Read(wanted(RequestView::parse(self.inbound))),
            )
        } else {
            self.end(
                ServerState::Rejected,
                (ServerResponse { status: Status(Status::FAILURE) }).spec_wire(),
                ServerError::AuthenticationFailed,
            )
        }
    }

    /// The answer to a request: a connect to its target for `CONNECT`, and
    /// for any other command the reply `COMMAND_NOT_SUPPORTED` and the end
    /// of the session.
    pub open spec fn handle_request(self, request: RequestView) -> (
        ServerModel,
        ServerActionView,
    ) {
        if request.command.0 == CommandType::CONNECT {
            self.handle_connect(request)
        } else {
            self.end(
                ServerState::Rejected,
                ResponseView::error(Reply(Reply::COMMAND_NOT_SUPPORTED)).wire(),
                ServerError::CommandNotSupported(request.command),
            )
        }
    }

    /// The answer to a `CONNECT` request: the driver is told to connect to
    /// the target, and nothing is sent yet.
    pub open spec fn handle_connect(self, request: RequestView) -> (
        ServerModel,
        ServerActionView,
    ) {
        self.go(
            ServerState::Connecting,
            Seq::empty(),
            ServerNextView::Connect(request.address, request.port),
        )
    }

    /// The answer to an open outbound connection: the reply `SUCCESS` with
    /// the bound endpoint, then the relay, which starts with the bytes that
    /// the client sent early. A bound address that has no wire form ends
    /// the session with nothing sent.
    pub open spec fn connected(self, address: AddressView, port: u16) -> (
        ServerModel,
        ServerActionView,
    ) {
        let response = ResponseView { reply: Reply(Reply::SUCCESS), address, port };
        if response.encodable() {
            self.holding(Seq::empty()).go(
                ServerState::Relaying,
                response.wire(),
                ServerNextView::Relay(self.inbound),
            )
        } else {
            self.end(
                ServerState::Closed,
                Seq::empty(),
                ServerError::Protocol(ConversionError::MalformedMessage),
            )
        }
    }

    /// The answer to a failed outbound connect: the reply `HOST_UNREACHABLE`
    /// with a zeroed bound endpoint, and the end of the session.
    pub open spec fn connect_failed(self) -> (ServerModel, ServerActionView) {
        self.end(
            ServerState::Rejected,
            ResponseView::error(Reply(Reply::HOST_UNREACHABLE)).wire(),
            ServerError::RequestFailed(Reply(Reply::HOST_UNREACHABLE)),
        )
    }

    /// The answer to bytes from the client: they join the unused bytes, and
    /// the message that the state awaits is taken from their front. While it
    /// is incomplete the bytes that it lacks are asked for; a fault in it
    /// ends the session with nothing sent.
    pub open spec fn received(self, bytes: Seq<u8>) -> (ServerModel, ServerActionView) {
        let inbound = self.inbound + bytes;
        let held = self.holding(inbound);
        match self.state {
            ServerState::Accepted => {
                let parsed = ClientGreetingView::parse(inbound);
                match parsed.result {
                    Ok(greeting) => held.holding(
                        inbound.skip(parsed.consumed as int),
                    ).perform_handshake(greeting),
                    Err(Fault::Truncated { missing }) => held.go(
                        self.state,
                        Seq::empty(),
                        ServerNextView::Read(missing),
                    ),
                    Err(fault) => held.end(
                        ServerState::Closed,
                        Seq::empty(),
                        protocol_error(fault),
                    ),
                }
            },
            ServerState::MethodSelected => {
                let parsed = ClientAuthenticationRequestView::parse(inbound);
                match parsed.result {
                    Ok(presented) => held.holding(
                        inbound.skip(parsed.consumed as int),
                    ).check_credentials(presented),
                    Err(Fault::Truncated { missing }) => held.go(
                        self.state,
                        Seq::empty(),
                        ServerNextView::Read(missing),
                    ),
                    Err(fault) => held.end(
                        ServerState::Closed,
                        Seq::empty(),
                        protocol_error(fault),
                    ),
                }
            },
            ServerState::Authenticated => {
                let parsed = RequestView::parse(inbound);
                match parsed.result {
                    Ok(request) => held.holding(
                        inbound.skip(parsed.consumed as int),
                    ).handle_request(request),
                    Err(Fault::Truncated { missing }) => held.go(
                        self.state,
                        Seq::empty(),
                        ServerNextView::Read(missing),
                    ),
                    Err(fault) => held.end(
                        ServerState::Closed,
                        Seq::empty(),
                        protocol_error(fault),
                    ),
                }
            },
            _ => self.abandon(),
        }
    }

    /// How many bytes the message that the state awaits lacks, where the
    /// state awaits a message and `inbound` holds a truncated one.
    pub open spec fn awaited(self, inbound: Seq<u8>) -> Option<nat> {
        match self.state {
            ServerState::Accepted => match ClientGreetingView::parse(inbound).result {
                Err(Fault::Truncated { missing }) => Some(missing),
                _ => None,
            },
            ServerState::MethodSelected => match ClientAuthenticationRequestView::parse(
                inbound,
            ).result {
                Err(Fault::Truncated { missing }) => Some(missing),
                _ => None,
            },
            ServerState::Authenticated => match RequestView::parse(inbound).result {
                Err(Fault::Truncated { missing }) => Some(missing),
                _ => None,
            },
            _ => None,
        }
    }

    /// The session after `event`, and the action that answers it.
    pub open spec fn step(self, event: ServerEventView) -> (ServerModel, ServerActionView) {
        match event {
            ServerEventView::Accepted => if self.state is Accepted {
                self.go(
                    self.state,
                    Seq::empty(),
                    ServerNextView::Read(wanted(ClientGreetingView::parse(self.inbound))),
                )
            } else {
                self.abandon()
            },
            ServerEventView::Received(bytes) => self.received(bytes),
            ServerEventView::Failed(error) => if self.is_over() {
                self.abandon()
            } else {
                self.end(ServerState::Closed, Seq::empty(), ServerError::IoError(error))
            },
            ServerEventView::Connected(address, port) => if self.state is Connecting {
                self.connected(address, port)
            } else {
                self.abandon()
            },
            ServerEventView::ConnectFailed => if self.state is Connecting {
                self.connect_failed()
            } else {
                self.abandon()
            },
            ServerEventView::RelayFinished => if self.state is Relaying {
                self.go(ServerState::Closed, Seq::empty(), ServerNextView::Finish(Ok(())))
            } else {
                self.abandon()
            },
        }
    }
}

/// Whatever the client offers and the server supports, the answer to a
/// greeting transmits the selected method: one that is both offered and
/// supported wherever there is one, and the refusal code, followed by the
/// end of the session, wherever there is none.
pub proof fn lemma_choice_is_transmitted(server: ServerModel, greeting: ClientGreetingView)
    ensures
        server.perform_handshake(greeting).1.send == seq![
            VERSION,
            selected_method(greeting.authentication_methods, server.supported).0,
        ],
        (exists|m: AuthenticationMethod|
            greeting.authentication_methods.contains(m) && server.supported.contains(m)) ==> {
            &&& greeting.authentication_methods.contains(
                selected_method(greeting.authentication_methods, server.supported),
            )
            &&& server.supported.contains(
                selected_method(greeting.authentication_methods, server.supported),
            )
        },
        !(exists|m: AuthenticationMethod|
            greeting.authentication_methods.contains(m) && server.supported.contains(m)) ==> {
            &&& selected_method(greeting.authentication_methods, server.supported).0
                == AuthenticationMethod::NO_ACCEPTABLE_METHODS
            &&& server.perform_handshake(greeting).0.state is Rejected
            &&& server.perform_handshake(greeting).1.next == ServerNextView::Finish(
                Err(ServerError::NoAcceptableAuthMethods),
            )
        },
{
    lemma_method_intersection(greeting.authentication_methods, server.supported);
}

/// A relay ends the session with success as soon as either of its
/// directions ends, and nothing more is sent to the client.
pub proof fn lemma_relay_termination(server: ServerModel)
    requires
        server.state is Relaying,
    ensures
        server.step(ServerEventView::RelayFinished) == (
            server.in_state(ServerState::Closed),
            ServerActionView { send: Seq::empty(), next: ServerNextView::Finish(Ok(())) },
        ),
{
}

/// A session that has ended stays as it is and sends nothing, whatever is
/// reported to it.
pub proof fn lemma_ended_session_is_silent(server: ServerModel, event: ServerEventView)
    requires
        server.is_over(),
    ensures
        server.step(event) == (
            server,
            ServerActionView { send: Seq::empty(), next: ServerNextView::Closed },
        ),
{
}

/// The server speaks only when spoken to: while the message that it awaits
/// is incomplete it sends nothing, stays in its state and asks for what
/// the message lacks.
pub proof fn lemma_incomplete_message_is_awaited(server: ServerModel, bytes: Seq<u8>)
    requires
        server.awaited(server.inbound + bytes) is Some,
    ensures
        server.step(ServerEventView::Received(bytes)) == (
            server.holding(server.inbound + bytes),
            ServerActionView {
                send: Seq::empty(),
                next: ServerNextView::Read(server.awaited(server.inbound + bytes).unwrap()),
            },
        ),
{
}

/// Reads are exact: where the driver delivers just the bytes that were
/// asked for, the session either still awaits the same message or has used
/// every byte that it received.
pub proof fn lemma_server_reads_are_exact(server: ServerModel, bytes: Seq<u8>)
    requires
        server.awaited(server.inbound) == Some(bytes.len()),
    ensures
        ({
            let after = server.step(ServerEventView::Received(bytes)).0;
            ||| after == server.holding(server.inbound + bytes)
            ||| after.inbound.len() == 0
            ||| after.state is Closed
        }),
{
    match server.state {
        ServerState::Accepted => {
            lemma_client_greeting_exact_read(server.inbound, bytes);
        },
        ServerState::MethodSelected => {
            lemma_client_authentication_request_exact_read(server.inbound, bytes);
        },
        ServerState::Authenticated => {
            lemma_request_exact_read(server.inbound, bytes);
        },
        _ => {},
    }
}

/// A server session: the state machine that serves one client.
pub struct Socks5Server {
    credentials: Arc<Credentials>,
    supported: Vec<AuthenticationMethod>,
    state: ServerState,
    inbound: Vec<u8>,
}

impl View for Socks5Server {
    type V = ServerModel;

    closed spec fn view(&self) -> ServerModel {
        ServerModel {
            credentials: self.credentials@,
            supported: self.supported@,
            state: self.state,
            inbound: self.inbound@,
        }
    }
}

/// An action that sends `send` and goes on with `next`.
fn action(send: Vec<u8>, next: ServerNext) -> (r: ServerAction)
    ensures
        r@ == (ServerActionView { send: send@, next: next@ }),
{
    ServerAction { send, next }
}

impl Socks5Server {
    /// A session for a freshly accepted client, which must present
    /// `credentials` where it picks username/password. The server prefers
    /// username/password and supports no authentication as well.
    pub fn new(credentials: Arc<Credentials>) -> (r: Self)
        ensures
            r@ == (ServerModel {
                credentials: credentials@,
                supported: seq![
                    AuthenticationMethod(AuthenticationMethod::USERNAME_PASSWORD),
                    AuthenticationMethod(AuthenticationMethod::NO_AUTHENTICATION),
                ],
                state: ServerState::Accepted,
                inbound: Seq::empty(),
            }),
    {
        let mut supported: Vec<AuthenticationMethod> = Vec::new();
        supported.push(AuthenticationMethod(AuthenticationMethod::USERNAME_PASSWORD));
        supported.push(AuthenticationMethod(AuthenticationMethod::NO_AUTHENTICATION));
        proof {
            assert(supported@ =~= seq![
                AuthenticationMethod(AuthenticationMethod::USERNAME_PASSWORD),
                AuthenticationMethod(AuthenticationMethod::NO_AUTHENTICATION),
            ]);
        }
        Socks5Server { credentials, supported, state: ServerState::Accepted, inbound: Vec::new() }
    }

    /// A session for a freshly accepted client on a server that supports
    /// the methods `supported`, most preferred first.
    pub fn with_methods(credentials: Arc<Credentials>, supported: Vec<AuthenticationMethod>) -> (r:
        Self)
        ensures
            r@ == (ServerModel {
                credentials: credentials@,
                supported: supported@,
                state: ServerState::Accepted,
                inbound: Seq::empty(),
            }),
    {
        Socks5Server { credentials, supported, state: ServerState::Accepted, inbound: Vec::new() }
    }

    /// Where the session stands.
    pub fn state(&self) -> (r: ServerState)
        ensures
            r == self@.state,
    {
        self.state
    }

    /// Ends the session in `state` with `error`, after `send` is sent.
    fn end(&mut self, state: ServerState, send: Vec<u8>, error: ServerError) -> (r: ServerAction)
        ensures
            (final(self)@, r@) == old(self)@.end(state, send@, error),
    {
        self.state = state;
        action(send, ServerNext::Finish(Err(error)))
    }

    /// Abandons the session without sending a byte.
    fn abandon(&mut self) -> (r: ServerAction)
        ensures
            (final(self)@, r@) == old(self)@.abandon(),
    {
        match self.state {
            ServerState::Closed => {},
            ServerState::Rejected => {},
            _ => {
                self.state = ServerState::Closed;
            },
        }
        action(Vec::new(), ServerNext::Closed)
    }

    /// Goes on after the selection of `method`, once `send` is sent.
    pub fn authenticate(&mut self, method: AuthenticationMethod, send: Vec<u8>) -> (r:
        ServerAction)
        ensures
            (final(self)@, r@) == old(self)@.authenticate(method, send@),
    {
        if method.0 == AuthenticationMethod::USERNAME_PASSWORD {
            self.state = ServerState::MethodSelected;
            let count = peek_front::<ClientAuthenticationRequest>(self.inbound.as_slice());
            action(send, ServerNext::Read(count))
        } else {
            match default_authenticate_impl(method) {
                Ok(()) => {
                    self.state = ServerState::Authenticated;
                    let count = peek_front::<Request>(self.inbound.as_slice());
                    action(send, ServerNext::Read(count))
                },
                Err(error) => self.end(ServerState::Rejected, send, error),
            }
        }
    }

    /// Answers the client's greeting with the server's choice.
    pub fn perform_handshake(&mut self, greeting: &ClientGreeting) -> (r: ServerAction)
        ensures
            (final(self)@, r@) == old(self)@.perform_handshake(greeting@),
    {
        let method = select_method(
            greeting.authentication_methods.as_slice(),
            self.supported.as_slice(),
        );
        let choice = ServerChoice { chosen_authentication_method: method };
        let mut send: Vec<u8> = Vec::new();
        let _ = choice.write_to(&mut send);
        if method.0 != AuthenticationMethod::NO_ACCEPTABLE_METHODS {
            self.authenticate(method, send)
        } else {
            self.end(ServerState::Rejected, send, ServerError::NoAcceptableAuthMethods)
        }
    }

    /// Answers the credentials that the client presents.
    pub fn check_credentials(&mut self, presented: &ClientAuthenticationRequest) -> (r:
        ServerAction)
        ensures
            (final(self)@, r@) == old(self)@.check_credentials(presented@),
    {
        let mut send: Vec<u8> = Vec::new();
        if self.credentials.matches(presented.username.as_slice(), presented.password.as_slice()) {
            let verdict = ServerResponse::success();
            let _ = verdict.write_to(&mut send);
            self.state = ServerState::Authenticated;
            let count = peek_front::<Request>(self.inbound.as_slice());
            action(send, ServerNext::Read(count))
        } else {
            let verdict = ServerResponse::failure();
            let _ = verdict.write_to(&mut send);
            self.end(ServerState::Rejected, send, ServerError::AuthenticationFailed)
        }
    }

    /// Answers the client's request.
    pub fn handle_request(&mut self, request: Request) -> (r: ServerAction)
        ensures
            (final(self)@, r@) == old(self)@.handle_request(request@),
    {
        match default_handle_request_impl(&request) {
            RequestDecision::Connect => self.handle_connect(request),
            RequestDecision::Reject(response, error) => {
                let mut send: Vec<u8> = Vec::new();
                let _ = response.write_to(&mut send);
                self.end(ServerState::Rejected, send, error)
            },
        }
    }

    /// Answers a `CONNECT` request: the driver is to connect to its target.
    pub fn handle_connect(&mut self, request: Request) -> (r: ServerAction)
        ensures
            (final(self)@, r@) == old(self)@.handle_connect(request@),
    {
        self.state = ServerState::Connecting;
        action(Vec::new(), ServerNext::Connect(request.address, request.port))
    }

    /// Answers an open outbound connection whose local endpoint is
    /// `address` and `port`.
    pub fn connected(&mut self, address: Address, port: u16) -> (r: ServerAction)
        ensures
            (final(self)@, r@) == old(self)@.connected(address@, port),
    {
        let response = Response { reply: Reply(Reply::SUCCESS), address, port };
        let mut send: Vec<u8> = Vec::new();
        match response.write_to(&mut send) {
            Ok(()) => {
                let mut pending: Vec<u8> = Vec::new();
                pending.append(&mut self.inbound);
                self.state = ServerState::Relaying;
                action(send, ServerNext::Relay(pending))
            },
            Err(error) => self.end(ServerState::Closed, send, ServerError::Protocol(error)),
        }
    }

    /// Answers a failed outbound connect.
    pub fn connect_failed(&mut self) -> (r: ServerAction)
        ensures
            (final(self)@, r@) == old(self)@.connect_failed(),
    {
        let response = Response::host_unreachable();
        let mut send: Vec<u8> = Vec::new();
        let _ = response.write_to(&mut send);
        self.end(
            ServerState::Rejected,
            send,
            ServerError::RequestFailed(Reply(Reply::HOST_UNREACHABLE)),
        )
    }

    /// Answers bytes read from the client.
    fn received(&mut self, bytes: Vec<u8>) -> (r: ServerAction)
        ensures
            (final(self)@, r@) == old(self)@.received(bytes@),
    {
        let mut bytes = bytes;
        match self.state {
            ServerState::Accepted => {
                self.inbound.append(&mut bytes);
                match take_front::<ClientGreeting>(&mut self.inbound) {
                    Ok(Front::Message(greeting)) => self.perform_handshake(&greeting),
                    Ok(Front::Missing(count)) => action(Vec::new(), ServerNext::Read(count)),
                    Err(error) => self.end(
                        ServerState::Closed,
                        Vec::new(),
                        ServerError::Protocol(error),
                    ),
                }
            },
            ServerState::MethodSelected => {
                self.inbound.append(&mut bytes);
                match take_front::<ClientAuthenticationRequest>(&mut self.inbound) {
                    Ok(Front::Message(presented)) => self.check_credentials(&presented),
                    Ok(Front::Missing(count)) => action(Vec::new(), ServerNext::Read(count)),
                    Err(error) => self.end(
                        ServerState::Closed,
                        Vec::new(),
                        ServerError::Protocol(error),
                    ),
                }
            },
            ServerState::Authenticated => {
                self.inbound.append(&mut bytes);
                match take_front::<Request>(&mut self.inbound) {
                    Ok(Front::Message(request)) => self.handle_request(request),
                    Ok(Front::Missing(count)) => action(Vec::new(), ServerNext::Read(count)),
                    Err(error) => self.end(
                        ServerState::Closed,
                        Vec::new(),
                        ServerError::Protocol(error),
                    ),
                }
            },
            _ => self.abandon(),
        }
    }

    /// Serves the client one step further: takes what the driver reports
    /// and answers with what the driver is to do.
    pub fn serve_client(&mut self, event: ServerEvent) -> (r: ServerAction)
        ensures
            (final(self)@, r@) == old(self)@.step(event@),
    {
        match event {
            ServerEvent::Accepted => match self.state {
                ServerState::Accepted => {
                    let count = peek_front::<ClientGreeting>(self.inbound.as_slice());
                    action(Vec::new(), ServerNext::Read(count))
                },
                _ => self.abandon(),
            },
            ServerEvent::Received(bytes) => self.received(bytes),
            ServerEvent::Failed(error) => match self.state {
                ServerState::Closed => self.abandon(),
                ServerState::Rejected => self.abandon(),
                _ => self.end(ServerState::Closed, Vec::new(), ServerError::IoError(error)),
            },
            ServerEvent::Connected(address, port) => match self.state {
                ServerState::Connecting => self.connected(address, port),
                _ => self.abandon(),
            },
            ServerEvent::ConnectFailed => match self.state {
                ServerState::Connecting => self.connect_failed(),
                _ => self.abandon(),
            },
            ServerEvent::RelayFinished => match self.state {
                ServerState::Relaying => {
                    self.state = ServerState::Closed;
                    action(Vec::new(), ServerNext::Finish(Ok(())))
                },
                _ => self.abandon(),
            },
        }
    }
}

} // verus!
