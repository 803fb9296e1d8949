//! The client session as a state machine.
//!
//! The session owns no transport. A driver starts it with the target to
//! connect to, feeds it the bytes that it reads from the server, and carries
//! out the action that each event is answered with: bytes to send to the
//! server, then a read or the end of the handshake.

use std::sync::Arc;
use vstd::prelude::*;
use crate::codec::peek_front;
use crate::codec::take_front;
use crate::codec::wanted;
use crate::codec::Fault;
use crate::codec::Front;
use crate::socks5::client::presented;
use crate::socks5::client::username_password_auth_impl;
use crate::socks5::client::ClientError;
use crate::socks5::credentials::Credentials;
use crate::socks5::credentials::CredentialsView;
use crate::socks5::proto::address::MAX_DOMAIN_LENGTH;
use crate::socks5::proto::messages::auth::username_password::ServerResponse;
use crate::socks5::proto::messages::auth::username_password::MAX_CREDENTIAL_LENGTH;
use crate::socks5::proto::messages::auth::username_password::lemma_server_response_exact_read;
use crate::socks5::proto::messages::lemma_response_exact_read;
use crate::socks5::proto::messages::lemma_server_choice_exact_read;
use crate::socks5::proto::messages::write_frame;
use crate::socks5::proto::messages::write_greeting;
use crate::socks5::proto::messages::ClientGreetingView;
use crate::socks5::proto::messages::RequestView;
use crate::socks5::proto::messages::Response;
use crate::socks5::proto::messages::ResponseView;
use crate::socks5::proto::messages::ServerChoice;
use crate::socks5::proto::messages::MAX_METHODS;
use crate::socks5::proto::Address;
use crate::socks5::proto::AddressView;
use crate::socks5::proto::AuthenticationMethod;
use crate::socks5::proto::CommandType;
use crate::socks5::proto::ConversionError;
use crate::socks5::server::offers;

verus! {

/// Where a client session stands.
#[derive(Debug, Clone, Copy, PartialEq, Eq, Structural)]
pub enum ClientState {
    /// Nothing was sent yet.
    Idle,
    /// The greeting was sent; the server's choice is awaited.
    Greeted,
    /// The credentials were sent; the server's verdict is awaited.
    Authenticating,
    /// The request was sent; the server's response is awaited.
    Requested,
    /// The proxy is connected to the target: the stream is the caller's.
    Established,
    /// The session ended without a connection to the target.
    Closed,
}

/// What a driver reports to a client session.
pub enum ClientEvent {
    /// These bytes were read from the server.
    Received(Vec<u8>),
    /// The transport to the server failed or ended.
    Failed(std::io::Error),
}

/// A [`ClientEvent`] as a mathematical value.
pub enum ClientEventView {
    Received(Seq<u8>),
    Failed(std::io::Error),
}

impl View for ClientEvent {
    type V = ClientEventView;

    open spec fn view(&self) -> ClientEventView {
        match self {
            ClientEvent::Received(bytes) => ClientEventView::Received(bytes@),
            ClientEvent::Failed(error) => ClientEventView::Failed(*error),
        }
    }
}

/// What a driver does once it has sent the bytes of an action.
pub enum ClientNext {
    /// Read exactly this many bytes from the server and report them.
    Read(usize),
    /// The stream is ready for application traffic. These bytes came from the
    /// server behind its response and are the first of that traffic.
    Established(Vec<u8>),
    /// End the session with this error.
    Fail(ClientError),
    /// Nothing: the session is over.
    Closed,
}

/// A [`ClientNext`] as a mathematical value.
pub enum ClientNextView {
    Read(nat),
    Established(Seq<u8>),
    Fail(ClientError),
    Closed,
}

impl View for ClientNext {
    type V = ClientNextView;

    open spec fn view(&self) -> ClientNextView {
        match self {
            ClientNext::Read(count) => ClientNextView::Read(*count as nat),
            ClientNext::Established(pending) => ClientNextView::Established(pending@),
            ClientNext::Fail(error) => ClientNextView::Fail(*error),
            ClientNext::Closed => ClientNextView::Closed,
        }
    }
}

/// How a client session answers an event: bytes to send to the server, then
/// what to do next.
pub struct ClientAction {
    pub send: Vec<u8>,
    pub next: ClientNext,
}

/// A [`ClientAction`] as a mathematical value.
pub struct ClientActionView {
    pub send: Seq<u8>,
    pub next: ClientNextView,
}

impl View for ClientAction {
    type V = ClientActionView;

    open spec fn view(&self) -> ClientActionView {
        ClientActionView { send: self.send@, next: self.next@ }
    }
}

/// A client session as a mathematical value.
pub struct ClientModel {
    /// The credentials that the client presents where the server asks.
    pub credentials: CredentialsView,
    /// The methods that the client offers.
    pub offered: Seq<AuthenticationMethod>,
    /// The target of the connection; unspecified while the session is idle.
    pub address: AddressView,
    pub port: u16,
    pub state: ClientState,
    /// The bytes received from the server that no message has used yet.
    pub inbound: Seq<u8>,
}

/// The error that a fault in the server's bytes ends the session with.
pub open spec fn protocol_error(fault: Fault) -> ClientError {
    match fault {
        Fault::InvalidVersion { version } => ClientError::Protocol(
            ConversionError::InvalidProtocolVersion(version),
        ),
        _ => ClientError::Protocol(ConversionError::MalformedMessage),
    }
}

impl ClientModel {
    /// Whether the session has ended.
    pub open spec fn is_over(self) -> bool {
        self.state is Established || self.state is Closed
    }

    /// The session in another state.
    pub open spec fn in_state(self, state: ClientState) -> ClientModel {
        ClientModel { state, ..self }
    }

    /// The session with other unused bytes.
    pub open spec fn holding(self, inbound: Seq<u8>) -> ClientModel {
        ClientModel { inbound, ..self }
    }

    /// The session goes on in `state`: `send` is sent and `next` follows.
    pub open spec fn go(self, state: ClientState, send: Seq<u8>, next: ClientNextView) -> (
        ClientModel,
        ClientActionView,
    ) {
        (self.in_state(state), ClientActionView { send, next })
    }

    /// The session ends with `error`, and nothing more is sent.
    pub open spec fn fail(self, error: ClientError) -> (ClientModel, ClientActionView) {
        self.go(ClientState::Closed, Seq::empty(), ClientNextView::Fail(error))
    }

    /// The driver reported what the session did not await: the session is
    /// abandoned without a byte being sent.
    pub open spec fn abandon(self) -> (ClientModel, ClientActionView) {
        if self.is_over() {
            self.go(self.state, Seq::empty(), ClientNextView::Closed)
        } else {
            self.go(ClientState::Closed, Seq::empty(), ClientNextView::Closed)
        }
    }

    /// The greeting that offers the client's methods.
    pub open spec fn greeting(self) -> ClientGreetingView {
        ClientGreetingView { authentication_methods: self.offered }
    }

    /// The `CONNECT` request for the client's target.
    pub open spec fn request(self) -> RequestView {
        RequestView {
            command: CommandType(CommandType::CONNECT),
            address: self.address,
            port: self.port,
        }
    }

    /// Whether everything that the client may have to send has a wire form:
    /// the greeting, the request, and the credentials where username/password
    /// is offered.
    pub open spec fn sendable(self) -> bool {
        &&& self.greeting().encodable()
        &&& self.request().encodable()
        &&& self.offered.contains(AuthenticationMethod(AuthenticationMethod::USERNAME_PASSWORD))
            ==> presented(self.credentials.username, self.credentials.password).encodable()
    }

    /// The start of the handshake for the target `address` and `port`: the
    /// greeting is sent and the server's choice is awaited. Where something
    /// has no wire form the session ends with nothing sent.
    pub open spec fn connect_to_target(self, address: AddressView, port: u16) -> (
        ClientModel,
        ClientActionView,
    ) {
        let aimed = ClientModel { address, port, ..self };
        if !(self.state is Idle) {
            self.abandon()
        } else if aimed.sendable() {
            aimed.perform_handshake()
        } else {
            aimed.fail(ClientError::Protocol(ConversionError::MalformedMessage))
        }
    }

    /// The greeting is sent and the server's choice is awaited; a greeting
    /// of more than 255 methods ends the session with nothing sent.
    pub open spec fn perform_handshake(self) -> (ClientModel, ClientActionView) {
        if self.greeting().encodable() {
            self.go(
                ClientState::Greeted,
                self.greeting().wire(),
                ClientNextView::Read(wanted(ServerChoice::spec_parse(self.inbound))),
            )
        } else {
            self.fail(ClientError::Protocol(ConversionError::MalformedMessage))
        }
    }

    /// The answer to the server's choice: the request after
    /// `NO_AUTHENTICATION`, the credentials after `USERNAME_PASSWORD`, and
    /// the end of the session where the choice is the refusal code, was not
    /// offered, or is a method that the client cannot perform.
    pub open spec fn authenticate(self, method: AuthenticationMethod) -> (
        ClientModel,
        ClientActionView,
    ) {
        if method.0 == AuthenticationMethod::NO_ACCEPTABLE_METHODS || !self.offered.contains(
            method,
        ) {
            self.fail(ClientError::UnsupportedAuthMethod(method))
        } else if method.0 == AuthenticationMethod::NO_AUTHENTICATION {
            self.send_connect_request()
        } else if method.0 == AuthenticationMethod::USERNAME_PASSWORD {
            let credentials = presented(self.credentials.username, self.credentials.password);
            if credentials.encodable() {
                self.go(
                    ClientState::Authenticating,
                    credentials.wire(),
                    ClientNextView::Read(wanted(ServerResponse::spec_parse(self.inbound))),
                )
            } else {
                self.fail(ClientError::Protocol(ConversionError::MalformedMessage))
            }
        } else {
            self.fail(ClientError::UnsupportedAuthMethod(method))
        }
    }

    /// What follows the status of the sub-negotiation: the request is sent
    /// where it is success, and the session ends where it is failure.
    pub open spec fn check_status(self, verdict: ServerResponse) -> (
        ClientModel,
        ClientActionView,
    ) {
        if verdict.status.is_failure() {
            self.fail(ClientError::AuthenticationFailed)
        } else {
            self.send_connect_request()
        }
    }

    /// The `CONNECT` request is sent and the response is awaited; a target
    /// that has no wire form ends the session with nothing sent.
    pub open spec fn send_connect_request(self) -> (ClientModel, ClientActionView) {
        if self.request().encodable() {
            self.go(
                ClientState::Requested,
                self.request().wire(),
                ClientNextView::Read(wanted(ResponseView::parse(self.inbound))),
            )
        } else {
            self.fail(ClientError::Protocol(ConversionError::MalformedMessage))
        }
    }

    /// The answer to the server's response: the stream is ready where the
    /// reply is success, and the session ends with the reply where it is
    /// not.
    pub open spec fn check_response(self, response: ResponseView) -> (
        ClientModel,
        ClientActionView,
    ) {
        if response.reply.is_success() {
            self.holding(Seq::empty()).go(
                ClientState::Established,
                Seq::empty(),
                ClientNextView::Established(self.inbound),
            )
        } else {
            self.fail(ClientError::RequestFailed(response.reply))
        }
    }

    /// The answer to bytes from the server: they join the unused bytes, and
    /// the message that the state awaits is taken from their front. While it
    /// is incomplete the bytes that it lacks are asked for; a fault in it
    /// ends the session.
    pub open spec fn received(self, bytes: Seq<u8>) -> (ClientModel, ClientActionView) {
        let inbound = self.inbound + bytes;
        let held = self.holding(inbound);
        match self.state {
            ClientState::Greeted => {
                let parsed = ServerChoice::spec_parse(inbound);
                match parsed.result {
                    Ok(choice) => held.holding(inbound.skip(parsed.consumed as int)).authenticate(
                        choice.chosen_authentication_method,
                    ),
                    Err(Fault::Truncated { missing }) => held.go(
                        self.state,
                        Seq::empty(),
                        ClientNextView::Read(missing),
                    ),
                    Err(fault) => held.fail(protocol_error(fault)),
                }
            },
            ClientState::Authenticating => {
                let parsed = ServerResponse::spec_parse(inbound);
                match parsed.result {
                    Ok(verdict) => held.holding(
                        inbound.skip(parsed.consumed as int),
                    ).check_status(verdict),
                    Err(Fault::Truncated { missing }) => held.go(
                        self.state,
                        Seq::empty(),
                        ClientNextView::Read(missing),
                    ),
                    Err(fault) => held.fail(protocol_error(fault)),
                }
            },
            ClientState::Requested => {
                let parsed = ResponseView::parse(inbound);
                match parsed.result {
                    Ok(response) => held.holding(
                        inbound.skip(parsed.consumed as int),
                    ).check_response(response),
                    Err(Fault::Truncated { missing }) => held.go(
                        self.state,
                        Seq::empty(),
                        ClientNextView::Read(missing),
                    ),
                    Err(fault) => held.fail(protocol_error(fault)),
                }
            },
            _ => self.abandon(),
        }
    }

    /// The session after `event`, and the action that answers it.
    pub open spec fn step(self, event: ClientEventView) -> (ClientModel, ClientActionView) {
        match event {
            ClientEventView::Received(bytes) => self.received(bytes),
            ClientEventView::Failed(error) => if self.is_over() {
                self.abandon()
            } else {
                self.fail(ClientError::IoError(error))
            },
        }
    }
}

/// A session that has ended stays as it is and sends nothing, whatever is
/// reported to it.
pub proof fn lemma_ended_session_is_silent(client: ClientModel, event: ClientEventView)
    requires
        client.is_over(),
    ensures
        client.step(event) == (
            client,
            ClientActionView { send: Seq::empty(), next: ClientNextView::Closed },
        ),
{
}

/// A client whose greeting, target or offered credentials have no wire form
/// reports that before a single byte is sent.
pub proof fn lemma_nothing_is_sent_without_wire_form(
    client: ClientModel,
    address: AddressView,
    port: u16,
)
    requires
        client.state is Idle,
        !(ClientModel { address, port, ..client }).sendable(),
    ensures
        client.connect_to_target(address, port).1 == (ClientActionView {
            send: Seq::empty(),
            next: ClientNextView::Fail(
                ClientError::Protocol(ConversionError::MalformedMessage),
            ),
        }),
        client.connect_to_target(address, port).0.state is Closed,
{
}

/// A choice that the client did not offer, the refusal code among them,
/// ends the session as an unsupported method with nothing sent.
pub proof fn lemma_unoffered_choice_is_refused(client: ClientModel, method: AuthenticationMethod)
    requires
        !client.offered.contains(method) || method.0
            == AuthenticationMethod::NO_ACCEPTABLE_METHODS,
    ensures
        client.authenticate(method) == client.fail(ClientError::UnsupportedAuthMethod(method)),
{
}

/// How many bytes the message that the state awaits lacks, where the state
/// awaits a message and `inbound` holds a truncated one.
pub open spec fn awaited(client: ClientModel, inbound: Seq<u8>) -> Option<nat> {
    match client.state {
        ClientState::Greeted => match ServerChoice::spec_parse(inbound).result {
            Err(Fault::Truncated { missing }) => Some(missing),
            _ => None,
        },
        ClientState::Authenticating => match ServerResponse::spec_parse(inbound).result {
            Err(Fault::Truncated { missing }) => Some(missing),
            _ => None,
        },
        ClientState::Requested => match ResponseView::parse(inbound).result {
            Err(Fault::Truncated { missing }) => Some(missing),
            _ => None,
        },
        _ => None,
    }
}

/// Reads are exact: where the driver delivers just the bytes that were
/// asked for, the session either still awaits the same message or has used
/// every byte that it received, so that a stream which becomes the caller's
/// has lost none of the caller's bytes.
pub proof fn lemma_client_reads_are_exact(client: ClientModel, bytes: Seq<u8>)
    requires
        awaited(client, client.inbound) == Some(bytes.len()),
    ensures
        ({
            let (after, action) = client.step(ClientEventView::Received(bytes));
            &&& (after == client.holding(client.inbound + bytes) || after.inbound.len() == 0
                || after.state is Closed)
            &&& action.next matches ClientNextView::Established(pending) ==> pending.len() == 0
        }),
{
    match client.state {
        ClientState::Greeted => {
            lemma_server_choice_exact_read(client.inbound, bytes);
        },
        ClientState::Authenticating => {
            lemma_server_response_exact_read(client.inbound, bytes);
        },
        ClientState::Requested => {
            lemma_response_exact_read(client.inbound, bytes);
        },
        _ => {},
    }
}

/// A client session: the state machine that asks a proxy for one
/// connection.
pub struct Socks5Client {
    credentials: Arc<Credentials>,
    offered: Vec<AuthenticationMethod>,
    address: Address,
    port: u16,
    state: ClientState,
    inbound: Vec<u8>,
}

impl View for Socks5Client {
    type V = ClientModel;

    closed spec fn view(&self) -> ClientModel {
        ClientModel {
            credentials: self.credentials@,
            offered: self.offered@,
            address: self.address@,
            port: self.port,
            state: self.state,
            inbound: self.inbound@,
        }
    }
}

/// An action that sends `send` and goes on with `next`.
fn action(send: Vec<u8>, next: ClientNext) -> (r: ClientAction)
    ensures
        r@ == (ClientActionView { send: send@, next: next@ }),
{
    ClientAction { send, next }
}

/// The address of a session that has no target yet.
pub open spec fn unspecified() -> AddressView {
    AddressView::Ipv4(seq![0u8, 0u8, 0u8, 0u8])
}

impl Socks5Client {
    /// An idle session that offers no authentication and username/password,
    /// in that order, and presents `credentials` where the server picks the
    /// latter.
    pub fn new(credentials: Arc<Credentials>) -> (r: Self)
        ensures
            r@ == (ClientModel {
                credentials: credentials@,
                offered: seq![
                    AuthenticationMethod(AuthenticationMethod::NO_AUTHENTICATION),
                    AuthenticationMethod(AuthenticationMethod::USERNAME_PASSWORD),
                ],
                address: unspecified(),
                port: 0,
                state: ClientState::Idle,
                inbound: Seq::empty(),
            }),
    {
        let mut offered: Vec<AuthenticationMethod> = Vec::new();
        offered.push(AuthenticationMethod(AuthenticationMethod::NO_AUTHENTICATION));
        offered.push(AuthenticationMethod(AuthenticationMethod::USERNAME_PASSWORD));
        proof {
            assert(offered@ =~= seq![
                AuthenticationMethod(AuthenticationMethod::NO_AUTHENTICATION),
                AuthenticationMethod(AuthenticationMethod::USERNAME_PASSWORD),
            ]);
        }
        Socks5Client::with_methods(credentials, offered)
    }

    /// An idle session that offers the methods `offered`.
    pub fn with_methods(credentials: Arc<Credentials>, offered: Vec<AuthenticationMethod>) -> (r:
        Self)
        ensures
            r@ == (ClientModel {
                credentials: credentials@,
                offered: offered@,
                address: unspecified(),
                port: 0,
                state: ClientState::Idle,
                inbound: Seq::empty(),
            }),
    {
        let octets = [0u8, 0u8, 0u8, 0u8];
        Socks5Client {
            credentials,
            offered,
            address: Address::Ipv4(octets),
            port: 0,
            state: ClientState::Idle,
            inbound: Vec::new(),
        }
    }

    /// Where the session stands.
    pub fn state(&self) -> (r: ClientState)
        ensures
            r == self@.state,
    {
        self.state
    }

    /// Ends the session with `error`.
    fn fail(&mut self, error: ClientError) -> (r: ClientAction)
        ensures
            (final(self)@, r@) == old(self)@.fail(error),
    {
        self.state = ClientState::Closed;
        action(Vec::new(), ClientNext::Fail(error))
    }

    /// Abandons the session without sending a byte.
    fn abandon(&mut self) -> (r: ClientAction)
        ensures
            (final(self)@, r@) == old(self)@.abandon(),
    {
        match self.state {
            ClientState::Established => {},
            ClientState::Closed => {},
            _ => {
                self.state = ClientState::Closed;
            },
        }
        action(Vec::new(), ClientNext::Closed)
    }

    /// Whether everything that the session may have to send has a wire form.
    fn sendable(&self) -> (r: bool)
        ensures
            r == self@.sendable(),
    {
        let address_fits = match &self.address {
            Address::Domain(domain) => domain.len() <= MAX_DOMAIN_LENGTH,
            _ => true,
        };
        let credentials_fit = self.credentials.username.len() <= MAX_CREDENTIAL_LENGTH
            && self.credentials.password.len() <= MAX_CREDENTIAL_LENGTH;
        let asks_credentials = offers(
            self.offered.as_slice(),
            AuthenticationMethod(AuthenticationMethod::USERNAME_PASSWORD),
        );
        self.offered.len() <= MAX_METHODS && address_fits && (!asks_credentials || credentials_fit)
    }

    /// Starts the handshake for a connection to `target_addr` and
    /// `target_port`.
    pub fn connect_to_target(&mut self, target_addr: Address, target_port: u16) -> (r:
        ClientAction)
        ensures
            (final(self)@, r@) == old(self)@.connect_to_target(target_addr@, target_port),
    {
        match self.state {
            ClientState::Idle => {
                self.address = target_addr;
                self.port = target_port;
                if self.sendable() {
                    self.perform_handshake()
                } else {
                    self.fail(ClientError::Protocol(ConversionError::MalformedMessage))
                }
            },
            _ => self.abandon(),
        }
    }

    /// Sends the greeting that offers the session's methods.
    pub fn perform_handshake(&mut self) -> (r: ClientAction)
        ensures
            (final(self)@, r@) == old(self)@.perform_handshake(),
    {
        let mut send: Vec<u8> = Vec::new();
        let done = write_greeting(self.offered.as_slice(), &mut send);
        match done {
            Ok(()) => {
                self.state = ClientState::Greeted;
                let count = peek_front::<ServerChoice>(self.inbound.as_slice());
                action(send, ClientNext::Read(count))
            },
            Err(error) => self.fail(ClientError::Protocol(error)),
        }
    }

    /// Goes on after the server's choice of `method`.
    pub fn authenticate(&mut self, method: AuthenticationMethod) -> (r: ClientAction)
        ensures
            (final(self)@, r@) == old(self)@.authenticate(method),
    {
        if method.0 == AuthenticationMethod::NO_ACCEPTABLE_METHODS || !offers(
            self.offered.as_slice(),
            method,
        ) {
            self.fail(ClientError::UnsupportedAuthMethod(method))
        } else if method.0 == AuthenticationMethod::NO_AUTHENTICATION {
            self.send_connect_request()
        } else if method.0 == AuthenticationMethod::USERNAME_PASSWORD {
            match username_password_auth_impl(&self.credentials) {
                Ok(send) => {
                    self.state = ClientState::Authenticating;
                    let count = peek_front::<ServerResponse>(self.inbound.as_slice());
                    action(send, ClientNext::Read(count))
                },
                Err(error) => self.fail(error),
            }
        } else {
            self.fail(ClientError::UnsupportedAuthMethod(method))
        }
    }

    /// Goes on after the server's verdict on the credentials.
    pub fn check_status(&mut self, verdict: &ServerResponse) -> (r: ClientAction)
        ensures
            (final(self)@, r@) == old(self)@.check_status(*verdict),
    {
        if verdict.status.is_failure() {
            self.fail(ClientError::AuthenticationFailed)
        } else {
            self.send_connect_request()
        }
    }

    /// Sends the `CONNECT` request for the session's target.
    pub fn send_connect_request(&mut self) -> (r: ClientAction)
        ensures
            (final(self)@, r@) == old(self)@.send_connect_request(),
    {
        let mut send: Vec<u8> = Vec::new();
        match write_frame(CommandType::CONNECT, &self.address, self.port, &mut send) {
            Ok(()) => {
                self.state = ClientState::Requested;
                let count = peek_front::<Response>(self.inbound.as_slice());
                action(send, ClientNext::Read(count))
            },
            Err(error) => self.fail(ClientError::Protocol(error)),
        }
    }

    /// Goes on after the server's response to the request.
    pub fn check_response(&mut self, response: &Response) -> (r: ClientAction)
        ensures
            (final(self)@, r@) == old(self)@.check_response(response@),
    {
        if response.reply.is_success() {
            let mut pending: Vec<u8> = Vec::new();
            pending.append(&mut self.inbound);
            self.state = ClientState::Established;
            action(Vec::new(), ClientNext::Established(pending))
        } else {
            self.fail(ClientError::RequestFailed(response.reply))
        }
    }

    /// Answers bytes read from the server.
    fn received(&mut self, bytes: Vec<u8>) -> (r: ClientAction)
        ensures
            (final(self)@, r@) == old(self)@.received(bytes@),
    {
        let mut bytes = bytes;
        match self.state {
            ClientState::Greeted => {
                self.inbound.append(&mut bytes);
                match take_front::<ServerChoice>(&mut self.inbound) {
                    Ok(Front::Message(choice)) => self.authenticate(
                        choice.chosen_authentication_method,
                    ),
                    Ok(Front::Missing(count)) => action(Vec::new(), ClientNext::Read(count)),
                    Err(error) => self.fail(ClientError::Protocol(error)),
                }
            },
            ClientState::Authenticating => {
                self.inbound.append(&mut bytes);
                match take_front::<ServerResponse>(&mut self.inbound) {
                    Ok(Front::Message(verdict)) => self.check_status(&verdict),
                    Ok(Front::Missing(count)) => action(Vec::new(), ClientNext::Read(count)),
                    Err(error) => self.fail(ClientError::Protocol(error)),
                }
            },
            ClientState::Requested => {
                self.inbound.append(&mut bytes);
                match take_front::<Response>(&mut self.inbound) {
                    Ok(Front::Message(response)) => self.check_response(&response),
                    Ok(Front::Missing(count)) => action(Vec::new(), ClientNext::Read(count)),
                    Err(error) => self.fail(ClientError::Protocol(error)),
                }
            },
            _ => self.abandon(),
        }
    }

    /// Takes the handshake one step further: takes what the driver reports
    /// and answers with what the driver is to do.
    pub fn advance(&mut self, event: ClientEvent) -> (r: ClientAction)
        ensures
            (final(self)@, r@) == old(self)@.step(event@),
    {
        match event {
            ClientEvent::Received(bytes) => self.received(bytes),
            ClientEvent::Failed(error) => match self.state {
                ClientState::Established => self.abandon(),
                ClientState::Closed => self.abandon(),
                _ => self.fail(ClientError::IoError(error)),
            },
        }
    }
}

} // verus!
