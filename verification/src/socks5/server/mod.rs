//! The server side of a SOCKS5 session.

use vstd::prelude::*;
use vstd::std_specs::convert::FromSpecImpl;
use crate::socks5::proto::messages::Request;
use crate::socks5::proto::messages::Response;
use crate::socks5::proto::messages::ResponseView;
use crate::socks5::proto::AuthenticationMethod;
use crate::socks5::proto::CommandType;
use crate::socks5::proto::ConversionError;
use crate::socks5::proto::Reply;

pub mod session;

pub use session::ServerAction;
pub use session::ServerEvent;
pub use session::ServerNext;
pub use session::ServerState;
pub use session::Socks5Server;

verus! {

/// Why a server session ended without serving its client.
#[derive(Debug)]
pub enum ServerError {
    /// The transport to the client failed.
    IoError(std::io::Error),
    /// The client sent bytes that are not the expected message.
    Protocol(ConversionError),
    /// The client offered no authentication method that the server supports.
    NoAcceptableAuthMethods,
    /// The client's credentials were refused.
    AuthenticationFailed,
    /// The client asked for a command that the server does not support.
    CommandNotSupported(CommandType),
    /// The server could not fulfil the request after it had answered it.
    RequestFailed(Reply),
}

impl ServerError {
    /// Whether the error is one of authentication.
    pub fn is_auth_error(&self) -> (r: bool)
        ensures
            r == (*self is AuthenticationFailed || *self is NoAcceptableAuthMethods),
    {
        match self {
            ServerError::AuthenticationFailed => true,
            ServerError::NoAcceptableAuthMethods => true,
            _ => false,
        }
    }
}

impl From<std::io::Error> for ServerError {
    fn from(value: std::io::Error) -> (r: Self) {
        ServerError::IoError(value)
    }
}

impl FromSpecImpl<std::io::Error> for ServerError {
    open spec fn obeys_from_spec() -> bool {
        true
    }

    open spec fn from_spec(value: std::io::Error) -> Self {
        ServerError::IoError(value)
    }
}

impl From<ConversionError> for ServerError {
    fn from(value: ConversionError) -> (r: Self) {
        ServerError::Protocol(value)
    }
}

impl FromSpecImpl<ConversionError> for ServerError {
    open spec fn obeys_from_spec() -> bool {
        true
    }

    open spec fn from_spec(value: ConversionError) -> Self {
        ServerError::Protocol(value)
    }
}

/// Whether a server may select `method`: every code but the one that
/// refuses all methods.
pub open spec fn selectable(method: AuthenticationMethod) -> bool {
    method.0 != AuthenticationMethod::NO_ACCEPTABLE_METHODS
}

/// The method that a server selects: the first of those it supports, in its
/// own order of preference, that the client offers; the refusal code where
/// there is none.
pub open spec fn selected_method(
    offered: Seq<AuthenticationMethod>,
    supported: Seq<AuthenticationMethod>,
) -> AuthenticationMethod
    decreases supported.len(),
{
    if supported.len() == 0 {
        AuthenticationMethod(AuthenticationMethod::NO_ACCEPTABLE_METHODS)
    } else if selectable(supported[0]) && offered.contains(supported[0]) {
        supported[0]
    } else {
        selected_method(offered, supported.skip(1))
    }
}

/// The selected method is offered and supported wherever some method is
/// both, and is the refusal code wherever none is.
pub proof fn lemma_method_intersection(
    offered: Seq<AuthenticationMethod>,
    supported: Seq<AuthenticationMethod>,
)
    ensures
        (exists|m: AuthenticationMethod| offered.contains(m) && supported.contains(m)) ==> {
            &&& offered.contains(selected_method(offered, supported))
            &&& supported.contains(selected_method(offered, supported))
        },
        !(exists|m: AuthenticationMethod| offered.contains(m) && supported.contains(m))
            ==> selected_method(offered, supported) == AuthenticationMethod(
            AuthenticationMethod::NO_ACCEPTABLE_METHODS,
        ),
        selectable(selected_method(offered, supported)) <==> (exists|m: AuthenticationMethod|
            selectable(m) && offered.contains(m) && supported.contains(m)),
    decreases supported.len(),
{
    if supported.len() > 0 {
        let rest = supported.skip(1);
        lemma_method_intersection(offered, rest);
        assert forall|m: AuthenticationMethod| supported.contains(m) <==> (m == supported[0]
            || rest.contains(m)) by {
            if supported.contains(m) {
                let i = choose|i: int| 0 <= i < supported.len() && supported[i] == m;
                if i > 0 {
                    assert(rest[i - 1] == m);
                }
            }
            if rest.contains(m) {
                let i = choose|i: int| 0 <= i < rest.len() && rest[i] == m;
                assert(supported[i + 1] == m);
            }
        }
    }
}

/// Selects the method for a client that offers `offered`, for a server that
/// supports `supported` in that order of preference.
pub fn select_method(offered: &[AuthenticationMethod], supported: &[AuthenticationMethod]) -> (r:
    AuthenticationMethod)
    ensures
        r == selected_method(offered@, supported@),
{
    let mut i: usize = 0;
    proof {
        assert(supported@.skip(0) =~= supported@);
    }
    while i < supported.len()
        invariant
            i <= supported@.len(),
            selected_method(offered@, supported@) == selected_method(
                offered@,
                supported@.skip(i as int),
            ),
        decreases supported@.len() - i,
    {
        let candidate = supported[i];
        proof {
            assert(supported@.skip(i as int).skip(1) =~= supported@.skip(i + 1));
        }
        if candidate.0 != AuthenticationMethod::NO_ACCEPTABLE_METHODS && offers(
            offered,
            candidate,
        ) {
            return candidate;
        }
        i = i + 1;
    }
    AuthenticationMethod(AuthenticationMethod::NO_ACCEPTABLE_METHODS)
}

/// Whether `method` is among `offered`.
pub fn offers(offered: &[AuthenticationMethod], method: AuthenticationMethod) -> (r: bool)
    ensures
        r == offered@.contains(method),
{
    let mut i: usize = 0;
    while i < offered.len()
        invariant
            i <= offered@.len(),
            forall|j: int| 0 <= j < i ==> offered@[j] != method,
        decreases offered@.len() - i,
    {
        if offered[i] == method {
            return true;
        }
        i = i + 1;
    }
    false
}

/// What follows the selection of `method` for a server that performs no
/// sub-negotiation: success for `NO_AUTHENTICATION`, and for every other
/// method the error that no acceptable method was found.
pub fn default_authenticate_impl(method: AuthenticationMethod) -> (r: Result<(), ServerError>)
    ensures
        method.0 == AuthenticationMethod::NO_AUTHENTICATION ==> r == Ok::<(), ServerError>(()),
        method.0 != AuthenticationMethod::NO_AUTHENTICATION ==> r == Err::<(), ServerError>(
            ServerError::NoAcceptableAuthMethods,
        ),
{
    if method.0 == AuthenticationMethod::NO_AUTHENTICATION {
        Ok(())
    } else {
        Err(ServerError::NoAcceptableAuthMethods)
    }
}

/// What a server does with a request.
pub enum RequestDecision {
    /// Connect to the target of the request.
    Connect,
    /// Send this response, then fail with this error.
    Reject(Response, ServerError),
}

/// Dispatches a request on its command: `CONNECT` is to be connected, and
/// every other command is rejected with the reply `COMMAND_NOT_SUPPORTED`,
/// a zeroed bound endpoint and the error `CommandNotSupported`.
pub fn default_handle_request_impl(request: &Request) -> (r: RequestDecision)
    ensures
        request.command.0 == CommandType::CONNECT ==> r is Connect,
        request.command.0 != CommandType::CONNECT ==> {
            &&& r matches RequestDecision::Reject(response, error)
            &&& response@ == ResponseView::error(Reply(Reply::COMMAND_NOT_SUPPORTED))
            &&& error == ServerError::CommandNotSupported(request.command)
        },
{
    if request.command.0 == CommandType::CONNECT {
        RequestDecision::Connect
    } else {
        RequestDecision::Reject(
            Response::unsupported_command(),
            ServerError::CommandNotSupported(request.command),
        )
    }
}

} // verus!
