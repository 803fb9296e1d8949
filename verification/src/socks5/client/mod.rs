//! The client side of a SOCKS5 session.

use vstd::prelude::*;
use vstd::std_specs::convert::FromSpecImpl;
use crate::socks5::credentials::Credentials;
use crate::socks5::proto::messages::auth::username_password::ClientAuthenticationRequestView;
use crate::socks5::proto::messages::auth::username_password::AUTH_VERSION;
use crate::socks5::proto::messages::auth::username_password::MAX_CREDENTIAL_LENGTH;
use crate::socks5::proto::AuthenticationMethod;
use crate::socks5::proto::ConversionError;
use crate::socks5::proto::Reply;

pub mod session;

pub use session::ClientAction;
pub use session::ClientEvent;
pub use session::ClientNext;
pub use session::ClientState;
pub use session::Socks5Client;

verus! {

/// Why a client session ended without a connection to its target.
#[derive(Debug)]
pub enum ClientError {
    /// The transport to the server failed.
    IoError(std::io::Error),
    /// The server sent bytes that are not the expected message, or the
    /// client was given values that have no wire form.
    Protocol(ConversionError),
    /// The server chose a method that the client did not offer or cannot
    /// perform.
    UnsupportedAuthMethod(AuthenticationMethod),
    /// The server refused the client's credentials.
    AuthenticationFailed,
    /// The server answered the request with a reply other than success.
    RequestFailed(Reply),
}

impl From<std::io::Error> for ClientError {
    fn from(value: std::io::Error) -> (r: Self) {
        ClientError::IoError(value)
    }
}

impl FromSpecImpl<std::io::Error> for ClientError {
    open spec fn obeys_from_spec() -> bool {
        true
    }

    open spec fn from_spec(value: std::io::Error) -> Self {
        ClientError::IoError(value)
    }
}

impl From<ConversionError> for ClientError {
    fn from(value: ConversionError) -> (r: Self) {
        ClientError::Protocol(value)
    }
}

impl FromSpecImpl<ConversionError> for ClientError {
    open spec fn obeys_from_spec() -> bool {
        true
    }

    open spec fn from_spec(value: ConversionError) -> Self {
        ClientError::Protocol(value)
    }
}

/// The credentials as the request of the username/password exchange.
pub open spec fn presented(username: Seq<u8>, password: Seq<u8>) -> ClientAuthenticationRequestView {
    ClientAuthenticationRequestView { username, password }
}

/// Opens the username/password exchange: yields the bytes that present
/// `credentials` to the server.
///
/// A username or password longer than 255 bytes is reported as a malformed
/// message, and there is nothing to send.
pub fn username_password_auth_impl(credentials: &Credentials) -> (r: Result<Vec<u8>, ClientError>)
    ensures
        presented(credentials@.username, credentials@.password).encodable() ==> {
            &&& r matches Ok(bytes)
            &&& bytes@ == presented(credentials@.username, credentials@.password).wire()
        },
        !presented(credentials@.username, credentials@.password).encodable() ==> r == Err::<
            Vec<u8>,
            ClientError,
        >(ClientError::Protocol(ConversionError::MalformedMessage)),
{
    if credentials.username.len() > MAX_CREDENTIAL_LENGTH || credentials.password.len()
        > MAX_CREDENTIAL_LENGTH {
        return Err(ClientError::Protocol(ConversionError::MalformedMessage));
    }
    let mut bytes: Vec<u8> = Vec::new();
    bytes.push(AUTH_VERSION);
    bytes.push(credentials.username.len() as u8);
    crate::codec::write_all(&mut bytes, credentials.username.as_slice());
    bytes.push(credentials.password.len() as u8);
    crate::codec::write_all(&mut bytes, credentials.password.as_slice());
    Ok(bytes)
}

} // verus!
