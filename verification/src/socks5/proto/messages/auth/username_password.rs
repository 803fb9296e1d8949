//! The username/password sub-negotiation of RFC 1929.

use vstd::prelude::*;
use crate::codec::write_all;
use crate::codec::Decoder;
use crate::codec::Encoder;
use crate::codec::Fault;
use crate::codec::Parsed;
use crate::codec::Reader;
use crate::socks5::proto::ConversionError;
use crate::socks5::proto::Status;

verus! {

/// The version carried by the first octet of both sub-negotiation messages.
pub const AUTH_VERSION: u8 = 0x01;

/// The longest username or password that a one-byte length can announce.
pub const MAX_CREDENTIAL_LENGTH: usize = 255;

/// The credentials that a client presents.
#[derive(Debug, Clone)]
pub struct ClientAuthenticationRequest {
    pub username: Vec<u8>,
    pub password: Vec<u8>,
}

/// A [`ClientAuthenticationRequest`] as a mathematical value.
pub struct ClientAuthenticationRequestView {
    pub username: Seq<u8>,
    pub password: Seq<u8>,
}

impl View for ClientAuthenticationRequest {
    type V = ClientAuthenticationRequestView;

    open spec fn view(&self) -> ClientAuthenticationRequestView {
        ClientAuthenticationRequestView { username: self.username@, password: self.password@ }
    }
}

impl ClientAuthenticationRequestView {
    /// Whether username and password each fit their one-byte length.
    pub open spec fn encodable(self) -> bool {
        self.username.len() <= MAX_CREDENTIAL_LENGTH && self.password.len()
            <= MAX_CREDENTIAL_LENGTH
    }

    /// The sub-negotiation version, then username and password, each
    /// preceded by its length.
    pub open spec fn wire(self) -> Seq<u8> {
        seq![AUTH_VERSION, self.username.len() as u8] + self.username + seq![
            self.password.len() as u8,
        ] + self.password
    }

    /// What a stream that holds `input` and then ends decodes to.
    pub open spec fn parse(input: Seq<u8>) -> Parsed<ClientAuthenticationRequestView> {
        if input.len() < 1 {
            Parsed::truncated(input.len(), 1)
        } else if input[0] != AUTH_VERSION {
            Parsed::invalid_version(input[0], 1)
        } else if input.len() < 2 {
            Parsed::truncated(input.len(), 1)
        } else if input.len() < 2 + input[1] {
            Parsed::truncated(input.len(), (2 + input[1] - input.len()) as nat)
        } else {
            let at = 2 + input[1] as int;
            if input.len() < at + 1 {
                Parsed::truncated(input.len(), 1)
            } else if input.len() < at + 1 + input[at] {
                Parsed::truncated(input.len(), (at + 1 + input[at] - input.len()) as nat)
            } else {
                Parsed::complete(
                    ClientAuthenticationRequestView {
                        username: input.subrange(2, at),
                        password: input.subrange(at + 1, at + 1 + input[at]),
                    },
                    (at + 1 + input[at]) as nat,
                )
            }
        }
    }
}

/// Decoding the wire form of encodable credentials yields those credentials
/// and consumes exactly their wire form, whatever follows it in the stream.
pub proof fn lemma_client_authentication_request_round_trip(
    request: ClientAuthenticationRequestView,
    rest: Seq<u8>,
)
    requires
        request.encodable(),
    ensures
        ClientAuthenticationRequestView::parse(request.wire() + rest) == Parsed::complete(
            request,
            request.wire().len(),
        ),
{
    let input = request.wire() + rest;
    let at = 2 + input[1] as int;
    assert(input.subrange(2, at) =~= request.username);
    assert(input.subrange(at + 1, at + 1 + input[at]) =~= request.password);
}

/// Credentials whose first octet is not the sub-negotiation version are
/// rejected with that octet, and nothing after it is consumed.
pub proof fn lemma_client_authentication_request_version(input: Seq<u8>)
    requires
        input.len() >= 1,
        input[0] != AUTH_VERSION,
    ensures
        ClientAuthenticationRequestView::parse(input) == Parsed::<
            ClientAuthenticationRequestView,
        >::invalid_version(input[0], 1),
{
}

impl Encoder for ClientAuthenticationRequest {
    open spec fn encodable(&self) -> bool {
        self@.encodable()
    }

    open spec fn wire(&self) -> Seq<u8> {
        self@.wire()
    }

    /// A username or password longer than 255 bytes is rejected.
    fn write_to(&self, writer: &mut Vec<u8>) -> (r: Result<(), ConversionError>) {
        if self.username.len() > MAX_CREDENTIAL_LENGTH || self.password.len()
            > MAX_CREDENTIAL_LENGTH {
            return Err(ConversionError::MalformedMessage);
        }
        writer.push(AUTH_VERSION);
        writer.push(self.username.len() as u8);
        write_all(writer, self.username.as_slice());
        writer.push(self.password.len() as u8);
        write_all(writer, self.password.as_slice());
        Ok(())
    }
}

impl Decoder for ClientAuthenticationRequest {
    open spec fn parse(input: Seq<u8>) -> Parsed<ClientAuthenticationRequestView> {
        ClientAuthenticationRequestView::parse(input)
    }

    /// Reads the version, then the username and the password, each after
    /// its length.
    fn read_from(reader: &mut Reader) -> (r: Result<Self, ConversionError>) {
        let ghost input = reader.remaining();
        let version = reader.read_u8()?;
        if version != AUTH_VERSION {
            return Err(ConversionError::InvalidProtocolVersion(version));
        }
        let ulen = reader.read_u8()?;
        let username = reader.read_vec(ulen as usize)?;
        let ghost at = 2 + input[1] as int;
        proof {
            assert(username@ =~= input.subrange(2, at));
        }
        let plen = reader.read_u8()?;
        let password = reader.read_vec(plen as usize)?;
        proof {
            assert(password@ =~= input.subrange(at + 1, at + 1 + input[at]));
        }
        Ok(ClientAuthenticationRequest { username, password })
    }
}

/// The server's verdict on the credentials.
#[derive(Debug, Clone)]
pub struct ServerResponse {
    pub status: Status,
}

impl View for ServerResponse {
    type V = ServerResponse;

    open spec fn view(&self) -> ServerResponse {
        *self
    }
}

impl ServerResponse {
    /// The sub-negotiation version, then the status.
    pub open spec fn spec_wire(self) -> Seq<u8> {
        seq![AUTH_VERSION, self.status.0]
    }

    /// What a stream that holds `input` and then ends decodes to.
    pub open spec fn spec_parse(input: Seq<u8>) -> Parsed<ServerResponse> {
        if input.len() < 1 {
            Parsed::truncated(input.len(), 1)
        } else if input[0] != AUTH_VERSION {
            Parsed::invalid_version(input[0], 1)
        } else if input.len() < 2 {
            Parsed::truncated(input.len(), 1)
        } else {
            Parsed::complete(ServerResponse { status: Status(input[1]) }, 2)
        }
    }

    /// The verdict that the credentials were refused.
    pub fn failure() -> (r: Self)
        ensures
            r == (ServerResponse { status: Status(Status::FAILURE) }),
    {
        ServerResponse { status: Status(Status::FAILURE) }
    }

    /// The verdict that the credentials were accepted.
    pub fn success() -> (r: Self)
        ensures
            r == (ServerResponse { status: Status(Status::SUCCESS) }),
    {
        ServerResponse { status: Status(Status::SUCCESS) }
    }
}

/// Decoding the wire form of a verdict yields that verdict, status byte for
/// status byte, and consumes exactly its two bytes.
pub proof fn lemma_server_response_round_trip(response: ServerResponse, rest: Seq<u8>)
    ensures
        ServerResponse::spec_parse(response.spec_wire() + rest) == Parsed::complete(response, 2),
{
}

/// A verdict whose first octet is not the sub-negotiation version is
/// rejected with that octet, and nothing after it is consumed.
pub proof fn lemma_server_response_version(input: Seq<u8>)
    requires
        input.len() >= 1,
        input[0] != AUTH_VERSION,
    ensures
        ServerResponse::spec_parse(input) == Parsed::<ServerResponse>::invalid_version(
            input[0],
            1,
        ),
{
}

impl Encoder for ServerResponse {
    open spec fn encodable(&self) -> bool {
        true
    }

    open spec fn wire(&self) -> Seq<u8> {
        self.spec_wire()
    }

    fn write_to(&self, writer: &mut Vec<u8>) -> (r: Result<(), ConversionError>) {
        writer.push(AUTH_VERSION);
        writer.push(self.status.0);
        Ok(())
    }
}

impl Decoder for ServerResponse {
    open spec fn parse(input: Seq<u8>) -> Parsed<ServerResponse> {
        ServerResponse::spec_parse(input)
    }

    /// The version is checked before the status is read.
    fn read_from(reader: &mut Reader) -> (r: Result<Self, ConversionError>) {
        let version = reader.read_u8()?;
        if version != AUTH_VERSION {
            return Err(ConversionError::InvalidProtocolVersion(version));
        }
        let status = reader.read_u8()?;
        Ok(ServerResponse { status: Status(status) })
    }
}

/// What is decoded can be encoded: credentials that decoding yields fit
/// the wire format, and their wire form is the very bytes that were
/// consumed.
pub proof fn lemma_client_authentication_request_parse_bounds(input: Seq<u8>)
    ensures
        ClientAuthenticationRequestView::parse(input).consumed <= input.len(),
        ClientAuthenticationRequestView::parse(input).result matches Ok(request)
            ==> request.encodable() && request.wire() == input.take(
            ClientAuthenticationRequestView::parse(input).consumed as int,
        ),
{
    let parsed = ClientAuthenticationRequestView::parse(input);
    if let Ok(request) = parsed.result {
        assert(request.wire() =~= input.take(parsed.consumed as int));
    }
}

/// Reads are exact: where credentials are truncated and the stream then
/// yields just the bytes that the failed read lacked, decoding takes every
/// byte and leaves none unread.
pub proof fn lemma_client_authentication_request_exact_read(input: Seq<u8>, more: Seq<u8>)
    requires
        ClientAuthenticationRequestView::parse(input).result == Err::<
            ClientAuthenticationRequestView,
            Fault,
        >(Fault::Truncated { missing: more.len() }),
    ensures
        ClientAuthenticationRequestView::parse(input + more).consumed == (input + more).len(),
{
    let joined = input + more;
    if input.len() >= 1 {
        assert(joined[0] == input[0]);
    }
    if input.len() >= 2 {
        assert(joined[1] == input[1]);
        let at = 2 + input[1] as int;
        if input.len() >= at + 1 {
            assert(joined[at] == input[at]);
        }
    }
}

/// Reads are exact: where a verdict is truncated and the stream then yields
/// just the byte that the failed read lacked, decoding takes every byte and
/// leaves none unread.
pub proof fn lemma_server_response_exact_read(input: Seq<u8>, more: Seq<u8>)
    requires
        ServerResponse::spec_parse(input).result == Err::<ServerResponse, Fault>(
            Fault::Truncated { missing: more.len() },
        ),
    ensures
        ServerResponse::spec_parse(input + more).consumed == (input + more).len(),
{
    let joined = input + more;
    if input.len() >= 1 {
        assert(joined[0] == input[0]);
    }
}

} // verus!
