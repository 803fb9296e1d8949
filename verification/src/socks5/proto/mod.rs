//! Protocol constants and the byte-coded types of the SOCKS5 wire format.
//!
//! The codes are thin wrappers over a single byte: the protocol admits values
//! that have no name, so every byte is representable and none is an error when
//! it is read.

use vstd::prelude::*;
use vstd::std_specs::cmp::PartialEqSpec;
use vstd::std_specs::cmp::PartialEqSpecImpl;
use vstd::std_specs::convert::FromSpecImpl;

pub mod address;
pub mod messages;

pub use address::Address;
pub use address::AddressView;

verus! {

/// The protocol version carried by the first octet of every SOCKS5 message.
pub const VERSION: u8 = 0x05;

/// The octet written in the reserved position of requests and responses.
pub const RESERVED: u8 = 0x00;

/// Makes `std::io::Error` known to the verifier as an opaque type: values
/// of it are carried from the transport to the caller and handed on as they
/// are, and nothing is claimed of what they hold.
#[verifier::external_type_specification]
#[verifier::external_body]
pub struct ExIoError(std::io::Error);

/// Why a message could not be encoded or decoded.
#[derive(Debug)]
pub enum ConversionError {
    /// The first octet of a message was not the expected version.
    InvalidProtocolVersion(u8),
    /// The bytes, or the value to encode, do not fit the shape of the message.
    MalformedMessage,
    /// The byte stream failed or ended inside a message.
    IoError(std::io::Error),
}

impl From<std::io::Error> for ConversionError {
    fn from(value: std::io::Error) -> (r: Self) {
        ConversionError::IoError(value)
    }
}

impl FromSpecImpl<std::io::Error> for ConversionError {
    open spec fn obeys_from_spec() -> bool {
        true
    }

    open spec fn from_spec(value: std::io::Error) -> Self {
        ConversionError::IoError(value)
    }
}

/// An authentication method code.
#[derive(PartialEq, Eq, Structural, Clone, Copy, Debug, Hash)]
pub struct AuthenticationMethod(pub u8);

impl AuthenticationMethod {
    pub const NO_AUTHENTICATION: u8 = 0x00;

    pub const GSSAPI: u8 = 0x01;

    pub const USERNAME_PASSWORD: u8 = 0x02;

    pub const IANA_CHALLENGE_HANDSHAKE: u8 = 0x03;

    pub const IANA_CHALLENGE_RESPONSE: u8 = 0x05;

    pub const IANA_SECURE_SOCKETS_LAYER: u8 = 0x06;

    pub const IANA_NDS: u8 = 0x07;

    pub const IANA_MULTI_AUTHENTICATION_FRAMEWORK: u8 = 0x08;

    pub const IANA_JSON_PARAMETER_BLOCK: u8 = 0x09;

    /// The code by which a server refuses every method that was offered.
    pub const NO_ACCEPTABLE_METHODS: u8 = 0xFF;

    /// Whether the code is one that IANA has not assigned.
    pub fn is_iana_unassigned(&self) -> (r: bool)
        ensures
            r == (self.0 == 0x04 || 0x0A <= self.0 <= 0x7F),
    {
        self.0 == 0x04 || (0x0A <= self.0 && self.0 <= 0x7F)
    }

    /// Whether the code lies in the range reserved for private use.
    pub fn is_reserved_for_private_use(&self) -> (r: bool)
        ensures
            r == (0x80 <= self.0 <= 0xFE),
    {
        0x80 <= self.0 && self.0 <= 0xFE
    }

    /// Whether the code has a name.
    pub fn is_recognized(self) -> (r: bool)
        ensures
            r == (self.0 <= 0x03 || 0x05 <= self.0 <= 0x09 || self.0 == 0xFF),
    {
        self.0 <= 0x03 || (0x05 <= self.0 && self.0 <= 0x09) || self.0 == 0xFF
    }
}

impl From<u8> for AuthenticationMethod {
    fn from(value: u8) -> (r: Self) {
        AuthenticationMethod(value)
    }
}

impl FromSpecImpl<u8> for AuthenticationMethod {
    open spec fn obeys_from_spec() -> bool {
        true
    }

    open spec fn from_spec(value: u8) -> Self {
        AuthenticationMethod(value)
    }
}

impl From<AuthenticationMethod> for u8 {
    fn from(value: AuthenticationMethod) -> (r: u8) {
        value.0
    }
}

impl FromSpecImpl<AuthenticationMethod> for u8 {
    open spec fn obeys_from_spec() -> bool {
        true
    }

    open spec fn from_spec(value: AuthenticationMethod) -> u8 {
        value.0
    }
}

/// The outcome of a sub-negotiation: zero is success, any other value is
/// failure.
///
/// Two statuses are equal under `==` when both are successes or both are
/// failures.
#[derive(Debug, Clone, Copy)]
pub struct Status(pub u8);

impl Status {
    pub const FAILURE: u8 = 1;

    pub const SUCCESS: u8 = 0;

    /// Whether the status reports success.
    #[verifier::when_used_as_spec(spec_is_success)]
    pub fn is_success(&self) -> (r: bool)
        ensures
            r == (self.0 == 0),
    {
        self.0 == 0x00
    }

    /// Whether the status reports failure.
    #[verifier::when_used_as_spec(spec_is_failure)]
    pub fn is_failure(&self) -> (r: bool)
        ensures
            r == (self.0 != 0),
    {
        0x01 <= self.0
    }

    /// A status is a success exactly when its byte is zero.
    pub open spec fn spec_is_success(&self) -> bool {
        self.0 == 0
    }

    /// A status is a failure exactly when its byte is not zero.
    pub open spec fn spec_is_failure(&self) -> bool {
        self.0 != 0
    }
}

impl PartialEq for Status {
    /// Two statuses are equal when both are successes or both are failures.
    fn eq(&self, other: &Self) -> (r: bool) {
        self.is_success() == other.is_success()
    }
}

impl PartialEqSpecImpl for Status {
    open spec fn obeys_eq_spec() -> bool {
        true
    }

    open spec fn eq_spec(&self, other: &Self) -> bool {
        self.is_success() == other.is_success()
    }
}

impl Eq for Status {

}

/// Zero is the one success, every other byte is a failure, and `==` on
/// statuses tells the two classes apart and nothing more.
pub proof fn lemma_status_partition(a: Status, b: Status)
    ensures
        Status(0x00).is_success(),
        a.0 != 0 ==> a.is_failure(),
        a.is_success() != a.is_failure(),
        PartialEqSpec::eq_spec(&a, &b) <==> (a.is_success() <==> b.is_success()),
        a.is_failure() && b.is_failure() ==> PartialEqSpec::eq_spec(&a, &b),
{
}

impl From<u8> for Status {
    fn from(value: u8) -> (r: Self) {
        Status(value)
    }
}

impl FromSpecImpl<u8> for Status {
    open spec fn obeys_from_spec() -> bool {
        true
    }

    open spec fn from_spec(value: u8) -> Self {
        Status(value)
    }
}

impl From<Status> for u8 {
    fn from(value: Status) -> (r: u8) {
        value.0
    }
}

impl FromSpecImpl<Status> for u8 {
    open spec fn obeys_from_spec() -> bool {
        true
    }

    open spec fn from_spec(value: Status) -> u8 {
        value.0
    }
}

/// The tag that tells the three address forms apart.
#[derive(PartialEq, Eq, Structural, Clone, Copy, Debug, Hash)]
pub struct AddressType(pub u8);

impl AddressType {
    pub const IP_V4: u8 = 0x01;

    pub const DOMAIN_NAME: u8 = 0x03;

    pub const IP_V6: u8 = 0x04;

    /// Whether the code has a name.
    pub fn is_recognized(self) -> (r: bool)
        ensures
            r == (self.0 == 0x01 || self.0 == 0x03 || self.0 == 0x04),
    {
        self.0 == 0x01 || self.0 == 0x03 || self.0 == 0x04
    }
}

impl From<u8> for AddressType {
    fn from(value: u8) -> (r: Self) {
        AddressType(value)
    }
}

impl FromSpecImpl<u8> for AddressType {
    open spec fn obeys_from_spec() -> bool {
        true
    }

    open spec fn from_spec(value: u8) -> Self {
        AddressType(value)
    }
}

impl From<AddressType> for u8 {
    fn from(value: AddressType) -> (r: u8) {
        value.0
    }
}

impl FromSpecImpl<AddressType> for u8 {
    open spec fn obeys_from_spec() -> bool {
        true
    }

    open spec fn from_spec(value: AddressType) -> u8 {
        value.0
    }
}

/// What a client asks the proxy to do.
#[derive(PartialEq, Eq, Structural, Clone, Copy, Debug, Hash)]
pub struct CommandType(pub u8);

impl CommandType {
    pub const CONNECT: u8 = 0x01;

    pub const BIND: u8 = 0x02;

    pub const UDP_ASSOCIATE: u8 = 0x03;

    /// Whether the code has a name.
    pub fn is_recognized(self) -> (r: bool)
        ensures
            r == (0x01 <= self.0 <= 0x03),
    {
        0x01 <= self.0 && self.0 <= 0x03
    }
}

impl From<u8> for CommandType {
    fn from(value: u8) -> (r: Self) {
        CommandType(value)
    }
}

impl FromSpecImpl<u8> for CommandType {
    open spec fn obeys_from_spec() -> bool {
        true
    }

    open spec fn from_spec(value: u8) -> Self {
        CommandType(value)
    }
}

impl From<CommandType> for u8 {
    fn from(value: CommandType) -> (r: u8) {
        value.0
    }
}

impl FromSpecImpl<CommandType> for u8 {
    open spec fn obeys_from_spec() -> bool {
        true
    }

    open spec fn from_spec(value: CommandType) -> u8 {
        value.0
    }
}

/// How the proxy answers a request.
#[derive(PartialEq, Eq, Structural, Clone, Copy, Debug, Hash)]
pub struct Reply(pub u8);

impl Reply {
    pub const SUCCESS: u8 = 0x00;

    pub const GENERAL_FAILURE: u8 = 0x01;

    pub const CONNECTION_NOT_ALLOWED_BY_RULESET: u8 = 0x02;

    pub const NETWORK_UNREACHABLE: u8 = 0x03;

    pub const HOST_UNREACHABLE: u8 = 0x04;

    pub const CONNECTION_REFUSED: u8 = 0x05;

    pub const TTL_EXPIRED: u8 = 0x06;

    pub const COMMAND_NOT_SUPPORTED: u8 = 0x07;

    pub const ADDRESS_TYPE_NOT_SUPPORTED: u8 = 0x08;

    /// Whether the reply reports success.
    #[verifier::when_used_as_spec(spec_is_success)]
    pub fn is_success(&self) -> (r: bool)
        ensures
            r == (self.0 == 0x00),
    {
        self.0 == Reply::SUCCESS
    }

    /// Whether the code is one that the protocol does not assign.
    pub fn is_unassigned(&self) -> (r: bool)
        ensures
            r == (0x09 <= self.0),
    {
        0x09 <= self.0
    }

    /// Whether the code has a name.
    pub fn is_recognized(self) -> (r: bool)
        ensures
            r == (self.0 <= 0x08),
    {
        self.0 <= 0x08
    }

    /// A reply reports success exactly when its byte is zero.
    pub open spec fn spec_is_success(&self) -> bool {
        self.0 == 0x00
    }
}

impl From<u8> for Reply {
    fn from(value: u8) -> (r: Self) {
        Reply(value)
    }
}

impl FromSpecImpl<u8> for Reply {
    open spec fn obeys_from_spec() -> bool {
        true
    }

    open spec fn from_spec(value: u8) -> Self {
        Reply(value)
    }
}

impl From<Reply> for u8 {
    fn from(value: Reply) -> (r: u8) {
        value.0
    }
}

impl FromSpecImpl<Reply> for u8 {
    open spec fn obeys_from_spec() -> bool {
        true
    }

    open spec fn from_spec(value: Reply) -> u8 {
        value.0
    }
}

} // verus!
