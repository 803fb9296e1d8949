//! The messages of the main protocol: greeting, choice, request and response.

use vstd::prelude::*;
use crate::codec::be16;
use crate::codec::high_octet;
use crate::codec::lemma_be16_round_trip;
use crate::codec::low_octet;
use crate::codec::split_be16;
use crate::codec::Decoder;
use crate::codec::Encoder;
use crate::codec::Fault;
use crate::codec::Parsed;
use crate::codec::Reader;
use crate::socks5::proto::address::lemma_address_exact_read;
use crate::socks5::proto::address::lemma_address_parse_bounds;
use crate::socks5::proto::address::MAX_DOMAIN_LENGTH;
use crate::socks5::proto::address::lemma_address_round_trip;
use crate::socks5::proto::Address;
use crate::socks5::proto::AddressType;
use crate::socks5::proto::AddressView;
use crate::socks5::proto::AuthenticationMethod;
use crate::socks5::proto::CommandType;
use crate::socks5::proto::ConversionError;
use crate::socks5::proto::Reply;
use crate::socks5::proto::RESERVED;
use crate::socks5::proto::VERSION;

pub mod auth;

verus! {

/// The most methods that the one-byte count of a greeting can announce.
pub const MAX_METHODS: usize = 255;

/// The codes of a sequence of methods, in order.
pub open spec fn method_codes(methods: Seq<AuthenticationMethod>) -> Seq<u8> {
    Seq::new(methods.len(), |i: int| methods[i].0)
}

/// The methods that a sequence of codes names, in order.
pub open spec fn methods_of(codes: Seq<u8>) -> Seq<AuthenticationMethod> {
    Seq::new(codes.len(), |i: int| AuthenticationMethod(codes[i]))
}

/// The client's first message: the authentication methods that it offers.
#[derive(Debug, Clone)]
pub struct ClientGreeting {
    pub authentication_methods: Vec<AuthenticationMethod>,
}

/// A [`ClientGreeting`] as a mathematical value.
pub struct ClientGreetingView {
    pub authentication_methods: Seq<AuthenticationMethod>,
}

impl View for ClientGreeting {
    type V = ClientGreetingView;

    open spec fn view(&self) -> ClientGreetingView {
        ClientGreetingView { authentication_methods: self.authentication_methods@ }
    }
}

impl ClientGreetingView {
    /// Whether the number of methods fits the one-byte count.
    pub open spec fn encodable(self) -> bool {
        self.authentication_methods.len() <= MAX_METHODS
    }

    /// The version, the number of methods, then one byte for each method.
    pub open spec fn wire(self) -> Seq<u8> {
        seq![VERSION, self.authentication_methods.len() as u8] + method_codes(
            self.authentication_methods,
        )
    }

    /// What a stream that holds `input` and then ends decodes to.
    pub open spec fn parse(input: Seq<u8>) -> Parsed<ClientGreetingView> {
        if input.len() < 1 {
            Parsed::truncated(input.len(), 1)
        } else if input[0] != VERSION {
            Parsed::invalid_version(input[0], 1)
        } else if input.len() < 2 {
            Parsed::truncated(input.len(), 1)
        } else if input.len() < 2 + input[1] {
            Parsed::truncated(input.len(), (2 + input[1] - input.len()) as nat)
        } else {
            Parsed::complete(
                ClientGreetingView {
                    authentication_methods: methods_of(input.subrange(2, 2 + input[1])),
                },
                (2 + input[1]) as nat,
            )
        }
    }
}

/// Decoding the wire form of an encodable greeting yields that greeting and
/// consumes exactly its wire form, whatever follows it in the stream. A
/// greeting that offers no method is no exception.
pub proof fn lemma_client_greeting_round_trip(greeting: ClientGreetingView, rest: Seq<u8>)
    requires
        greeting.encodable(),
    ensures
        ClientGreetingView::parse(greeting.wire() + rest) == Parsed::complete(
            greeting,
            greeting.wire().len(),
        ),
{
    let input = greeting.wire() + rest;
    assert(methods_of(input.subrange(2, 2 + input[1])) =~= greeting.authentication_methods);
}

/// A greeting whose first octet is not the protocol version is rejected with
/// that octet, and nothing after it is consumed.
pub proof fn lemma_client_greeting_version(input: Seq<u8>)
    requires
        input.len() >= 1,
        input[0] != VERSION,
    ensures
        ClientGreetingView::parse(input) == Parsed::<ClientGreetingView>::invalid_version(
            input[0],
            1,
        ),
{
}

/// Appends the greeting that offers `methods` to `writer`.
///
/// A greeting of more than 255 methods is rejected and nothing is written.
pub fn write_greeting(methods: &[AuthenticationMethod], writer: &mut Vec<u8>) -> (r: Result<
    (),
    ConversionError,
>)
    ensures
        methods@.len() <= MAX_METHODS ==> r == Ok::<(), ConversionError>(()) && final(writer)@
            == old(writer)@ + (ClientGreetingView { authentication_methods: methods@ }).wire(),
        methods@.len() > MAX_METHODS ==> r == Err::<(), ConversionError>(
            ConversionError::MalformedMessage,
        ) && final(writer)@ == old(writer)@,
{
    let count = methods.len();
    if count > MAX_METHODS {
        return Err(ConversionError::MalformedMessage);
    }
    writer.push(VERSION);
    writer.push(count as u8);
    let mut i: usize = 0;
    while i < count
        invariant
            i <= count,
            count == methods@.len(),
            writer@ == old(writer)@ + seq![VERSION, count as u8] + method_codes(methods@).take(
                i as int,
            ),
        decreases count - i,
    {
        writer.push(methods[i].0);
        i = i + 1;
    }
    Ok(())
}

impl Encoder for ClientGreeting {
    open spec fn encodable(&self) -> bool {
        self@.encodable()
    }

    open spec fn wire(&self) -> Seq<u8> {
        self@.wire()
    }

    /// A greeting with more than 255 methods is rejected.
    fn write_to(&self, writer: &mut Vec<u8>) -> (r: Result<(), ConversionError>) {
        write_greeting(self.authentication_methods.as_slice(), writer)
    }
}

impl Decoder for ClientGreeting {
    open spec fn parse(input: Seq<u8>) -> Parsed<ClientGreetingView> {
        ClientGreetingView::parse(input)
    }

    /// Reads the version, the count, then exactly that many method codes.
    fn read_from(reader: &mut Reader) -> (r: Result<Self, ConversionError>) {
        let ghost input = reader.remaining();
        let version = reader.read_u8()?;
        if version != VERSION {
            return Err(ConversionError::InvalidProtocolVersion(version));
        }
        let count = reader.read_u8()?;
        let codes = reader.read_exact(count as usize)?;
        let mut methods: Vec<AuthenticationMethod> = Vec::new();
        let mut i: usize = 0;
        while i < codes.len()
            invariant
                i <= codes@.len(),
                methods@ == methods_of(codes@.take(i as int)),
            decreases codes@.len() - i,
        {
            methods.push(AuthenticationMethod(codes[i]));
            i = i + 1;
        }
        proof {
            assert(codes@.take(i as int) =~= codes@);
            assert(codes@ =~= input.subrange(2, 2 + input[1]));
        }
        Ok(ClientGreeting { authentication_methods: methods })
    }
}

/// The frame that requests and responses share: version, one code octet, the
/// reserved octet, an address and a port.
pub struct Frame {
    pub code: u8,
    pub address: Address,
    pub port: u16,
}

/// A [`Frame`] as a mathematical value.
pub struct FrameView {
    pub code: u8,
    pub address: AddressView,
    pub port: u16,
}

impl View for Frame {
    type V = FrameView;

    open spec fn view(&self) -> FrameView {
        FrameView { code: self.code, address: self.address@, port: self.port }
    }
}

impl FrameView {
    /// Whether the address fits the wire format.
    pub open spec fn encodable(self) -> bool {
        self.address.encodable()
    }

    /// Version, code, a zero octet, the address, then the port with its
    /// more significant octet first.
    pub open spec fn wire(self) -> Seq<u8> {
        seq![VERSION, self.code, RESERVED] + self.address.wire() + seq![
            high_octet(self.port),
            low_octet(self.port),
        ]
    }

    /// What a stream that holds `input` and then ends decodes to. The
    /// reserved octet is consumed and its value is ignored.
    pub open spec fn parse(input: Seq<u8>) -> Parsed<FrameView> {
        if input.len() < 1 {
            Parsed::truncated(input.len(), 1)
        } else if input[0] != VERSION {
            Parsed::invalid_version(input[0], 1)
        } else if input.len() < 3 {
            Parsed::truncated(input.len(), 1)
        } else {
            let address = AddressView::parse(input.skip(3));
            let end = 3 + address.consumed as int;
            match address.result {
                Err(fault) => Parsed { result: Err(fault), consumed: end as nat },
                Ok(value) => if input.len() < end + 2 {
                    Parsed::truncated(input.len(), (end + 2 - input.len()) as nat)
                } else {
                    Parsed::complete(
                        FrameView {
                            code: input[1],
                            address: value,
                            port: be16(input[end], input[end + 1]),
                        },
                        (end + 2) as nat,
                    )
                },
            }
        }
    }
}

/// Decoding the wire form of an encodable frame yields that frame and
/// consumes exactly its wire form, whatever follows it in the stream.
pub proof fn lemma_frame_round_trip(frame: FrameView, rest: Seq<u8>)
    requires
        frame.encodable(),
    ensures
        FrameView::parse(frame.wire() + rest) == Parsed::complete(frame, frame.wire().len()),
{
    let input = frame.wire() + rest;
    let port = seq![high_octet(frame.port), low_octet(frame.port)];
    assert(input.skip(3) =~= frame.address.wire() + (port + rest));
    lemma_address_round_trip(frame.address, port + rest);
}

/// A frame whose first octet is not the protocol version is rejected with
/// that octet, and nothing after it is consumed.
pub proof fn lemma_frame_version(input: Seq<u8>)
    requires
        input.len() >= 1,
        input[0] != VERSION,
    ensures
        FrameView::parse(input) == Parsed::<FrameView>::invalid_version(input[0], 1),
{
}

/// A frame whose address tag is none of the three known ones is malformed.
pub proof fn lemma_frame_unknown_address_tag(input: Seq<u8>)
    requires
        input.len() >= 4,
        input[0] == VERSION,
        input[3] != AddressType::IP_V4,
        input[3] != AddressType::DOMAIN_NAME,
        input[3] != AddressType::IP_V6,
    ensures
        FrameView::parse(input) == Parsed::<FrameView>::malformed(4),
{
}

/// Appends the frame with this code, address and port to `writer`.
///
/// A frame whose address cannot be encoded is rejected and nothing is
/// written.
pub fn write_frame(code: u8, address: &Address, port: u16, writer: &mut Vec<u8>) -> (r: Result<
    (),
    ConversionError,
>)
    ensures
        address@.encodable() ==> r == Ok::<(), ConversionError>(()) && final(writer)@ == old(
            writer,
        )@ + (FrameView { code, address: address@, port }).wire(),
        !address@.encodable() ==> r == Err::<(), ConversionError>(
            ConversionError::MalformedMessage,
        ) && final(writer)@ == old(writer)@,
{
    match address {
        Address::Domain(domain) => {
            if domain.len() > MAX_DOMAIN_LENGTH {
                return Err(ConversionError::MalformedMessage);
            }
        },
        _ => {},
    }
    writer.push(VERSION);
    writer.push(code);
    writer.push(RESERVED);
    address.write_to(writer)?;
    let (high, low) = split_be16(port);
    writer.push(high);
    writer.push(low);
    Ok(())
}

impl Decoder for Frame {
    open spec fn parse(input: Seq<u8>) -> Parsed<FrameView> {
        FrameView::parse(input)
    }

    /// Reads version, code and reserved octet one by one, then the address
    /// and the port.
    fn read_from(reader: &mut Reader) -> (r: Result<Self, ConversionError>) {
        let ghost input = reader.remaining();
        let version = reader.read_u8()?;
        if version != VERSION {
            return Err(ConversionError::InvalidProtocolVersion(version));
        }
        let code = reader.read_u8()?;
        let _reserved = reader.read_u8()?;
        proof {
            assert(reader.remaining() =~= input.skip(3));
            lemma_address_parse_bounds(input.skip(3));
        }
        let address = Address::read_from(reader)?;
        let port = reader.read_u16()?;
        Ok(Frame { code, address, port })
    }
}

/// The server's answer to a greeting: the method that it selects, or
/// `NO_ACCEPTABLE_METHODS`.
#[derive(Debug, Clone)]
pub struct ServerChoice {
    pub chosen_authentication_method: AuthenticationMethod,
}

impl View for ServerChoice {
    type V = ServerChoice;

    open spec fn view(&self) -> ServerChoice {
        *self
    }
}

impl ServerChoice {
    /// The version, then the code of the chosen method.
    pub open spec fn spec_wire(self) -> Seq<u8> {
        seq![VERSION, self.chosen_authentication_method.0]
    }

    /// What a stream that holds `input` and then ends decodes to.
    pub open spec fn spec_parse(input: Seq<u8>) -> Parsed<ServerChoice> {
        if input.len() < 1 {
            Parsed::truncated(input.len(), 1)
        } else if input[0] != VERSION {
            Parsed::invalid_version(input[0], 1)
        } else if input.len() < 2 {
            Parsed::truncated(input.len(), 1)
        } else {
            Parsed::complete(
                ServerChoice { chosen_authentication_method: AuthenticationMethod(input[1]) },
                2,
            )
        }
    }
}

/// Decoding the wire form of a choice yields that choice and consumes exactly
/// its two bytes, whatever follows them in the stream.
pub proof fn lemma_server_choice_round_trip(choice: ServerChoice, rest: Seq<u8>)
    ensures
        ServerChoice::spec_parse(choice.spec_wire() + rest) == Parsed::complete(choice, 2),
{
}

/// A choice whose first octet is not the protocol version is rejected with
/// that octet, and nothing after it is consumed.
pub proof fn lemma_server_choice_version(input: Seq<u8>)
    requires
        input.len() >= 1,
        input[0] != VERSION,
    ensures
        ServerChoice::spec_parse(input) == Parsed::<ServerChoice>::invalid_version(input[0], 1),
{
}

impl Encoder for ServerChoice {
    open spec fn encodable(&self) -> bool {
        true
    }

    open spec fn wire(&self) -> Seq<u8> {
        self.spec_wire()
    }

    fn write_to(&self, writer: &mut Vec<u8>) -> (r: Result<(), ConversionError>) {
        writer.push(VERSION);
        writer.push(self.chosen_authentication_method.0);
        Ok(())
    }
}

impl Decoder for ServerChoice {
    open spec fn parse(input: Seq<u8>) -> Parsed<ServerChoice> {
        ServerChoice::spec_parse(input)
    }

    /// The version is checked before the method is read.
    fn read_from(reader: &mut Reader) -> (r: Result<Self, ConversionError>) {
        let version = reader.read_u8()?;
        if version != VERSION {
            return Err(ConversionError::InvalidProtocolVersion(version));
        }
        let method = reader.read_u8()?;
        Ok(ServerChoice { chosen_authentication_method: AuthenticationMethod(method) })
    }
}

/// What a client asks of the proxy: a command and the target it applies to.
#[derive(Debug, Clone)]
pub struct Request {
    pub command: CommandType,
    pub address: Address,
    pub port: u16,
}

/// A [`Request`] as a mathematical value.
pub struct RequestView {
    pub command: CommandType,
    pub address: AddressView,
    pub port: u16,
}

impl View for Request {
    type V = RequestView;

    open spec fn view(&self) -> RequestView {
        RequestView { command: self.command, address: self.address@, port: self.port }
    }
}

impl RequestView {
    /// The frame that carries this request.
    pub open spec fn frame(self) -> FrameView {
        FrameView { code: self.command.0, address: self.address, port: self.port }
    }

    /// The request that a frame carries.
    pub open spec fn of_frame(frame: FrameView) -> RequestView {
        RequestView { command: CommandType(frame.code), address: frame.address, port: frame.port }
    }

    /// Whether the target address fits the wire format.
    pub open spec fn encodable(self) -> bool {
        self.address.encodable()
    }

    /// Version, command, a zero octet, address, port.
    pub open spec fn wire(self) -> Seq<u8> {
        self.frame().wire()
    }

    /// What a stream that holds `input` and then ends decodes to.
    pub open spec fn parse(input: Seq<u8>) -> Parsed<RequestView> {
        let frame = FrameView::parse(input);
        match frame.result {
            Ok(value) => Parsed::complete(RequestView::of_frame(value), frame.consumed),
            Err(fault) => Parsed { result: Err(fault), consumed: frame.consumed },
        }
    }
}

/// Decoding the wire form of an encodable request yields that request and
/// consumes exactly its wire form, whatever follows it in the stream and
/// whichever of the three address forms it holds.
pub proof fn lemma_request_round_trip(request: RequestView, rest: Seq<u8>)
    requires
        request.encodable(),
    ensures
        RequestView::parse(request.wire() + rest) == Parsed::complete(
            request,
            request.wire().len(),
        ),
{
    lemma_frame_round_trip(request.frame(), rest);
}

/// A request whose first octet is not the protocol version is rejected with
/// that octet, and nothing after it is consumed.
pub proof fn lemma_request_version(input: Seq<u8>)
    requires
        input.len() >= 1,
        input[0] != VERSION,
    ensures
        RequestView::parse(input) == Parsed::<RequestView>::invalid_version(input[0], 1),
{
}

impl Encoder for Request {
    open spec fn encodable(&self) -> bool {
        self@.encodable()
    }

    open spec fn wire(&self) -> Seq<u8> {
        self@.wire()
    }

    /// A request whose address cannot be encoded is rejected.
    fn write_to(&self, writer: &mut Vec<u8>) -> (r: Result<(), ConversionError>) {
        write_frame(self.command.0, &self.address, self.port, writer)
    }
}

impl Decoder for Request {
    open spec fn parse(input: Seq<u8>) -> Parsed<RequestView> {
        RequestView::parse(input)
    }

    /// The reserved octet is consumed and its value is ignored.
    fn read_from(reader: &mut Reader) -> (r: Result<Self, ConversionError>) {
        let frame = Frame::read_from(reader)?;
        Ok(Request { command: CommandType(frame.code), address: frame.address, port: frame.port })
    }
}

/// How the proxy answers a request: a reply code and the bound endpoint.
#[derive(Debug, Clone)]
pub struct Response {
    pub reply: Reply,
    pub address: Address,
    pub port: u16,
}

/// A [`Response`] as a mathematical value.
pub struct ResponseView {
    pub reply: Reply,
    pub address: AddressView,
    pub port: u16,
}

impl View for Response {
    type V = ResponseView;

    open spec fn view(&self) -> ResponseView {
        ResponseView { reply: self.reply, address: self.address@, port: self.port }
    }
}

impl ResponseView {
    /// The frame that carries this response.
    pub open spec fn frame(self) -> FrameView {
        FrameView { code: self.reply.0, address: self.address, port: self.port }
    }

    /// The response that a frame carries.
    pub open spec fn of_frame(frame: FrameView) -> ResponseView {
        ResponseView { reply: Reply(frame.code), address: frame.address, port: frame.port }
    }

    /// Whether the bound address fits the wire format.
    pub open spec fn encodable(self) -> bool {
        self.address.encodable()
    }

    /// Version, reply, a zero octet, address, port.
    pub open spec fn wire(self) -> Seq<u8> {
        self.frame().wire()
    }

    /// What a stream that holds `input` and then ends decodes to.
    pub open spec fn parse(input: Seq<u8>) -> Parsed<ResponseView> {
        let frame = FrameView::parse(input);
        match frame.result {
            Ok(value) => Parsed::complete(ResponseView::of_frame(value), frame.consumed),
            Err(fault) => Parsed { result: Err(fault), consumed: frame.consumed },
        }
    }

    /// The response that reports `reply` with the unspecified IPv4 address
    /// and port zero as its bound endpoint.
    pub open spec fn error(reply: Reply) -> ResponseView {
        ResponseView { reply, address: AddressView::Ipv4(seq![0u8, 0u8, 0u8, 0u8]), port: 0 }
    }
}

/// Decoding the wire form of an encodable response yields that response and
/// consumes exactly its wire form, whatever follows it in the stream and
/// whichever of the three address forms it holds.
pub proof fn lemma_response_round_trip(response: ResponseView, rest: Seq<u8>)
    requires
        response.encodable(),
    ensures
        ResponseView::parse(response.wire() + rest) == Parsed::complete(
            response,
            response.wire().len(),
        ),
{
    lemma_frame_round_trip(response.frame(), rest);
}

/// A response whose first octet is not the protocol version is rejected
/// with that octet, and nothing after it is consumed.
pub proof fn lemma_response_version(input: Seq<u8>)
    requires
        input.len() >= 1,
        input[0] != VERSION,
    ensures
        ResponseView::parse(input) == Parsed::<ResponseView>::invalid_version(input[0], 1),
{
}

/// An error response is ten bytes: version, reply, and eight zero octets
/// but for the IPv4 tag.
pub proof fn lemma_error_response_wire(reply: Reply)
    ensures
        ResponseView::error(reply).encodable(),
        ResponseView::error(reply).wire() == seq![
            VERSION,
            reply.0,
            0u8,
            AddressType::IP_V4,
            0u8,
            0u8,
            0u8,
            0u8,
            0u8,
            0u8,
        ],
{
}

impl Response {
    /// The response that reports `reply` with a zeroed bound endpoint.
    pub fn new_error(reply: Reply) -> (r: Self)
        ensures
            r@ == ResponseView::error(reply),
    {
        let address = [0u8, 0u8, 0u8, 0u8];
        Response { reply, address: Address::Ipv4(address), port: 0 }
    }

    /// The response to a target that could not be reached.
    pub fn host_unreachable() -> (r: Self)
        ensures
            r@ == ResponseView::error(Reply(Reply::HOST_UNREACHABLE)),
    {
        Response::new_error(Reply(Reply::HOST_UNREACHABLE))
    }

    /// The response to a command that the proxy does not support.
    pub fn unsupported_command() -> (r: Self)
        ensures
            r@ == ResponseView::error(Reply(Reply::COMMAND_NOT_SUPPORTED)),
    {
        Response::new_error(Reply(Reply::COMMAND_NOT_SUPPORTED))
    }
}

impl Encoder for Response {
    open spec fn encodable(&self) -> bool {
        self@.encodable()
    }

    open spec fn wire(&self) -> Seq<u8> {
        self@.wire()
    }

    /// A response whose address cannot be encoded is rejected.
    fn write_to(&self, writer: &mut Vec<u8>) -> (r: Result<(), ConversionError>) {
        write_frame(self.reply.0, &self.address, self.port, writer)
    }
}

impl Decoder for Response {
    open spec fn parse(input: Seq<u8>) -> Parsed<ResponseView> {
        ResponseView::parse(input)
    }

    /// The reserved octet is consumed and its value is ignored.
    fn read_from(reader: &mut Reader) -> (r: Result<Self, ConversionError>) {
        let frame = Frame::read_from(reader)?;
        Ok(Response { reply: Reply(frame.code), address: frame.address, port: frame.port })
    }
}

/// What is decoded can be encoded: a greeting that decoding yields fits
/// the wire format, and its wire form is the very bytes that were consumed.
pub proof fn lemma_client_greeting_parse_bounds(input: Seq<u8>)
    ensures
        ClientGreetingView::parse(input).consumed <= input.len(),
        ClientGreetingView::parse(input).result matches Ok(greeting) ==> greeting.encodable()
            && greeting.wire() == input.take(ClientGreetingView::parse(input).consumed as int),
{
    let parsed = ClientGreetingView::parse(input);
    if let Ok(greeting) = parsed.result {
        assert(greeting.wire() =~= input.take(parsed.consumed as int));
    }
}

/// What is decoded can be encoded: a frame that decoding yields has an
/// address that fits the wire format, and its wire form is the bytes that
/// were consumed but for the reserved octet, which is written as zero.
pub proof fn lemma_frame_parse_bounds(input: Seq<u8>)
    ensures
        FrameView::parse(input).consumed <= input.len(),
        FrameView::parse(input).result matches Ok(frame) ==> frame.encodable() && frame.wire()
            == input.take(FrameView::parse(input).consumed as int).update(2, RESERVED),
{
    let parsed = FrameView::parse(input);
    if input.len() >= 3 {
        lemma_address_parse_bounds(input.skip(3));
        if let Ok(frame) = parsed.result {
            let end = 3 + AddressView::parse(input.skip(3)).consumed as int;
            assert(frame.address.wire() =~= input.subrange(3, end));
            lemma_be16_round_trip(0, input[end], input[end + 1]);
            assert(frame.wire() =~= input.take(parsed.consumed as int).update(2, RESERVED));
        }
    }
}

/// Reads are exact: where a greeting is truncated and the stream then
/// yields just the bytes that the failed read lacked, decoding takes every
/// byte and leaves none unread.
pub proof fn lemma_client_greeting_exact_read(input: Seq<u8>, more: Seq<u8>)
    requires
        ClientGreetingView::parse(input).result == Err::<ClientGreetingView, Fault>(
            Fault::Truncated { missing: more.len() },
        ),
    ensures
        ClientGreetingView::parse(input + more).consumed == (input + more).len(),
{
    let joined = input + more;
    if input.len() >= 1 {
        assert(joined[0] == input[0]);
    }
    if input.len() >= 2 {
        assert(joined[1] == input[1]);
    }
}

/// Reads are exact: where a choice is truncated and the stream then yields
/// just the byte that the failed read lacked, decoding takes every byte and
/// leaves none unread.
pub proof fn lemma_server_choice_exact_read(input: Seq<u8>, more: Seq<u8>)
    requires
        ServerChoice::spec_parse(input).result == Err::<ServerChoice, Fault>(
            Fault::Truncated { missing: more.len() },
        ),
    ensures
        ServerChoice::spec_parse(input + more).consumed == (input + more).len(),
{
    let joined = input + more;
    if input.len() >= 1 {
        assert(joined[0] == input[0]);
    }
}

/// Reads are exact: where a frame is truncated and the stream then yields
/// just the bytes that the failed read lacked, decoding takes every byte
/// and leaves none unread.
pub proof fn lemma_frame_exact_read(input: Seq<u8>, more: Seq<u8>)
    requires
        FrameView::parse(input).result == Err::<FrameView, Fault>(
            Fault::Truncated { missing: more.len() },
        ),
    ensures
        FrameView::parse(input + more).consumed == (input + more).len(),
{
    let joined = input + more;
    if input.len() >= 1 {
        assert(joined[0] == input[0]);
    }
    if input.len() >= 3 {
        let rest = input.skip(3);
        assert(joined.skip(3) =~= rest + more);
        lemma_address_parse_bounds(rest);
        lemma_address_parse_bounds(rest + more);
        let address = AddressView::parse(rest);
        match address.result {
            Ok(value) => {
                assert(rest =~= value.wire() + rest.skip(address.consumed as int));
                lemma_address_round_trip(value, rest.skip(address.consumed as int));
                assert(rest + more =~= value.wire() + (rest.skip(address.consumed as int) + more));
                lemma_address_round_trip(value, rest.skip(address.consumed as int) + more);
            },
            Err(fault) => {
                lemma_address_exact_read(rest, more);
            },
        }
    }
}

/// Reads are exact for requests as they are for frames.
pub proof fn lemma_request_exact_read(input: Seq<u8>, more: Seq<u8>)
    requires
        RequestView::parse(input).result == Err::<RequestView, Fault>(
            Fault::Truncated { missing: more.len() },
        ),
    ensures
        RequestView::parse(input + more).consumed == (input + more).len(),
{
    lemma_frame_exact_read(input, more);
}

/// Reads are exact for responses as they are for frames.
pub proof fn lemma_response_exact_read(input: Seq<u8>, more: Seq<u8>)
    requires
        ResponseView::parse(input).result == Err::<ResponseView, Fault>(
            Fault::Truncated { missing: more.len() },
        ),
    ensures
        ResponseView::parse(input + more).consumed == (input + more).len(),
{
    lemma_frame_exact_read(input, more);
}

} // verus!
