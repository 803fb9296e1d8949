//! The three address forms and their wire codec.

use vstd::prelude::*;
use vstd::slice::slice_to_vec;
use vstd::string::StringSliceAdditionalSpecFns;
use vstd::utf8::encode_utf8;
use vstd::std_specs::convert::FromSpecImpl;
use crate::codec::Decoder;
use crate::codec::Encoder;
use crate::codec::Fault;
use crate::codec::Parsed;
use crate::codec::Reader;
use crate::codec::write_all;
use crate::socks5::proto::AddressType;
use crate::socks5::proto::ConversionError;

verus! {

/// The longest domain name that the one-byte length prefix can announce.
pub const MAX_DOMAIN_LENGTH: usize = 255;

/// The target or bound address of a request or response.
///
/// A domain name is an opaque byte string; nothing asks it to be UTF-8.
#[derive(Debug, Clone, PartialEq, Eq, Hash)]
pub enum Address {
    /// The four octets of an IPv4 address, in network order.
    Ipv4([u8; 4]),
    /// A domain name of at most 255 bytes.
    Domain(Vec<u8>),
    /// The sixteen octets of an IPv6 address, in network order.
    Ipv6([u8; 16]),
}

/// An [`Address`] as a mathematical value.
pub enum AddressView {
    Ipv4(Seq<u8>),
    Domain(Seq<u8>),
    Ipv6(Seq<u8>),
}

impl View for Address {
    type V = AddressView;

    open spec fn view(&self) -> AddressView {
        match self {
            Address::Ipv4(octets) => AddressView::Ipv4(octets@),
            Address::Domain(domain) => AddressView::Domain(domain@),
            Address::Ipv6(octets) => AddressView::Ipv6(octets@),
        }
    }
}

impl From<[u8; 4]> for Address {
    /// The IPv4 address with these octets.
    fn from(value: [u8; 4]) -> (r: Self) {
        Address::Ipv4(value)
    }
}

impl FromSpecImpl<[u8; 4]> for Address {
    open spec fn obeys_from_spec() -> bool {
        true
    }

    open spec fn from_spec(value: [u8; 4]) -> Self {
        Address::Ipv4(value)
    }
}

impl From<[u8; 16]> for Address {
    /// The IPv6 address with these octets.
    fn from(value: [u8; 16]) -> (r: Self) {
        Address::Ipv6(value)
    }
}

impl FromSpecImpl<[u8; 16]> for Address {
    open spec fn obeys_from_spec() -> bool {
        true
    }

    open spec fn from_spec(value: [u8; 16]) -> Self {
        Address::Ipv6(value)
    }
}

impl From<Vec<u8>> for Address {
    /// The domain name that consists of these bytes.
    fn from(value: Vec<u8>) -> (r: Self) {
        Address::Domain(value)
    }
}

impl FromSpecImpl<Vec<u8>> for Address {
    open spec fn obeys_from_spec() -> bool {
        true
    }

    open spec fn from_spec(value: Vec<u8>) -> Self {
        Address::Domain(value)
    }
}

impl From<&[u8]> for Address {
    /// The domain name that consists of these bytes.
    fn from(value: &[u8]) -> (r: Self)
        ensures
            r@ == AddressView::Domain(value@),
    {
        Address::Domain(slice_to_vec(value))
    }
}

impl FromSpecImpl<&[u8]> for Address {
    open spec fn obeys_from_spec() -> bool {
        false
    }

    open spec fn from_spec(value: &[u8]) -> Self {
        arbitrary()
    }
}

impl From<&str> for Address {
    /// The domain name that consists of the UTF-8 bytes of this string.
    fn from(value: &str) -> (r: Self)
        ensures
            r@ == AddressView::Domain(value.spec_bytes()),
    {
        Address::Domain(slice_to_vec(value.as_bytes()))
    }
}

impl FromSpecImpl<&str> for Address {
    open spec fn obeys_from_spec() -> bool {
        false
    }

    open spec fn from_spec(value: &str) -> Self {
        arbitrary()
    }
}

impl From<String> for Address {
    /// The domain name that consists of the UTF-8 bytes of this string.
    fn from(value: String) -> (r: Self)
        ensures
            r@ == AddressView::Domain(encode_utf8(value@)),
    {
        Address::Domain(slice_to_vec(value.as_str().as_bytes()))
    }
}

impl FromSpecImpl<String> for Address {
    open spec fn obeys_from_spec() -> bool {
        false
    }

    open spec fn from_spec(value: String) -> Self {
        arbitrary()
    }
}

impl AddressView {
    /// Whether the address fits the wire format: the IP forms have their
    /// fixed lengths and a domain name fits its length prefix.
    pub open spec fn encodable(self) -> bool {
        match self {
            AddressView::Ipv4(octets) => octets.len() == 4,
            AddressView::Domain(domain) => domain.len() <= MAX_DOMAIN_LENGTH,
            AddressView::Ipv6(octets) => octets.len() == 16,
        }
    }

    /// The type tag, then the octets; a domain name is preceded by its
    /// length.
    pub open spec fn wire(self) -> Seq<u8> {
        match self {
            AddressView::Ipv4(octets) => seq![AddressType::IP_V4] + octets,
            AddressView::Domain(domain) => seq![AddressType::DOMAIN_NAME, domain.len() as u8]
                + domain,
            AddressView::Ipv6(octets) => seq![AddressType::IP_V6] + octets,
        }
    }

    /// What a stream that holds `input` and then ends decodes to.
    pub open spec fn parse(input: Seq<u8>) -> Parsed<AddressView> {
        if input.len() < 1 {
            Parsed::truncated(input.len(), 1)
        } else if input[0] == AddressType::IP_V4 {
            if input.len() < 5 {
                Parsed::truncated(input.len(), (5 - input.len()) as nat)
            } else {
                Parsed::complete(AddressView::Ipv4(input.subrange(1, 5)), 5)
            }
        } else if input[0] == AddressType::DOMAIN_NAME {
            if input.len() < 2 {
                Parsed::truncated(input.len(), 1)
            } else if input.len() < 2 + input[1] {
                Parsed::truncated(input.len(), (2 + input[1] - input.len()) as nat)
            } else {
                Parsed::complete(
                    AddressView::Domain(input.subrange(2, 2 + input[1])),
                    (2 + input[1]) as nat,
                )
            }
        } else if input[0] == AddressType::IP_V6 {
            if input.len() < 17 {
                Parsed::truncated(input.len(), (17 - input.len()) as nat)
            } else {
                Parsed::complete(AddressView::Ipv6(input.subrange(1, 17)), 17)
            }
        } else {
            Parsed::malformed(1)
        }
    }
}

/// Decoding the wire form of an encodable address yields that address and
/// consumes exactly its wire form, whatever follows it in the stream. For a
/// domain name of any length up to 255 the bytes come back unchanged.
pub proof fn lemma_address_round_trip(address: AddressView, rest: Seq<u8>)
    requires
        address.encodable(),
    ensures
        AddressView::parse(address.wire() + rest) == Parsed::complete(
            address,
            address.wire().len(),
        ),
{
    let input = address.wire() + rest;
    match address {
        AddressView::Ipv4(octets) => {
            assert(input.subrange(1, 5) =~= octets);
        },
        AddressView::Domain(domain) => {
            assert(input.subrange(2, 2 + input[1]) =~= domain);
        },
        AddressView::Ipv6(octets) => {
            assert(input.subrange(1, 17) =~= octets);
        },
    }
}

/// An address whose tag is none of the three known ones is malformed, and
/// only the tag is consumed.
pub proof fn lemma_address_unknown_tag(input: Seq<u8>)
    requires
        input.len() >= 1,
        input[0] != AddressType::IP_V4,
        input[0] != AddressType::DOMAIN_NAME,
        input[0] != AddressType::IP_V6,
    ensures
        AddressView::parse(input) == Parsed::<AddressView>::malformed(1),
{
}

/// Decoding never reads past the end of the input, yields only encodable
/// addresses, and reports a positive shortfall exactly when it drains a
/// truncated input.
pub proof fn lemma_address_parse_bounds(input: Seq<u8>)
    ensures
        AddressView::parse(input).consumed <= input.len(),
        AddressView::parse(input).result matches Ok(address) ==> address.encodable()
            && address.wire() == input.take(AddressView::parse(input).consumed as int),
        AddressView::parse(input).result matches Err(Fault::Truncated { missing }) ==> missing > 0
            && AddressView::parse(input).consumed == input.len(),
{
    let parsed = AddressView::parse(input);
    if let Ok(address) = parsed.result {
        assert(address.wire() =~= input.take(parsed.consumed as int));
    }
}

/// Reads are exact: where an address is truncated and the stream then
/// yields just the bytes that the failed read lacked, decoding takes every
/// byte and leaves none unread.
pub proof fn lemma_address_exact_read(input: Seq<u8>, more: Seq<u8>)
    requires
        AddressView::parse(input).result == Err::<AddressView, Fault>(
            Fault::Truncated { missing: more.len() },
        ),
    ensures
        AddressView::parse(input + more).consumed == (input + more).len(),
{
    let joined = input + more;
    if input.len() >= 1 {
        assert(joined[0] == input[0]);
    }
    if input.len() >= 2 {
        assert(joined[1] == input[1]);
    }
}

impl Encoder for Address {
    open spec fn encodable(&self) -> bool {
        self@.encodable()
    }

    open spec fn wire(&self) -> Seq<u8> {
        self@.wire()
    }

    /// A domain name longer than 255 bytes is rejected.
    fn write_to(&self, writer: &mut Vec<u8>) -> (r: Result<(), ConversionError>) {
        match self {
            Address::Ipv4(octets) => {
                writer.push(AddressType::IP_V4);
                write_all(writer, octets.as_slice());
            },
            Address::Domain(domain) => {
                if domain.len() > MAX_DOMAIN_LENGTH {
                    return Err(ConversionError::MalformedMessage);
                }
                writer.push(AddressType::DOMAIN_NAME);
                writer.push(domain.len() as u8);
                write_all(writer, domain.as_slice());
            },
            Address::Ipv6(octets) => {
                writer.push(AddressType::IP_V6);
                write_all(writer, octets.as_slice());
            },
        }
        Ok(())
    }
}

impl Decoder for Address {
    open spec fn parse(input: Seq<u8>) -> Parsed<AddressView> {
        AddressView::parse(input)
    }

    /// Any tag but those of the three forms makes the message malformed.
    fn read_from(reader: &mut Reader) -> (r: Result<Self, ConversionError>) {
        let ghost input = reader.remaining();
        let tag = reader.read_u8()?;
        if tag == AddressType::IP_V4 {
            let octets = reader.read_exact(4)?;
            let address = [octets[0], octets[1], octets[2], octets[3]];
            proof {
                assert(address@ =~= input.subrange(1, 5));
            }
            Ok(Address::Ipv4(address))
        } else if tag == AddressType::DOMAIN_NAME {
            let len = reader.read_u8()?;
            let domain = reader.read_vec(len as usize)?;
            proof {
                assert(domain@ =~= input.subrange(2, 2 + input[1]));
            }
            Ok(Address::Domain(domain))
        } else if tag == AddressType::IP_V6 {
            let octets = reader.read_exact(16)?;
            let address = [
                octets[0],
                octets[1],
                octets[2],
                octets[3],
                octets[4],
                octets[5],
                octets[6],
                octets[7],
                octets[8],
                octets[9],
                octets[10],
                octets[11],
                octets[12],
                octets[13],
                octets[14],
                octets[15],
            ];
            proof {
                assert(address@ =~= input.subrange(1, 17));
            }
            Ok(Address::Ipv6(address))
        } else {
            Err(ConversionError::MalformedMessage)
        }
    }
}

} // verus!
