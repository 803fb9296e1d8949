//! Encoding into byte buffers and decoding from in-memory readers.
//!
//! A [`Reader`] is a finite byte stream held in memory. Reads have
//! exact-length semantics: a read that meets the end of the stream fails,
//! consumes what was left and records how many bytes were lacking, so that a
//! driver can fetch exactly that many from its transport and try again.

use vstd::prelude::*;
use vstd::slice::slice_subrange;
use vstd::slice::slice_to_vec;
use crate::socks5::proto::ConversionError;

verus! {

/// Why a byte string is not a message.
pub enum Fault {
    /// The input ends inside the message; the read that failed lacked
    /// `missing` bytes.
    Truncated { missing: nat },
    /// The version octet is not the expected one.
    InvalidVersion { version: u8 },
    /// A field holds a value that the format does not allow.
    Malformed,
}

/// What decoding a byte string yields: the value or the fault, and the number
/// of bytes taken from the input to find out.
pub struct Parsed<V> {
    pub result: Result<V, Fault>,
    pub consumed: nat,
}

impl<V> Parsed<V> {
    /// A complete message that occupies the first `consumed` bytes.
    pub open spec fn complete(value: V, consumed: nat) -> Self {
        Parsed { result: Ok(value), consumed }
    }

    /// An input of `available` bytes that ends `missing` bytes short.
    pub open spec fn truncated(available: nat, missing: nat) -> Self {
        Parsed { result: Err(Fault::Truncated { missing }), consumed: available }
    }

    /// A wrong version octet, found after `consumed` bytes.
    pub open spec fn invalid_version(version: u8, consumed: nat) -> Self {
        Parsed { result: Err(Fault::InvalidVersion { version }), consumed }
    }

    /// A field that the format does not allow, found after `consumed` bytes.
    pub open spec fn malformed(consumed: nat) -> Self {
        Parsed { result: Err(Fault::Malformed), consumed }
    }

    /// Whether the input ended inside the message.
    pub open spec fn is_truncated(self) -> bool {
        self.result matches Err(Fault::Truncated { .. })
    }
}

/// Creates the error that a read past the end of a stream reports.
///
/// Calls `std::io::Error::from` on `std::io::ErrorKind::UnexpectedEof`.
/// Nothing is claimed of the value.
#[verifier::external_body]
fn unexpected_eof() -> std::io::Error {
    std::io::Error::from(std::io::ErrorKind::UnexpectedEof)
}

/// A finite byte stream in memory, read from front to back.
pub struct Reader<'a> {
    data: &'a [u8],
    pos: usize,
    missing: usize,
}

impl<'a> Reader<'a> {
    #[verifier::type_invariant]
    spec fn inv(self) -> bool {
        self.pos <= self.data@.len()
    }

    /// The bytes that have not been read yet.
    pub closed spec fn remaining(self) -> Seq<u8> {
        self.data@.subrange(self.pos as int, self.data@.len() as int)
    }

    /// How many bytes the most recent failed read lacked; zero while no read
    /// has failed.
    pub closed spec fn shortfall(self) -> nat {
        self.missing as nat
    }

    /// A reader over `data`, positioned at its first byte.
    pub fn new(data: &'a [u8]) -> (r: Self)
        ensures
            r.remaining() == data@,
            r.shortfall() == 0,
    {
        let r = Reader { data, pos: 0, missing: 0 };
        r
    }

    /// The number of bytes that have not been read yet.
    pub fn available(&self) -> (n: usize)
        ensures
            n == self.remaining().len(),
    {
        proof {
            use_type_invariant(self);
        }
        self.data.len() - self.pos
    }

    /// How many bytes the most recent failed read lacked.
    pub fn missing(&self) -> (n: usize)
        ensures
            n == self.shortfall(),
    {
        self.missing
    }

    /// Reads exactly `n` bytes.
    ///
    /// Where fewer than `n` bytes are left the read fails with an I/O error,
    /// the reader is drained and the shortfall is recorded.
    pub fn read_exact(&mut self, n: usize) -> (r: Result<&'a [u8], ConversionError>)
        ensures
            n <= old(self).remaining().len() ==> {
                &&& r matches Ok(bytes)
                &&& bytes@ == old(self).remaining().take(n as int)
                &&& final(self).remaining() == old(self).remaining().skip(n as int)
                &&& final(self).shortfall() == old(self).shortfall()
            },
            n > old(self).remaining().len() ==> {
                &&& r matches Err(ConversionError::IoError(_))
                &&& final(self).remaining() == Seq::<u8>::empty()
                &&& final(self).shortfall() == n - old(self).remaining().len()
            },
    {
        proof {
            use_type_invariant(&*self);
        }
        let left: usize = self.data.len() - self.pos;
        if n <= left {
            let bytes = slice_subrange(self.data, self.pos, self.pos + n);
            self.pos = self.pos + n;
            Ok(bytes)
        } else {
            self.pos = self.data.len();
            self.missing = n - left;
            Err(ConversionError::IoError(unexpected_eof()))
        }
    }

    /// Reads one byte.
    pub fn read_u8(&mut self) -> (r: Result<u8, ConversionError>)
        ensures
            old(self).remaining().len() >= 1 ==> {
                &&& r == Ok::<u8, ConversionError>(old(self).remaining()[0])
                &&& final(self).remaining() == old(self).remaining().skip(1)
                &&& final(self).shortfall() == old(self).shortfall()
            },
            old(self).remaining().len() < 1 ==> {
                &&& r matches Err(ConversionError::IoError(_))
                &&& final(self).remaining() == Seq::<u8>::empty()
                &&& final(self).shortfall() == 1
            },
    {
        let bytes = self.read_exact(1)?;
        Ok(bytes[0])
    }

    /// Reads a big-endian 16-bit integer.
    pub fn read_u16(&mut self) -> (r: Result<u16, ConversionError>)
        ensures
            old(self).remaining().len() >= 2 ==> {
                &&& r == Ok::<u16, ConversionError>(
                    be16(old(self).remaining()[0], old(self).remaining()[1]),
                )
                &&& final(self).remaining() == old(self).remaining().skip(2)
                &&& final(self).shortfall() == old(self).shortfall()
            },
            old(self).remaining().len() < 2 ==> {
                &&& r matches Err(ConversionError::IoError(_))
                &&& final(self).remaining() == Seq::<u8>::empty()
                &&& final(self).shortfall() == 2 - old(self).remaining().len()
            },
    {
        let bytes = self.read_exact(2)?;
        Ok(join_be16(bytes[0], bytes[1]))
    }

    /// Reads exactly `n` bytes into a vector of their own.
    pub fn read_vec(&mut self, n: usize) -> (r: Result<Vec<u8>, ConversionError>)
        ensures
            n <= old(self).remaining().len() ==> {
                &&& r matches Ok(bytes)
                &&& bytes@ == old(self).remaining().take(n as int)
                &&& final(self).remaining() == old(self).remaining().skip(n as int)
                &&& final(self).shortfall() == old(self).shortfall()
            },
            n > old(self).remaining().len() ==> {
                &&& r matches Err(ConversionError::IoError(_))
                &&& final(self).remaining() == Seq::<u8>::empty()
                &&& final(self).shortfall() == n - old(self).remaining().len()
            },
    {
        let bytes = self.read_exact(n)?;
        Ok(slice_to_vec(bytes))
    }
}

/// Appends `bytes` to `writer`.
pub fn write_all(writer: &mut Vec<u8>, bytes: &[u8])
    ensures
        final(writer)@ == old(writer)@ + bytes@,
{
    let mut i: usize = 0;
    while i < bytes.len()
        invariant
            i <= bytes@.len(),
            writer@ == old(writer)@ + bytes@.take(i as int),
        decreases bytes@.len() - i,
    {
        writer.push(bytes[i]);
        i = i + 1;
    }
}

/// The 16-bit integer whose big-endian form is `high`, `low`.
pub open spec fn be16(high: u8, low: u8) -> u16 {
    (high as int * 256 + low as int) as u16
}

/// The more significant octet of `value`.
pub open spec fn high_octet(value: u16) -> u8 {
    (value as int / 256) as u8
}

/// The less significant octet of `value`.
pub open spec fn low_octet(value: u16) -> u8 {
    (value as int % 256) as u8
}

/// Joins two octets, most significant first.
pub fn join_be16(high: u8, low: u8) -> (r: u16)
    ensures
        r == be16(high, low),
{
    let h: u16 = high as u16;
    let l: u16 = low as u16;
    h * 256 + l
}

/// Splits `value` into its two octets, most significant first.
pub fn split_be16(value: u16) -> (r: (u8, u8))
    ensures
        r.0 == high_octet(value),
        r.1 == low_octet(value),
{
    ((value / 256) as u8, (value % 256) as u8)
}

/// Splitting and joining are inverse to each other.
pub proof fn lemma_be16_round_trip(value: u16, high: u8, low: u8)
    ensures
        be16(high_octet(value), low_octet(value)) == value,
        high_octet(be16(high, low)) == high,
        low_octet(be16(high, low)) == low,
{
}

/// How a call of [`Decoder::read_from`] relates to the parse of the bytes that
/// the reader held.
pub open spec fn read_outcome<T: View>(
    parsed: Parsed<T::V>,
    before: Reader,
    after: Reader,
    r: Result<T, ConversionError>,
) -> bool {
    &&& parsed.consumed <= before.remaining().len()
    &&& after.remaining() =~= before.remaining().skip(parsed.consumed as int)
    &&& match parsed.result {
        Ok(value) => {
            &&& r matches Ok(message)
            &&& message@ =~~= value
            &&& after.shortfall() == before.shortfall()
        },
        Err(Fault::Truncated { missing }) => {
            &&& r matches Err(ConversionError::IoError(_))
            &&& missing > 0
            &&& after.shortfall() == missing
        },
        Err(Fault::InvalidVersion { version }) => {
            &&& r == Err::<T, ConversionError>(ConversionError::InvalidProtocolVersion(version))
            &&& after.shortfall() == before.shortfall()
        },
        Err(Fault::Malformed) => {
            &&& r == Err::<T, ConversionError>(ConversionError::MalformedMessage)
            &&& after.shortfall() == before.shortfall()
        },
    }
}

/// A value that has a wire form.
pub trait Encoder {
    /// Whether the value fits the wire format.
    spec fn encodable(&self) -> bool;

    /// The bytes of the value on the wire; meaningful where it is encodable.
    spec fn wire(&self) -> Seq<u8>;

    /// Appends the wire form of the value to `writer`.
    ///
    /// A value that does not fit the format is rejected and nothing is
    /// written.
    fn write_to(&self, writer: &mut Vec<u8>) -> (r: Result<(), ConversionError>)
        ensures
            self.encodable() ==> r == Ok::<(), ConversionError>(()) && final(writer)@ == old(
                writer,
            )@ + self.wire(),
            !self.encodable() ==> r == Err::<(), ConversionError>(
                ConversionError::MalformedMessage,
            ) && final(writer)@ == old(writer)@,
    ;
}

/// A value that can be read from its wire form.
pub trait Decoder: Sized + View {
    /// What the bytes `input`, taken as a whole stream, decode to.
    spec fn parse(input: Seq<u8>) -> Parsed<Self::V>;

    /// Reads one message from the front of `reader`.
    fn read_from(reader: &mut Reader) -> (r: Result<Self, ConversionError>)
        ensures
            read_outcome(Self::parse(old(reader).remaining()), *old(reader), *final(reader), r),
    ;
}

/// What the front of a receive buffer holds.
pub enum Front<M> {
    /// A whole message, now taken out of the buffer.
    Message(M),
    /// The beginning of a message that lacks at least this many bytes.
    Missing(usize),
}

/// How a call of [`take_front`] relates to the parse of the bytes that the
/// buffer held: a whole message leaves the buffer, anything else leaves the
/// buffer as it was.
pub open spec fn front_outcome<M: Decoder>(
    before: Seq<u8>,
    after: Seq<u8>,
    r: Result<Front<M>, ConversionError>,
) -> bool {
    let parsed = M::parse(before);
    match parsed.result {
        Ok(value) => {
            &&& r matches Ok(Front::Message(message))
            &&& message@ =~~= value
            &&& parsed.consumed <= before.len()
            &&& after =~= before.skip(parsed.consumed as int)
        },
        Err(Fault::Truncated { missing }) => {
            &&& r matches Ok(Front::Missing(n))
            &&& n == missing
            &&& n > 0
            &&& after == before
        },
        Err(Fault::InvalidVersion { version }) => {
            &&& r == Err::<Front<M>, ConversionError>(
                ConversionError::InvalidProtocolVersion(version),
            )
            &&& after == before
        },
        Err(Fault::Malformed) => {
            &&& r == Err::<Front<M>, ConversionError>(ConversionError::MalformedMessage)
            &&& after == before
        },
    }
}

/// Takes one message from the front of `buffer`, or says how many bytes the
/// buffer lacks before the attempt is worth repeating.
pub fn take_front<M: Decoder>(buffer: &mut Vec<u8>) -> (r: Result<Front<M>, ConversionError>)
    ensures
        front_outcome::<M>(old(buffer)@, final(buffer)@, r),
{
    let mut reader = Reader::new(buffer.as_slice());
    let result = M::read_from(&mut reader);
    let left = reader.available();
    let missing = reader.missing();
    match result {
        Ok(message) => {
            let used = buffer.len() - left;
            let tail = buffer.split_off(used);
            *buffer = tail;
            Ok(Front::Message(message))
        },
        Err(ConversionError::IoError(_)) => Ok(Front::Missing(missing)),
        Err(error) => Err(error),
    }
}

/// How many bytes a driver reads before a message with this parse is worth
/// decoding again: what it lacks while it is truncated, and none otherwise.
pub open spec fn wanted<V>(parsed: Parsed<V>) -> nat {
    match parsed.result {
        Err(Fault::Truncated { missing }) => missing,
        _ => 0,
    }
}

/// Says how many bytes `buffer` lacks before a message can be taken from its
/// front; zero where a message or a fault is there already.
pub fn peek_front<M: Decoder>(buffer: &[u8]) -> (n: usize)
    ensures
        n == wanted(M::parse(buffer@)),
{
    let mut reader = Reader::new(buffer);
    let result = M::read_from(&mut reader);
    match result {
        Err(ConversionError::IoError(_)) => reader.missing(),
        _ => 0,
    }
}

} // verus!
