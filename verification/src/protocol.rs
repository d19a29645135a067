//! The datagram wire format: a size-prefixed frame holding a protocol
//! version, an application tag, and an opaque payload.
//!
//! Wire layout (all integers big-endian):
//!
//! ```text
//! [0..4)  size prefix  u32  -- byte length of everything after this field
//! [4..6)  version      u16
//! [6..8)  tag          u16
//! [8..)   payload           -- length = size prefix - 4
//! ```

use crate::wire::lemma_u16_be_encode_decode;
use crate::wire::lemma_u32_be_encode_decode;
use crate::wire::push_u16_be;
use crate::wire::push_u32_be;
use crate::wire::spec_u16_from_be_bytes;
use crate::wire::spec_u16_to_be_bytes;
use crate::wire::spec_u32_from_be_bytes;
use crate::wire::spec_u32_to_be_bytes;
use crate::wire::u32_from_be_slice;
use crate::wire::u32_to_be_vec;
use vstd::prelude::*;

verus! {

/// The protocol revision written into every frame.
pub const VERSION: u16 = 1;

/// Byte width of the size prefix.
pub const SIZE_PREFIX_BYTE_SIZE: usize = 4;

const VERSION_BYTE_SIZE: usize = 2;

/// Byte width of the whole header: size prefix, version, and tag.
pub const DATAGRAM_HEADER_BYTE_SIZE: usize = 8;

/// Largest payload a datagram may carry, in bytes (100 MB).
pub const MAX_DATA_BYTE_SIZE: usize = 100_000_000;

#[verifier::external_type_specification]
#[verifier::external_body]
pub struct ExTryFromSliceError(core::array::TryFromSliceError);

/// Relies on the derived `Clone` of `core::array::TryFromSliceError`, a unit
/// struct whose clone is a copy; nothing is claimed of the result.
pub assume_specification[ <core::array::TryFromSliceError as core::clone::Clone>::clone ](
    e: &core::array::TryFromSliceError,
) -> core::array::TryFromSliceError;

/// Encountered when there is an issue constructing, serializing, or
/// deserializing a [`ConnectDatagram`].
#[derive(Debug, Clone)]
pub enum DatagramError {
    /// Tried to construct a [`ConnectDatagram`] with an empty message body.
    EmptyMessage,
    /// Tried to construct a [`ConnectDatagram`] with a message body larger
    /// than 100MB.
    TooLargeMessage,
    /// Did not provide the complete byte-string necessary to deserialize the
    /// [`ConnectDatagram`].
    InsufficientBytes,
    /// Wraps a slice-conversion error encountered when the version or tag
    /// fields cannot be parsed from the provided bytes.
    BytesParseFail(core::array::TryFromSliceError),
}

impl DatagramError {
    /// A fixed human-readable description of the error.
    pub fn message(&self) -> (m: &'static str)
        ensures
            *self matches DatagramError::EmptyMessage ==> m@ == (
            "tried to construct a `ConnectDatagram` with an empty message body")@,
            *self matches DatagramError::TooLargeMessage ==> m@ == (
            "tried to construct a `ConnectDatagram` with a message body larger than 100MB")@,
            *self matches DatagramError::InsufficientBytes ==> m@ == (
            "did not provide the complete byte-string necessary to deserialize the `ConnectDatagram`")@,
            *self matches DatagramError::BytesParseFail(e) ==> m@ == (
            "could not parse the version or tag fields from the provided bytes")@,
    {
        match self {
            DatagramError::EmptyMessage => {
                "tried to construct a `ConnectDatagram` with an empty message body"
            },
            DatagramError::TooLargeMessage => {
                "tried to construct a `ConnectDatagram` with a message body larger than 100MB"
            },
            DatagramError::InsufficientBytes => {
                "did not provide the complete byte-string necessary to deserialize the `ConnectDatagram`"
            },
            DatagramError::BytesParseFail(_) => {
                "could not parse the version or tag fields from the provided bytes"
            },
        }
    }
}

/// A payload length the protocol accepts: at least one byte, at most 100 MB.
pub open spec fn valid_payload_len(n: nat) -> bool {
    1 <= n <= 100_000_000
}

/// The full wire frame for a tag and payload under the current revision.
pub open spec fn spec_frame_bytes(tag: u16, payload: Seq<u8>) -> Seq<u8>
    recommends
        payload.len() <= 100_000_000,
{
    spec_u32_to_be_bytes((payload.len() + 4) as u32) + spec_u16_to_be_bytes(VERSION)
        + spec_u16_to_be_bytes(tag) + payload
}

/// The size declared by a frame's leading prefix: the byte length of
/// everything after the prefix itself.
pub open spec fn frame_size_of(b: Seq<u8>) -> u32
    recommends
        b.len() >= 4,
{
    spec_u32_from_be_bytes(b.subrange(0, 4))
}

/// A byte string that is exactly one well-sized frame: a full header is
/// present and the size prefix accounts for every byte after it.
pub open spec fn spec_valid_frame(b: Seq<u8>) -> bool {
    b.len() >= 9 && b.len() == 4 + frame_size_of(b)
}

/// The version field of a frame.
pub open spec fn spec_version_of(b: Seq<u8>) -> u16
    recommends
        b.len() >= 8,
{
    spec_u16_from_be_bytes(b.subrange(4, 6))
}

/// The tag field of a frame.
pub open spec fn spec_tag_of(b: Seq<u8>) -> u16
    recommends
        b.len() >= 8,
{
    spec_u16_from_be_bytes(b.subrange(6, 8))
}

/// The payload bytes of a frame.
pub open spec fn spec_payload_of(b: Seq<u8>) -> Seq<u8>
    recommends
        b.len() >= 8,
{
    b.skip(8)
}

/// Round trip: the frame built from a valid tag and payload is a well-sized
/// frame, and parsing it back recovers the version, the tag, and the payload
/// unchanged.
pub proof fn lemma_frame_round_trip(tag: u16, payload: Seq<u8>)
    requires
        valid_payload_len(payload.len()),
    ensures
        spec_frame_bytes(tag, payload).len() == 8 + payload.len(),
        spec_valid_frame(spec_frame_bytes(tag, payload)),
        frame_size_of(spec_frame_bytes(tag, payload)) == payload.len() + 4,
        spec_version_of(spec_frame_bytes(tag, payload)) == VERSION,
        spec_tag_of(spec_frame_bytes(tag, payload)) == tag,
        spec_payload_of(spec_frame_bytes(tag, payload)) == payload,
{
    let b = spec_frame_bytes(tag, payload);
    let sz = (payload.len() + 4) as u32;
    lemma_u32_be_encode_decode(sz);
    lemma_u16_be_encode_decode(VERSION);
    lemma_u16_be_encode_decode(tag);
    assert(b.subrange(0, 4) =~= spec_u32_to_be_bytes(sz));
    assert(b.subrange(4, 6) =~= spec_u16_to_be_bytes(VERSION));
    assert(b.subrange(6, 8) =~= spec_u16_to_be_bytes(tag));
    assert(b.skip(8) =~= payload);
}

/// A simple size-prefixed packet format containing a version id, optional
/// tag, and message payload.
///
/// The version is decided by the library and used to maintain backwards
/// compatibility with previous datagram formats.
#[derive(Clone)]
pub struct ConnectDatagram {
    buffer: Vec<u8>,
}

impl View for ConnectDatagram {
    type V = Seq<u8>;

    /// A datagram is viewed as its full wire representation.
    closed spec fn view(&self) -> Seq<u8> {
        self.buffer@
    }
}

impl ConnectDatagram {
    /// A full header is present in the internal buffer, with at least one
    /// payload byte after it.
    pub open spec fn wf(self) -> bool {
        self@.len() > 8
    }

    /// Creates a new [`ConnectDatagram`] with the intended message body and a
    /// zero tag.
    ///
    /// Returns [`DatagramError::EmptyMessage`] when `data` is empty and
    /// [`DatagramError::TooLargeMessage`] when it holds more than 100MB.
    pub fn new(data: Vec<u8>) -> (r: Result<Self, DatagramError>)
        ensures
            data@.len() == 0 ==> (r matches Err(DatagramError::EmptyMessage)),
            data@.len() > 100_000_000 ==> (r matches Err(DatagramError::TooLargeMessage)),
            valid_payload_len(data@.len()) ==> (r matches Ok(d) && d@ == spec_frame_bytes(
                0,
                data@,
            ) && d.wf() && spec_valid_frame(d@)),
    {
        Self::with_tag(0, data)
    }

    /// Creates a new [`ConnectDatagram`] based on an intended tag field and
    /// message body.
    ///
    /// Returns [`DatagramError::EmptyMessage`] when `data` is empty and
    /// [`DatagramError::TooLargeMessage`] when it holds more than 100MB.
    pub fn with_tag(tag: u16, data: Vec<u8>) -> (r: Result<Self, DatagramError>)
        ensures
            data@.len() == 0 ==> (r matches Err(DatagramError::EmptyMessage)),
            data@.len() > 100_000_000 ==> (r matches Err(DatagramError::TooLargeMessage)),
            valid_payload_len(data@.len()) ==> (r matches Ok(d) && d@ == spec_frame_bytes(
                tag,
                data@,
            ) && d.wf() && spec_valid_frame(d@)),
    {
        if data.len() > MAX_DATA_BYTE_SIZE {
            Err(DatagramError::TooLargeMessage)
        } else if data.len() > 0 {
            let ghost payload = data@;
            let mut data = data;
            let mut buffer: Vec<u8> = Vec::with_capacity(DATAGRAM_HEADER_BYTE_SIZE + data.len());
            let size_prefix: u32 = (data.len() + (DATAGRAM_HEADER_BYTE_SIZE
                - SIZE_PREFIX_BYTE_SIZE)) as u32;
            push_u32_be(&mut buffer, size_prefix);
            push_u16_be(&mut buffer, VERSION);
            push_u16_be(&mut buffer, tag);
            buffer.append(&mut data);
            proof {
                lemma_frame_round_trip(tag, payload);
                assert(buffer@ =~= spec_frame_bytes(tag, payload));
            }
            Ok(ConnectDatagram { buffer })
        } else {
            Err(DatagramError::EmptyMessage)
        }
    }

    /// Updates the size prefix value in the internal buffer to match the
    /// current size of the buffer.
    fn update_size_prefix(&mut self)
        requires
            old(self)@.len() > 8,
            old(self)@.len() - 4 <= u32::MAX,
        ensures
            final(self)@ == spec_u32_to_be_bytes((old(self)@.len() - 4) as u32) + old(self)@.skip(4),
    {
        let size_prefix: u32 = (self.buffer.len() - SIZE_PREFIX_BYTE_SIZE) as u32;
        let prefix_bytes = u32_to_be_vec(size_prefix);
        self.buffer.set(0, prefix_bytes[0]);
        self.buffer.set(1, prefix_bytes[1]);
        self.buffer.set(2, prefix_bytes[2]);
        self.buffer.set(3, prefix_bytes[3]);
        assert(self.buffer@ =~= spec_u32_to_be_bytes((old(self)@.len() - 4) as u32) + old(self)@.skip(4));
    }

    /// Gets the version number field of the datagram protocol.
    pub fn version(&self) -> (v: u16)
        requires
            self.wf(),
        ensures
            v == spec_version_of(self@),
    {
        let b0 = self.buffer[SIZE_PREFIX_BYTE_SIZE];
        let b1 = self.buffer[SIZE_PREFIX_BYTE_SIZE + 1];
        proof {
            assert(self@.subrange(4, 6)[0] == self@[4]);
            assert(self@.subrange(4, 6)[1] == self@[5]);
        }
        (b0 as u16) << 8 | (b1 as u16)
    }

    /// Gets the tag field of the datagram.
    pub fn tag(&self) -> (t: u16)
        requires
            self.wf(),
        ensures
            t == spec_tag_of(self@),
    {
        let b0 = self.buffer[SIZE_PREFIX_BYTE_SIZE + VERSION_BYTE_SIZE];
        let b1 = self.buffer[SIZE_PREFIX_BYTE_SIZE + VERSION_BYTE_SIZE + 1];
        proof {
            assert(self@.subrange(6, 8)[0] == self@[6]);
            assert(self@.subrange(6, 8)[1] == self@[7]);
        }
        (b0 as u16) << 8 | (b1 as u16)
    }

    /// Sets the tag field of the datagram; every other byte is unchanged.
    pub fn set_tag(&mut self, tag: u16)
        requires
            old(self).wf(),
        ensures
            final(self)@ == old(self)@.subrange(0, 6) + spec_u16_to_be_bytes(tag) + old(self)@.skip(8),
            final(self).wf(),
            spec_tag_of(final(self)@) == tag,
    {
        proof {
            let x = tag;
            assert((x >> 8) & 0xff < 256 && x & 0xff < 256) by (bit_vector);
        }
        self.buffer.set(SIZE_PREFIX_BYTE_SIZE + VERSION_BYTE_SIZE, ((tag >> 8) & 0xff) as u8);
        self.buffer.set(SIZE_PREFIX_BYTE_SIZE + VERSION_BYTE_SIZE + 1, (tag & 0xff) as u8);
        proof {
            assert(self.buffer@ =~= old(self)@.subrange(0, 6) + spec_u16_to_be_bytes(tag) + old(self)@.skip(8));
            lemma_u16_be_encode_decode(tag);
            assert(self.buffer@.subrange(6, 8) =~= spec_u16_to_be_bytes(tag));
        }
    }

    /// Gets the message body of the datagram.
    pub fn data(&self) -> (d: &[u8])
        requires
            self.wf(),
        ensures
            d@ == spec_payload_of(self@),
    {
        let s = vstd::slice::slice_subrange(self.buffer.as_slice(), 8, self.buffer.len());
        proof {
            assert(s@ =~= self@.skip(8));
        }
        s
    }

    /// Sets the message body of the datagram, recomputes the size prefix, and
    /// returns the previous contents.
    ///
    /// Returns [`DatagramError::EmptyMessage`] when `data` is empty and
    /// [`DatagramError::TooLargeMessage`] when it holds more than 100MB; the
    /// datagram is unchanged in both cases.
    pub fn set_data(&mut self, data: Vec<u8>) -> (r: Result<Vec<u8>, DatagramError>)
        requires
            old(self).wf(),
        ensures
            data@.len() == 0 ==> (r matches Err(DatagramError::EmptyMessage)) && *final(self) == *old(self),
            data@.len() > 100_000_000 ==> (r matches Err(DatagramError::TooLargeMessage))
                && *final(self) == *old(self),
            valid_payload_len(data@.len()) ==> (r matches Ok(old_data) && old_data@
                == spec_payload_of(old(self)@) && final(self)@ == spec_u32_to_be_bytes(
                (data@.len() + 4) as u32,
            ) + old(self)@.subrange(4, 8) + data@ && final(self).wf()),
    {
        if data.len() > MAX_DATA_BYTE_SIZE {
            Err(DatagramError::TooLargeMessage)
        } else if data.len() > 0 {
            let ghost payload = data@;
            let mut data = data;
            let old_data = self.buffer.split_off(DATAGRAM_HEADER_BYTE_SIZE);
            self.buffer.append(&mut data);
            self.update_size_prefix();
            proof {
                assert(self.buffer@ =~= spec_u32_to_be_bytes((payload.len() + 4) as u32)
                    + old(self)@.subrange(4, 8) + payload);
                assert(old_data@ =~= spec_payload_of(old(self)@));
            }
            Ok(old_data)
        } else {
            Err(DatagramError::EmptyMessage)
        }
    }

    /// Calculates the size-prefixed serialized byte-size of the datagram,
    /// including the size prefix itself.
    pub fn serialized_size(&self) -> (n: usize)
        ensures
            n == self@.len(),
    {
        self.buffer.len()
    }

    /// Calculates the byte-size of the datagram message body, excluding all
    /// header fields.
    pub fn data_size(&self) -> (n: usize)
        requires
            self.wf(),
        ensures
            n == self@.len() - 8,
    {
        self.buffer.len() - DATAGRAM_HEADER_BYTE_SIZE
    }

    /// Serializes the datagram: the returned bytes are exactly its wire
    /// frame.
    pub fn into_bytes(self) -> (b: Vec<u8>)
        ensures
            b@ == self@,
    {
        self.buffer
    }

    /// Deserializes a datagram from a buffer that must already hold exactly
    /// one full frame including its size prefix.
    ///
    /// Returns [`DatagramError::InsufficientBytes`] when the buffer is no
    /// longer than the fixed header; otherwise the datagram's wire
    /// representation is the given bytes, unchanged and unchecked.
    pub fn from_bytes(buffer: &[u8]) -> (r: Result<Self, DatagramError>)
        ensures
            buffer@.len() <= 8 ==> (r matches Err(DatagramError::InsufficientBytes)),
            buffer@.len() > 8 ==> (r matches Ok(d) && d@ == buffer@ && d.wf()),
    {
        if buffer.len() > DATAGRAM_HEADER_BYTE_SIZE {
            Ok(ConnectDatagram { buffer: vstd::slice::slice_to_vec(buffer) })
        } else {
            Err(DatagramError::InsufficientBytes)
        }
    }

    /// Deserializes a datagram from the bytes after the size prefix, and
    /// infers the prefix from their length.
    ///
    /// Returns [`DatagramError::InsufficientBytes`] when the buffer is no
    /// longer than the header fields that follow the prefix.
    pub fn from_bytes_without_prefix(buffer: &[u8]) -> (r: Result<Self, DatagramError>)
        requires
            buffer@.len() <= u32::MAX,
        ensures
            buffer@.len() <= 4 ==> (r matches Err(DatagramError::InsufficientBytes)),
            buffer@.len() > 4 ==> (r matches Ok(d) && d@ == spec_u32_to_be_bytes(
                buffer@.len() as u32,
            ) + buffer@ && d.wf()),
    {
        if buffer.len() > DATAGRAM_HEADER_BYTE_SIZE - SIZE_PREFIX_BYTE_SIZE {
            let mut new_buffer: Vec<u8> = u32_to_be_vec(buffer.len() as u32);
            new_buffer.extend_from_slice(buffer);
            Ok(ConnectDatagram { buffer: new_buffer })
        } else {
            Err(DatagramError::InsufficientBytes)
        }
    }
}

/// Given exactly the first four bytes at a frame boundary, returns the
/// declared size of the rest of the frame.
pub fn peek_frame_size(header: &[u8]) -> (n: u32)
    requires
        header@.len() == 4,
    ensures
        n == spec_u32_from_be_bytes(header@),
{
    u32_from_be_slice(header)
}

} // verus!
