//! The read half: turns a sequence of raw byte chunks of arbitrary length
//! into the sequence of complete datagrams they spell, preserving order and
//! never dropping or duplicating a byte.
//!
//! The transport itself is driven by the caller: every chunk read from it is
//! handed to [`ConnectionReader::feed`], and [`ConnectionReader::try_next`]
//! yields the next complete datagram whenever enough bytes have accumulated.
//! Two ghost histories record all bytes fed and all frames yielded, so the
//! accounting between the two can be stated and proved.

use crate::protocol::frame_size_of;
use crate::protocol::peek_frame_size;
use crate::protocol::spec_valid_frame;
use crate::protocol::ConnectDatagram;
use crate::wire::lemma_u32_be_decode_encode;
use crate::wire::lemma_u32_be_encode_decode;
use crate::wire::spec_u32_to_be_bytes;
use vstd::prelude::*;

verus! {

#[verifier::external_type_specification]
#[verifier::external_body]
pub struct ExBytesMut(bytes::BytesMut);

/// The bytes a `bytes::BytesMut` buffer holds, in order.
pub uninterp spec fn bytes_mut_view(b: bytes::BytesMut) -> Seq<u8>;

/// Relies on `bytes::BytesMut::new`: the fresh buffer holds no bytes.
#[verifier::external_body]
fn bytes_mut_new() -> (b: bytes::BytesMut)
    ensures
        bytes_mut_view(b) == Seq::<u8>::empty(),
{
    bytes::BytesMut::new()
}

/// Relies on `bytes::BytesMut::len`: the number of bytes held.
#[verifier::external_body]
fn bytes_mut_len(b: &bytes::BytesMut) -> (n: usize)
    ensures
        n == bytes_mut_view(*b).len(),
{
    b.len()
}

/// Relies on `bytes::BytesMut::split_off`: afterwards the buffer keeps the
/// bytes before `at` and the returned buffer holds the bytes from `at` on.
#[verifier::external_body]
fn bytes_mut_split_off(b: &mut bytes::BytesMut, at: usize) -> (tail: bytes::BytesMut)
    requires
        at <= bytes_mut_view(*old(b)).len(),
    ensures
        bytes_mut_view(*final(b)) == bytes_mut_view(*old(b)).take(at as int),
        bytes_mut_view(tail) == bytes_mut_view(*old(b)).skip(at as int),
{
    b.split_off(at)
}

/// Relies on `bytes::BytesMut::extend_from_slice`: appends the slice.
#[verifier::external_body]
fn bytes_mut_extend_from_slice(b: &mut bytes::BytesMut, src: &[u8])
    ensures
        bytes_mut_view(*final(b)) == bytes_mut_view(*old(b)) + src@,
{
    b.extend_from_slice(src)
}

/// Relies on `<[u8]>::to_vec`, reached through `BytesMut`'s deref to a byte
/// slice: copies the held bytes out in order.
#[verifier::external_body]
fn bytes_mut_to_vec(b: &bytes::BytesMut) -> (v: Vec<u8>)
    ensures
        v@ == bytes_mut_view(*b),
{
    b.as_ref().to_vec()
}

/// Every element is a well-sized frame.
pub open spec fn all_valid_frames(ds: Seq<Seq<u8>>) -> bool {
    forall|i: int| 0 <= i < ds.len() ==> spec_valid_frame(#[trigger] ds[i])
}

/// An interface to read messages from the network connection.
///
/// The caller reads raw chunks from the transport and feeds them in; the
/// reader reassembles them into complete datagrams in order. On end of
/// stream, on a transport error, or on a malformed size prefix the reader
/// closes and yields nothing further.
pub struct ConnectionReader {
    pending_read: bytes::BytesMut,
    pending_datagram: Option<u32>,
    closed: bool,
    consumed: Ghost<Seq<u8>>,
    delivered: Ghost<Seq<Seq<u8>>>,
}

impl ConnectionReader {
    /// Bytes fed from the transport that have not yet been yielded as part
    /// of a datagram, excluding any already-parsed size prefix.
    pub closed spec fn pending_bytes(&self) -> Seq<u8> {
        bytes_mut_view(self.pending_read)
    }

    /// The declared size of the next frame, when its size prefix has already
    /// been parsed off the pending bytes.
    pub closed spec fn expected_size(&self) -> Option<u32> {
        self.pending_datagram
    }

    /// Whether the stream of messages has been closed.
    pub closed spec fn is_closed_spec(&self) -> bool {
        self.closed
    }

    /// All bytes ever fed to this reader, in order.
    pub closed spec fn consumed(&self) -> Seq<u8> {
        self.consumed@
    }

    /// The wire frames of all datagrams yielded so far, in order.
    pub closed spec fn delivered(&self) -> Seq<Seq<u8>> {
        self.delivered@
    }

    /// The fed bytes still held by the reader, with an already-parsed size
    /// prefix restored to its wire form.
    pub open spec fn buffered(&self) -> Seq<u8> {
        match self.expected_size() {
            Some(n) => spec_u32_to_be_bytes(n) + self.pending_bytes(),
            None => self.pending_bytes(),
        }
    }

    /// The reader's invariant: every yielded frame is well sized; while the
    /// reader is open, the fed bytes are exactly the yielded frames followed
    /// by the buffered remainder, and a size prefix is parsed as soon as it
    /// is complete; once closed, all buffers are released.
    pub open spec fn wf(&self) -> bool {
        &&& all_valid_frames(self.delivered())
        &&& !self.is_closed_spec() ==> {
            &&& self.consumed() == self.delivered().flatten() + self.buffered()
            &&& (self.expected_size() is None ==> self.pending_bytes().len() < 4)
        }
        &&& self.is_closed_spec() ==> self.pending_bytes().len() == 0 && self.expected_size()
            is None
    }

    /// A complete frame is buffered and can be yielded at once.
    pub open spec fn has_complete_frame(&self) -> bool {
        &&& !self.is_closed_spec()
        &&& self.expected_size() matches Some(n) && n >= 5 && self.pending_bytes().len() >= n
    }

    /// The next frame's declared size is smaller than its own fixed header
    /// fields: the stream is corrupt and no frame can ever be completed.
    pub open spec fn malformed_size_pending(&self) -> bool {
        self.expected_size() matches Some(n) && n < 5
    }

    /// Creates a new open [`ConnectionReader`] with nothing fed and nothing
    /// yielded.
    pub fn new() -> (r: Self)
        ensures
            r.wf(),
            !r.is_closed_spec(),
            r.consumed() == Seq::<u8>::empty(),
            r.delivered() == Seq::<Seq<u8>>::empty(),
            r.buffered() == Seq::<u8>::empty(),
    {
        let r = ConnectionReader {
            pending_read: bytes_mut_new(),
            pending_datagram: None,
            closed: false,
            consumed: Ghost(Seq::empty()),
            delivered: Ghost(Seq::empty()),
        };
        proof {
            assert(r.consumed() =~= r.delivered().flatten() + r.buffered());
        }
        r
    }

    /// Check if the stream of messages from the network is closed.
    pub fn is_closed(&self) -> (b: bool)
        ensures
            b == self.is_closed_spec(),
    {
        self.closed
    }

    /// Feed one chunk of raw bytes read from the transport.
    ///
    /// The chunk is appended to the pending bytes; if no size prefix was
    /// parsed yet and four bytes are now available, the next frame's size
    /// prefix is parsed off. Nothing is yielded here.
    pub fn feed(&mut self, chunk: &[u8])
        requires
            old(self).wf(),
            !old(self).is_closed_spec(),
        ensures
            final(self).wf(),
            !final(self).is_closed_spec(),
            final(self).consumed() == old(self).consumed() + chunk@,
            final(self).delivered() == old(self).delivered(),
            final(self).buffered() == old(self).buffered() + chunk@,
    {
        self.consumed = Ghost(self.consumed@ + chunk@);
        bytes_mut_extend_from_slice(&mut self.pending_read, chunk);
        if self.pending_datagram.is_none() {
            let len = bytes_mut_len(&self.pending_read);
            if len >= 4 {
                let ghost grown = bytes_mut_view(self.pending_read);
                let tail = bytes_mut_split_off(&mut self.pending_read, 4);
                let prefix = bytes_mut_to_vec(&self.pending_read);
                let size = peek_frame_size(prefix.as_slice());
                self.pending_read = tail;
                self.pending_datagram = Some(size);
                proof {
                    lemma_u32_be_decode_encode(grown.subrange(0, 4));
                    assert(self.buffered() =~= grown);
                }
            }
        }
        proof {
            assert(self.buffered() =~= old(self).buffered() + chunk@);
            assert(self.consumed() =~= self.delivered().flatten() + self.buffered());
        }
    }

    /// Try to yield the next complete datagram from the buffered bytes.
    ///
    /// Returns a datagram exactly when a complete frame is buffered; after
    /// yielding, the size prefix of the following frame is parsed at once if
    /// it is already available. When the buffered size prefix declares a
    /// size too small to hold the frame's own header fields, the stream is
    /// corrupt: the reader closes and yields nothing, now and forever.
    pub fn try_next(&mut self) -> (r: Option<ConnectDatagram>)
        requires
            old(self).wf(),
        ensures
            final(self).wf(),
            final(self).consumed() == old(self).consumed(),
            (r is Some) == old(self).has_complete_frame(),
            final(self).is_closed_spec() == (old(self).is_closed_spec()
                || old(self).malformed_size_pending()),
            r is None ==> final(self).delivered() == old(self).delivered(),
            (r is None && !old(self).malformed_size_pending()) ==> *final(self) == *old(self),
            r matches Some(d) ==> {
                &&& old(self).expected_size() matches Some(n) && d@ == spec_u32_to_be_bytes(n)
                    + old(self).pending_bytes().take(n as int) && final(self).buffered()
                    == old(self).pending_bytes().skip(n as int)
                &&& d.wf() && spec_valid_frame(d@)
                &&& final(self).delivered() == old(self).delivered().push(d@)
                &&& old(self).buffered() == d@ + final(self).buffered()
            },
    {
        if self.closed {
            return None;
        }
        match self.pending_datagram {
            None => None,
            Some(size) => {
                if size < 5 {
                    // The declared size cannot even hold the version and tag
                    // fields plus one payload byte: fatal framing fault.
                    self.pending_read = bytes_mut_new();
                    self.pending_datagram = None;
                    self.closed = true;
                    None
                } else {
                    let len = bytes_mut_len(&self.pending_read);
                    if len >= size as usize {
                        let ghost pending = bytes_mut_view(self.pending_read);
                        let tail = bytes_mut_split_off(&mut self.pending_read, size as usize);
                        let body = bytes_mut_to_vec(&self.pending_read);
                        self.pending_read = tail;
                        let datagram = match ConnectDatagram::from_bytes_without_prefix(
                            body.as_slice(),
                        ) {
                            Ok(d) => d,
                            Err(_) => {
                                proof {
                                    assert(false);
                                }
                                return None;
                            },
                        };
                        proof {
                            lemma_u32_be_encode_decode(size);
                            assert(datagram@.subrange(0, 4) =~= spec_u32_to_be_bytes(size));
                            assert(spec_valid_frame(datagram@));
                        }
                        // The reader dispatches on the version so a future
                        // protocol revision can change how the rest of the
                        // frame is handled; one revision exists today.
                        match datagram.version() {
                            _ => {},
                        }
                        // Eagerly parse the next frame's size prefix when it
                        // is already buffered.
                        let rest_len = bytes_mut_len(&self.pending_read);
                        let ghost rest = bytes_mut_view(self.pending_read);
                        if rest_len >= 4 {
                            let next_tail = bytes_mut_split_off(&mut self.pending_read, 4);
                            let prefix = bytes_mut_to_vec(&self.pending_read);
                            let next_size = peek_frame_size(prefix.as_slice());
                            self.pending_read = next_tail;
                            self.pending_datagram = Some(next_size);
                            proof {
                                lemma_u32_be_decode_encode(rest.subrange(0, 4));
                                assert(self.buffered() =~= rest);
                            }
                        } else {
                            self.pending_datagram = None;
                        }
                        proof {
                            self.delivered@ = self.delivered@.push(datagram@);
                            old(self).delivered().lemma_flatten_push(datagram@);
                            assert(self.buffered() =~= pending.skip(size as int));
                            assert(datagram@ =~= spec_u32_to_be_bytes(size) + pending.take(
                                size as int,
                            ));
                            assert(old(self).buffered() =~= datagram@ + self.buffered());
                            assert(self.consumed() =~= self.delivered().flatten()
                                + self.buffered());
                        }
                        Some(datagram)
                    } else {
                        None
                    }
                }
            },
        }
    }

    /// Nothing can be yielded right now: either no size prefix is complete,
    /// or the declared frame body has not fully arrived, or the declared
    /// size is malformed.
    pub open spec fn exhausted(&self) -> bool {
        match self.expected_size() {
            None => true,
            Some(n) => n < 5 || self.pending_bytes().len() < n,
        }
    }

    /// Close the stream and release all buffers. Closing is idempotent: the
    /// histories of bytes fed and datagrams yielded are kept unchanged.
    pub fn close_stream(&mut self)
        requires
            old(self).wf(),
        ensures
            final(self).wf(),
            final(self).is_closed_spec(),
            final(self).consumed() == old(self).consumed(),
            final(self).delivered() == old(self).delivered(),
    {
        self.pending_read = bytes_mut_new();
        self.pending_datagram = None;
        self.closed = true;
    }
}

/// No well-sized frame is complete at the front of `t`: the bytes end
/// before the size prefix does, the declared size is too small to hold the
/// frame's own header fields, or the bytes end before the declared frame
/// does.
pub open spec fn no_frame_at_front(t: Seq<u8>) -> bool {
    ||| t.len() < 4
    ||| frame_size_of(t) < 5
    ||| t.len() < 4 + frame_size_of(t)
}

/// An open reader's parse state is determined by its buffered bytes: with
/// fewer than four bytes no size prefix is parsed yet, and with four or more
/// the declared size has been parsed off the front.
pub proof fn lemma_buffered_determines_state(r: &ConnectionReader)
    requires
        r.wf(),
        !r.is_closed_spec(),
    ensures
        r.buffered().len() < 4 ==> r.expected_size() is None && r.pending_bytes() == r.buffered(),
        r.buffered().len() >= 4 ==> (r.expected_size() matches Some(n) && n == frame_size_of(
            r.buffered(),
        ) && r.pending_bytes() == r.buffered().skip(4)),
{
    match r.expected_size() {
        None => {},
        Some(n) => {
            lemma_u32_be_encode_decode(n);
            assert(r.buffered().subrange(0, 4) =~= spec_u32_to_be_bytes(n));
            assert(r.buffered().skip(4) =~= r.pending_bytes());
        },
    }
}

/// A drained open reader holds no complete frame at the front of its
/// buffered bytes.
pub proof fn lemma_exhausted_no_frame(r: &ConnectionReader)
    requires
        r.wf(),
        !r.is_closed_spec(),
        r.exhausted(),
    ensures
        no_frame_at_front(r.buffered()),
{
    lemma_buffered_determines_state(r);
}

/// Unique framing: a byte stream decomposes in at most one way into a
/// sequence of well-sized frames followed by a remainder that holds no
/// complete frame at its front. The size prefix of each frame pins down
/// where the next one starts.
pub proof fn lemma_unique_framing(d1: Seq<Seq<u8>>, t1: Seq<u8>, d2: Seq<Seq<u8>>, t2: Seq<u8>)
    requires
        all_valid_frames(d1),
        all_valid_frames(d2),
        no_frame_at_front(t1),
        no_frame_at_front(t2),
        d1.flatten() + t1 == d2.flatten() + t2,
    ensures
        d1 == d2,
        t1 == t2,
    decreases d1.len(),
{
    if d1.len() == 0 && d2.len() == 0 {
        assert(d1.flatten() + t1 =~= t1);
        assert(d2.flatten() + t2 =~= t2);
        assert(d1 =~= d2);
    } else if d1.len() == 0 {
        let f = d2.first();
        assert(spec_valid_frame(d2[0]));
        assert(d1.flatten() + t1 =~= t1);
        assert(t1 =~= f + (d2.drop_first().flatten() + t2));
        assert(t1.subrange(0, 4) =~= f.subrange(0, 4));
        assert(frame_size_of(t1) == frame_size_of(f));
        assert(t1.len() >= f.len());
        assert(false);
    } else if d2.len() == 0 {
        let f = d1.first();
        assert(spec_valid_frame(d1[0]));
        assert(d2.flatten() + t2 =~= t2);
        assert(t2 =~= f + (d1.drop_first().flatten() + t1));
        assert(t2.subrange(0, 4) =~= f.subrange(0, 4));
        assert(frame_size_of(t2) == frame_size_of(f));
        assert(t2.len() >= f.len());
        assert(false);
    } else {
        let f1 = d1.first();
        let f2 = d2.first();
        assert(spec_valid_frame(d1[0]));
        assert(spec_valid_frame(d2[0]));
        let s = d1.flatten() + t1;
        let r1 = d1.drop_first().flatten() + t1;
        let r2 = d2.drop_first().flatten() + t2;
        assert(s =~= f1 + r1);
        assert(s =~= f2 + r2);
        assert(f1.subrange(0, 4) =~= s.subrange(0, 4));
        assert(f2.subrange(0, 4) =~= s.subrange(0, 4));
        assert(frame_size_of(f1) == frame_size_of(f2));
        assert(f1.len() == f2.len());
        assert forall|i: int| 0 <= i < f1.len() implies f1[i] == f2[i] by {
            assert(f1[i] == (f1 + r1)[i]);
            assert(f2[i] == (f2 + r2)[i]);
        }
        assert(f1 =~= f2);
        assert(r1.len() == r2.len());
        assert forall|i: int| 0 <= i < r1.len() implies r1[i] == r2[i] by {
            assert(r1[i] == (f1 + r1)[f1.len() + i]);
            assert(r2[i] == (f2 + r2)[f2.len() + i]);
        }
        assert(r1 =~= r2);
        assert(all_valid_frames(d1.drop_first())) by {
            assert(forall|i: int|
                0 <= i < d1.drop_first().len() ==> #[trigger] d1.drop_first()[i] == d1[i + 1]);
        }
        assert(all_valid_frames(d2.drop_first())) by {
            assert(forall|i: int|
                0 <= i < d2.drop_first().len() ==> #[trigger] d2.drop_first()[i] == d2[i + 1]);
        }
        lemma_unique_framing(d1.drop_first(), t1, d2.drop_first(), t2);
        assert(d1.len() == d2.len());
        assert forall|i: int| 0 <= i < d1.len() implies d1[i] == d2[i] by {
            if i == 0 {
                assert(d1[0] == f1 && d2[0] == f2);
            } else {
                assert(d1[i] == d1.drop_first()[i - 1]);
                assert(d2[i] == d2.drop_first()[i - 1]);
            }
        }
        assert(d1 =~= d2);
    }
}

/// Fragmentation invariance, stated against the byte stream: however the
/// transport fragmented the bytes into chunks, once a reader is drained it
/// has yielded exactly the well-sized frames the whole stream spells, in
/// order, and holds exactly the incomplete remainder.
pub proof fn lemma_reader_parses_stream(
    r: &ConnectionReader,
    frames: Seq<Seq<u8>>,
    rest: Seq<u8>,
)
    requires
        r.wf(),
        !r.is_closed_spec(),
        r.exhausted(),
        all_valid_frames(frames),
        no_frame_at_front(rest),
        r.consumed() == frames.flatten() + rest,
    ensures
        r.delivered() == frames,
        r.buffered() == rest,
{
    lemma_exhausted_no_frame(r);
    lemma_unique_framing(r.delivered(), r.buffered(), frames, rest);
}

/// Fragmentation invariance, stated between two readers: readers fed the
/// same bytes under different chunkings have yielded the same datagrams in
/// the same order once both are drained.
pub proof fn lemma_fragmentation_invariance(r1: &ConnectionReader, r2: &ConnectionReader)
    requires
        r1.wf(),
        r2.wf(),
        !r1.is_closed_spec(),
        !r2.is_closed_spec(),
        r1.exhausted(),
        r2.exhausted(),
        r1.consumed() == r2.consumed(),
    ensures
        r1.delivered() == r2.delivered(),
        r1.buffered() == r2.buffered(),
{
    lemma_exhausted_no_frame(r1);
    lemma_exhausted_no_frame(r2);
    lemma_unique_framing(r1.delivered(), r1.buffered(), r2.delivered(), r2.buffered());
}

} // verus!
