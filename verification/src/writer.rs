//! The write half: accepts datagrams from the application, serializes them,
//! and queues the frames so the caller can hand them to the transport as one
//! vectored write, in exactly the order they were submitted.
//!
//! The transport itself is driven by the caller: it writes out the queued
//! frames and confirms with [`ConnectionWriter::mark_flushed`] once the
//! write fully succeeded, so a failed or blocked write never loses a frame.
//! Two ghost histories record every frame submitted and every frame handed
//! to the transport, which lets the first-in-first-out guarantee be stated
//! and proved.

use crate::protocol::ConnectDatagram;
use vstd::prelude::*;

verus! {

#[verifier::external_type_specification]
#[verifier::external_body]
pub struct ExIoError(std::io::Error);

/// Encountered when there is an issue with writing messages on the network
/// stream.
#[derive(Debug)]
pub enum ConnectionWriteError {
    /// Encountered when trying to send a message while the connection is
    /// closed.
    ConnectionClosed,
    /// Encountered when there is an IO-level error with the connection.
    IoError(std::io::Error),
}

impl ConnectionWriteError {
    /// A fixed human-readable description of the error.
    pub fn message(&self) -> (m: &'static str)
        ensures
            *self matches ConnectionWriteError::ConnectionClosed ==> m@ == (
            "cannot send message when connection is closed")@,
            *self matches ConnectionWriteError::IoError(e) ==> m@ == (
            "encountered an io-level error with the connection")@,
    {
        match self {
            ConnectionWriteError::ConnectionClosed => {
                "cannot send message when connection is closed"
            },
            ConnectionWriteError::IoError(_) => {
                "encountered an io-level error with the connection"
            },
        }
    }
}

/// An interface to write messages to the network connection.
///
/// Submitted datagrams are serialized at once and queued; the caller flushes
/// the queue to the transport and confirms success. Once closed, no further
/// submissions are accepted.
pub struct ConnectionWriter {
    pending_writes: Vec<Vec<u8>>,
    closed: bool,
    submitted: Ghost<Seq<Seq<u8>>>,
    flushed: Ghost<Seq<Seq<u8>>>,
}

impl ConnectionWriter {
    /// The serialized frames that have not yet been written out, first
    /// submitted first.
    pub closed spec fn queued(&self) -> Seq<Seq<u8>> {
        self.pending_writes.deep_view()
    }

    /// Whether the writer has been closed.
    pub closed spec fn is_closed_spec(&self) -> bool {
        self.closed
    }

    /// The wire frames of every datagram ever submitted, in order.
    pub closed spec fn submitted(&self) -> Seq<Seq<u8>> {
        self.submitted@
    }

    /// The wire frames handed to the transport so far, in order.
    pub closed spec fn flushed(&self) -> Seq<Seq<u8>> {
        self.flushed@
    }

    /// The writer's invariant: the frames handed to the transport, followed
    /// by the frames still queued, are exactly the submitted frames.
    pub open spec fn wf(&self) -> bool {
        self.submitted() == self.flushed() + self.queued()
    }

    /// Creates a new open [`ConnectionWriter`] with an empty queue.
    pub fn new() -> (r: Self)
        ensures
            r.wf(),
            !r.is_closed_spec(),
            r.queued() == Seq::<Seq<u8>>::empty(),
            r.flushed() == Seq::<Seq<u8>>::empty(),
            r.submitted() == Seq::<Seq<u8>>::empty(),
    {
        let r = ConnectionWriter {
            pending_writes: Vec::new(),
            closed: false,
            submitted: Ghost(Seq::empty()),
            flushed: Ghost(Seq::empty()),
        };
        proof {
            assert(r.queued() =~~= Seq::<Seq<u8>>::empty());
            assert(r.wf());
        }
        r
    }

    /// Check if the writer half of the connection is closed.
    pub fn is_closed(&self) -> (b: bool)
        ensures
            b == self.is_closed_spec(),
    {
        self.closed
    }

    /// Readiness check before submitting a new datagram: fails exactly when
    /// the writer is already closed.
    pub fn ready(&self) -> (r: Result<(), ConnectionWriteError>)
        ensures
            (r is Ok) == !self.is_closed_spec(),
            self.is_closed_spec() ==> (r matches Err(ConnectionWriteError::ConnectionClosed)),
    {
        if self.is_closed() {
            Err(ConnectionWriteError::ConnectionClosed)
        } else {
            Ok(())
        }
    }

    /// Serializes a datagram and appends its frame to the queue of pending
    /// writes; performs no transport I/O and never reorders the queue.
    ///
    /// Fails with [`ConnectionWriteError::ConnectionClosed`], leaving the
    /// writer unchanged, exactly when the writer is closed.
    pub fn start_send(&mut self, item: ConnectDatagram) -> (r: Result<(), ConnectionWriteError>)
        requires
            old(self).wf(),
        ensures
            final(self).wf(),
            final(self).is_closed_spec() == old(self).is_closed_spec(),
            final(self).flushed() == old(self).flushed(),
            !old(self).is_closed_spec() ==> (r matches Ok(unit) && unit == ())
                && final(self).queued() == old(self).queued().push(item@)
                && final(self).submitted() == old(self).submitted().push(item@),
            old(self).is_closed_spec() ==> (r matches Err(
                ConnectionWriteError::ConnectionClosed,
            )) && *final(self) == *old(self),
    {
        if self.closed {
            return Err(ConnectionWriteError::ConnectionClosed);
        }
        let buffer = item.into_bytes();
        proof {
            self.submitted@ = self.submitted@.push(buffer@);
        }
        self.pending_writes.push(buffer);
        proof {
            assert(self.queued() =~~= old(self).queued().push(buffer@));
        }
        Ok(())
    }

    /// The number of serialized frames waiting to be written out.
    pub fn pending_frame_count(&self) -> (n: usize)
        ensures
            n == self.queued().len(),
    {
        self.pending_writes.len()
    }

    /// The serialized frames waiting to be written out, in submission order;
    /// the caller hands these to the transport as one vectored write.
    pub fn pending_frames(&self) -> (r: &Vec<Vec<u8>>)
        ensures
            r.deep_view() == self.queued(),
    {
        &self.pending_writes
    }

    /// Record that every queued frame was fully written to the transport,
    /// and clear the queue. To be called only after the vectored write
    /// succeeded in full; on a blocked or failed write the queue is simply
    /// kept.
    pub fn mark_flushed(&mut self)
        requires
            old(self).wf(),
        ensures
            final(self).wf(),
            final(self).is_closed_spec() == old(self).is_closed_spec(),
            final(self).queued() == Seq::<Seq<u8>>::empty(),
            final(self).flushed() == old(self).flushed() + old(self).queued(),
            final(self).submitted() == old(self).submitted(),
    {
        proof {
            self.flushed@ = self.flushed@ + self.queued();
        }
        self.pending_writes.clear();
        proof {
            assert(self.queued() =~~= Seq::<Seq<u8>>::empty());
            assert(self.submitted() =~~= self.flushed() + self.queued());
        }
    }

    /// Close the writer: every later submission is rejected. Closing is
    /// idempotent and keeps the queue, so a final flush can still hand the
    /// remaining frames to the transport.
    pub fn close(&mut self)
        requires
            old(self).wf(),
        ensures
            final(self).wf(),
            final(self).is_closed_spec(),
            final(self).queued() == old(self).queued(),
            final(self).flushed() == old(self).flushed(),
            final(self).submitted() == old(self).submitted(),
    {
        self.closed = true;
    }
}

/// First-in-first-out delivery: the frames handed to the transport, followed
/// by the frames still queued, are exactly the submitted frames in
/// submission order — no frame is lost, duplicated, or reordered.
pub proof fn lemma_writer_fifo(w: &ConnectionWriter)
    requires
        w.wf(),
    ensures
        w.flushed() + w.queued() == w.submitted(),
{
}

} // verus!
