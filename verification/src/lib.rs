//! A brokerless message-queue abstraction over ordered byte streams.
//!
//! The crate frames opaque application payloads as size-prefixed datagrams,
//! reconstructs them from arbitrarily fragmented reads, and queues outgoing
//! frames so they reach the transport in submission order.

pub mod protocol;
pub mod reader;
pub mod wire;
pub mod writer;

pub use crate::protocol::ConnectDatagram;
pub use crate::protocol::DatagramError;
pub use crate::reader::ConnectionReader;
pub use crate::writer::ConnectionWriteError;
pub use crate::writer::ConnectionWriter;
pub use crate::protocol::DATAGRAM_HEADER_BYTE_SIZE;
pub use crate::protocol::SIZE_PREFIX_BYTE_SIZE;

use vstd::prelude::*;

verus! {

/// Wrapper around a [`ConnectionReader`] and a [`ConnectionWriter`] to read
/// and write on one network connection.
///
/// The two halves never share state, so after [`Connection::split`] they can
/// be driven concurrently and later re-paired with [`Connection::join`].
pub struct Connection {
    reader: ConnectionReader,
    writer: ConnectionWriter,
}

impl Connection {
    /// The reader half.
    pub closed spec fn reader_half(&self) -> ConnectionReader {
        self.reader
    }

    /// The writer half.
    pub closed spec fn writer_half(&self) -> ConnectionWriter {
        self.writer
    }

    /// Both halves satisfy their invariants.
    pub open spec fn wf(&self) -> bool {
        self.reader_half().wf() && self.writer_half().wf()
    }

    /// Re-wrap a [`ConnectionReader`] and a [`ConnectionWriter`] into a
    /// [`Connection`].
    pub fn join(reader: ConnectionReader, writer: ConnectionWriter) -> (c: Self)
        ensures
            c.reader_half() == reader,
            c.writer_half() == writer,
    {
        Connection { reader, writer }
    }

    /// Consume the [`Connection`] to split it into its separate reader and
    /// writer halves, for independent concurrent use.
    pub fn split(self) -> (halves: (ConnectionReader, ConnectionWriter))
        ensures
            halves.0 == self.reader_half(),
            halves.1 == self.writer_half(),
    {
        (self.reader, self.writer)
    }

    /// Get mutable access to the underlying [`ConnectionReader`].
    pub fn reader(&mut self) -> (r: &mut ConnectionReader)
        ensures
            *r == old(self).reader_half(),
            final(self).reader_half() == *final(r),
            final(self).writer_half() == old(self).writer_half(),
    {
        &mut self.reader
    }

    /// Get mutable access to the underlying [`ConnectionWriter`].
    pub fn writer(&mut self) -> (w: &mut ConnectionWriter)
        ensures
            *w == old(self).writer_half(),
            final(self).writer_half() == *final(w),
            final(self).reader_half() == old(self).reader_half(),
    {
        &mut self.writer
    }

    /// Close the connection: the reader releases its buffers and yields
    /// nothing further; the writer rejects new submissions but keeps its
    /// queue so a final flush can still hand it to the transport. Closing
    /// is idempotent, and both histories are kept unchanged.
    pub fn close(&mut self)
        requires
            old(self).wf(),
        ensures
            final(self).wf(),
            final(self).reader_half().is_closed_spec(),
            final(self).writer_half().is_closed_spec(),
            final(self).reader_half().consumed() == old(self).reader_half().consumed(),
            final(self).reader_half().delivered() == old(self).reader_half().delivered(),
            final(self).writer_half().queued() == old(self).writer_half().queued(),
            final(self).writer_half().flushed() == old(self).writer_half().flushed(),
            final(self).writer_half().submitted() == old(self).writer_half().submitted(),
    {
        self.reader.close_stream();
        self.writer.close();
    }
}

} // verus!
