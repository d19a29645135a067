use connect::ConnectDatagram;
use connect::Connection;
use connect::ConnectionReader;
use connect::ConnectionWriteError;
use connect::ConnectionWriter;

fn datagram(tag: u16, payload: Vec<u8>) -> ConnectDatagram {
    ConnectDatagram::with_tag(tag, payload).unwrap()
}

/// The bytes the writer would hand to the transport in one vectored write.
fn pending_bytes(writer: &ConnectionWriter) -> Vec<u8> {
    let mut out = Vec::new();
    for frame in writer.pending_frames() {
        out.extend_from_slice(frame);
    }
    out
}

#[test]
fn frames_are_queued_in_submission_order() {
    let mut writer = ConnectionWriter::new();
    writer.ready().unwrap();
    writer.start_send(datagram(1, vec![1])).unwrap();
    writer.start_send(datagram(2, vec![2, 2])).unwrap();
    writer.start_send(datagram(3, vec![3, 3, 3])).unwrap();
    assert_eq!(3, writer.pending_frame_count());

    let mut expected = Vec::new();
    expected.extend_from_slice(&datagram(1, vec![1]).into_bytes());
    expected.extend_from_slice(&datagram(2, vec![2, 2]).into_bytes());
    expected.extend_from_slice(&datagram(3, vec![3, 3, 3]).into_bytes());
    assert_eq!(expected, pending_bytes(&writer));

    writer.mark_flushed();
    assert_eq!(0, writer.pending_frame_count());
    assert!(pending_bytes(&writer).is_empty());
}

#[test]
fn closed_writer_rejects_submissions() {
    let mut writer = ConnectionWriter::new();
    writer.close();
    assert!(matches!(writer.ready(), Err(ConnectionWriteError::ConnectionClosed)));
    let result = writer.start_send(datagram(1, vec![1]));
    assert!(matches!(result, Err(ConnectionWriteError::ConnectionClosed)));
    assert_eq!(0, writer.pending_frame_count());
}

#[test]
fn writer_close_is_idempotent() {
    let mut writer = ConnectionWriter::new();
    writer.start_send(datagram(1, vec![1])).unwrap();
    writer.close();
    assert!(writer.is_closed());
    // The queue survives closing, so a final flush can still happen.
    assert_eq!(1, writer.pending_frame_count());
    writer.close();
    assert!(writer.is_closed());
    assert_eq!(1, writer.pending_frame_count());
    writer.mark_flushed();
    assert_eq!(0, writer.pending_frame_count());
}

#[test]
fn connection_close_is_idempotent() {
    let mut connection = Connection::join(ConnectionReader::new(), ConnectionWriter::new());
    connection.writer().start_send(datagram(1, vec![1])).unwrap();
    connection.close();
    connection.close();
    assert!(connection.reader().is_closed());
    assert!(connection.writer().is_closed());
}

#[test]
fn split_halves_rejoin_into_a_connection() {
    let connection = Connection::join(ConnectionReader::new(), ConnectionWriter::new());
    let (reader, writer) = connection.split();
    let mut rejoined = Connection::join(reader, writer);
    assert!(!rejoined.reader().is_closed());
    assert!(!rejoined.writer().is_closed());
}

#[test]
fn ordered_delivery_from_writer_to_reader() {
    // Send a batch of datagrams through a writer, carry the flushed bytes
    // across in uneven chunks, and check the reader yields them in
    // submission order.
    let payloads: Vec<Vec<u8>> = vec![vec![1], vec![2, 2], vec![3, 3, 3], vec![4; 100]];
    let mut writer = ConnectionWriter::new();
    for (i, payload) in payloads.iter().enumerate() {
        writer.start_send(datagram(i as u16, payload.clone())).unwrap();
    }
    let stream = pending_bytes(&writer);
    writer.mark_flushed();

    let mut reader = ConnectionReader::new();
    let mut got = Vec::new();
    for chunk in stream.chunks(5) {
        reader.feed(chunk);
        while let Some(datagram) = reader.try_next() {
            got.push((datagram.tag(), datagram.data().to_vec()));
        }
    }
    let expected: Vec<(u16, Vec<u8>)> =
        payloads.iter().enumerate().map(|(i, p)| (i as u16, p.clone())).collect();
    assert_eq!(expected, got);
}

#[test]
fn echo_exchange_returns_the_payload_unchanged() {
    // Client sends one datagram; the server reads it, resubmits the same
    // datagram on its own writer, and the client reads the echo back.
    let message = b"Hello world".to_vec();
    let mut client_writer = ConnectionWriter::new();
    client_writer.start_send(datagram(65535, message.clone())).unwrap();
    let to_server = pending_bytes(&client_writer);
    client_writer.mark_flushed();

    let mut server_reader = ConnectionReader::new();
    server_reader.feed(&to_server);
    let request = server_reader.try_next().unwrap();
    assert_eq!(65535, request.tag());
    assert_eq!(message, request.data().to_vec());

    let mut server_writer = ConnectionWriter::new();
    server_writer.start_send(request).unwrap();
    let to_client = pending_bytes(&server_writer);
    server_writer.mark_flushed();

    let mut client_reader = ConnectionReader::new();
    client_reader.feed(&to_client);
    let reply = client_reader.try_next().unwrap();
    assert_eq!(65535, reply.tag());
    assert_eq!(message, reply.data().to_vec());
}

#[test]
fn write_error_message_names_the_closed_connection() {
    let mut writer = ConnectionWriter::new();
    writer.close();
    let error = writer.ready().unwrap_err();
    assert_eq!("cannot send message when connection is closed", error.message());
}
