use connect::ConnectDatagram;
use connect::DatagramError;
use connect::DATAGRAM_HEADER_BYTE_SIZE;
use connect::SIZE_PREFIX_BYTE_SIZE;

#[test]
fn serialized_size() {
    let data: Vec<u8> = vec![0, 1, 2, 3, 4];
    assert_eq!(5, data.len());

    let sample = ConnectDatagram::with_tag(1, data).unwrap();
    assert_eq!(DATAGRAM_HEADER_BYTE_SIZE + 5, sample.serialized_size());
    assert_eq!(DATAGRAM_HEADER_BYTE_SIZE + 5, sample.into_bytes().len());
}

#[test]
fn get_data() {
    let data: Vec<u8> = vec![0, 1, 2, 3, 4];
    assert_eq!(5, data.len());

    let sample = ConnectDatagram::with_tag(1, data).unwrap();

    let taken_data = sample.data();
    assert_eq!(5, taken_data.len());
}

#[test]
fn encode_and_decode() {
    let data: Vec<u8> = vec![0, 1, 2, 3, 4];
    assert_eq!(5, data.len());

    let sample = ConnectDatagram::with_tag(1, data).unwrap();
    let serialized_size = sample.serialized_size();
    assert_eq!(DATAGRAM_HEADER_BYTE_SIZE + 5, serialized_size);

    let payload = sample.into_bytes();
    assert_eq!(serialized_size, payload.len());

    let sample_back_res = ConnectDatagram::from_bytes(payload.as_slice());
    assert!(sample_back_res.is_ok());

    let sample_back = sample_back_res.unwrap();
    assert_eq!(sample_back.version(), 1);
    assert_eq!(sample_back.tag(), 1);
    assert_eq!(sample_back.data().len(), 5);
}

#[test]
fn encode_and_decode_without_prefix() {
    let data: Vec<u8> = vec![0, 1, 2, 3, 4];
    assert_eq!(5, data.len());

    let sample = ConnectDatagram::with_tag(1, data).unwrap();
    let serialized_size = sample.serialized_size();
    assert_eq!(DATAGRAM_HEADER_BYTE_SIZE + 5, serialized_size);

    let mut payload = sample.into_bytes();
    assert_eq!(serialized_size, payload.len());

    let payload = payload.split_off(SIZE_PREFIX_BYTE_SIZE);
    let sample_back_res = ConnectDatagram::from_bytes_without_prefix(payload.as_slice());
    assert!(sample_back_res.is_ok());

    let sample_back = sample_back_res.unwrap();
    assert_eq!(sample_back.version(), 1);
    assert_eq!(sample_back.tag(), 1);
    assert_eq!(sample_back.data().len(), 5);
}

#[test]
fn empty_payload_is_rejected() {
    let result = ConnectDatagram::with_tag(7, Vec::new());
    assert!(matches!(result, Err(DatagramError::EmptyMessage)));

    let result = ConnectDatagram::new(Vec::new());
    assert!(matches!(result, Err(DatagramError::EmptyMessage)));
}

#[test]
fn oversized_payload_is_rejected() {
    let data: Vec<u8> = vec![0; 100_000_001];
    let result = ConnectDatagram::with_tag(7, data);
    assert!(matches!(result, Err(DatagramError::TooLargeMessage)));
}

#[test]
fn largest_payload_is_accepted() {
    let data: Vec<u8> = vec![0; 100_000_000];
    let sample = ConnectDatagram::with_tag(7, data).unwrap();
    assert_eq!(DATAGRAM_HEADER_BYTE_SIZE + 100_000_000, sample.serialized_size());
    assert_eq!(100_000_000, sample.data_size());
}

#[test]
fn round_trip_preserves_every_field() {
    let data: Vec<u8> = vec![9, 8, 7, 6, 5, 4, 3, 2, 1];
    let sample = ConnectDatagram::with_tag(513, data.clone()).unwrap();
    let wire = sample.into_bytes();

    let back = ConnectDatagram::from_bytes(wire.as_slice()).unwrap();
    assert_eq!(back.version(), 1);
    assert_eq!(back.tag(), 513);
    assert_eq!(back.data(), data.as_slice());
}

#[test]
fn wire_layout_is_big_endian_and_size_prefixed() {
    // A concrete scenario: tag 1, five payload bytes, so the whole frame is
    // 13 bytes and the prefix declares 4 + 5 = 9 bytes after itself.
    let data: Vec<u8> = vec![0, 1, 2, 3, 4];
    let sample = ConnectDatagram::with_tag(1, data).unwrap();
    assert_eq!(13, sample.serialized_size());

    let wire = sample.into_bytes();
    assert_eq!(wire, vec![0, 0, 0, 9, 0, 1, 0, 1, 0, 1, 2, 3, 4]);

    let declared = connect::protocol::peek_frame_size(&wire[..4]);
    assert_eq!(9, declared);

    let rest = &wire[4..];
    assert_eq!(9, rest.len());
    let back = ConnectDatagram::from_bytes_without_prefix(rest).unwrap();
    assert_eq!(back.version(), 1);
    assert_eq!(back.tag(), 1);
    assert_eq!(back.data().len(), 5);
}

#[test]
fn from_bytes_needs_more_than_a_header() {
    let result = ConnectDatagram::from_bytes(&[0u8; 8]);
    assert!(matches!(result, Err(DatagramError::InsufficientBytes)));

    let result = ConnectDatagram::from_bytes(&[]);
    assert!(matches!(result, Err(DatagramError::InsufficientBytes)));
}

#[test]
fn from_bytes_without_prefix_needs_more_than_the_fixed_fields() {
    let result = ConnectDatagram::from_bytes_without_prefix(&[0u8; 4]);
    assert!(matches!(result, Err(DatagramError::InsufficientBytes)));
}

#[test]
fn set_tag_changes_only_the_tag() {
    let data: Vec<u8> = vec![1, 2, 3];
    let mut sample = ConnectDatagram::with_tag(1, data.clone()).unwrap();
    sample.set_tag(65535);
    assert_eq!(65535, sample.tag());
    assert_eq!(1, sample.version());
    assert_eq!(data.as_slice(), sample.data());
    assert_eq!(DATAGRAM_HEADER_BYTE_SIZE + 3, sample.serialized_size());
}

#[test]
fn set_data_swaps_the_payload_and_recomputes_the_prefix() {
    let mut sample = ConnectDatagram::with_tag(2, vec![1, 2, 3]).unwrap();
    let previous = sample.set_data(vec![4, 5, 6, 7, 8]).unwrap();
    assert_eq!(vec![1, 2, 3], previous);
    assert_eq!(vec![4, 5, 6, 7, 8], sample.data().to_vec());
    assert_eq!(2, sample.tag());
    assert_eq!(1, sample.version());

    let wire = sample.into_bytes();
    assert_eq!(vec![0, 0, 0, 9, 0, 1, 0, 2, 4, 5, 6, 7, 8], wire);
}

#[test]
fn set_data_rejects_empty_and_oversized_payloads() {
    let mut sample = ConnectDatagram::with_tag(2, vec![1, 2, 3]).unwrap();

    let result = sample.set_data(Vec::new());
    assert!(matches!(result, Err(DatagramError::EmptyMessage)));

    let result = sample.set_data(vec![0; 100_000_001]);
    assert!(matches!(result, Err(DatagramError::TooLargeMessage)));

    // The datagram is unchanged after both rejections.
    assert_eq!(vec![1, 2, 3], sample.data().to_vec());
    assert_eq!(2, sample.tag());
}

#[test]
fn error_messages_describe_each_failure() {
    let empty = match ConnectDatagram::with_tag(1, Vec::new()) {
        Err(e) => e,
        Ok(_) => panic!("empty payload was accepted"),
    };
    assert_eq!(
        "tried to construct a `ConnectDatagram` with an empty message body",
        empty.message()
    );

    let short = match ConnectDatagram::from_bytes(&[0u8; 3]) {
        Err(e) => e,
        Ok(_) => panic!("short buffer was accepted"),
    };
    assert_eq!(
        "did not provide the complete byte-string necessary to deserialize the `ConnectDatagram`",
        short.message()
    );
}
