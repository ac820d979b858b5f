use ostrich_protocol::notification::{file_descriptor_proto, file_descriptor_proto_data, ProtocolError, StatusRequest};
use ostrich_protocol::StatusNotification;

#[test]
fn notification_values_round_trip() {
    for (i, e) in StatusNotification::values().into_iter().enumerate() {
        assert_eq!(e.value(), i as i32);
        assert_eq!(StatusNotification::from_i32(i as i32), Some(e));
    }
    assert_eq!(StatusNotification::from_i32(4), None);
    assert_eq!(StatusNotification::from_i32(-1), None);
    assert_eq!(StatusNotification::Exit.value(), 3);
    assert_eq!(StatusNotification::from_i32(2), Some(StatusNotification::Reload));
}

#[test]
fn notification_default_is_unknown() {
    assert_eq!(StatusNotification::default(), StatusNotification::UNKNOWN);
}

#[test]
fn new_request_is_empty() {
    let m = StatusRequest::new();
    assert_eq!(m.status, 0);
    assert_eq!(m.status_enum(), Some(StatusNotification::UNKNOWN));
    assert_eq!(m.compute_size(), 0);
    assert_eq!(m.write_to_bytes().unwrap(), Vec::<u8>::new());
    assert!(m.is_initialized());
    assert!(m == StatusRequest::default());
}

#[test]
fn running_is_written_as_tag_and_value() {
    let mut m = StatusRequest::new();
    m.set_status(StatusNotification::Running);
    assert_eq!(m.write_to_bytes().unwrap(), vec![0x08, 0x01]);
    assert_eq!(m.compute_size(), 2);
}

#[test]
fn negative_status_is_sign_extended() {
    let mut m = StatusRequest::new();
    m.status = -1;
    let bytes = m.write_to_bytes().unwrap();
    assert_eq!(
        bytes,
        vec![0x08, 0xff, 0xff, 0xff, 0xff, 0xff, 0xff, 0xff, 0xff, 0xff, 0x01]
    );
    assert_eq!(m.compute_size(), 11);
    let back = StatusRequest::parse_from_bytes(&bytes).unwrap();
    assert_eq!(back.status, -1);
    assert_eq!(back.status_enum(), None);
}

#[test]
fn large_status_takes_five_bytes() {
    let mut m = StatusRequest::new();
    m.status = 300;
    assert_eq!(m.write_to_bytes().unwrap(), vec![0x08, 0xac, 0x02]);
    m.status = i32::MAX;
    assert_eq!(m.write_to_bytes().unwrap(), vec![0x08, 0xff, 0xff, 0xff, 0xff, 0x07]);
    assert_eq!(m.compute_size(), 6);
}

#[test]
fn parse_of_write_gives_the_message_back() {
    for status in [0, 1, 2, 3, 7, 127, 128, -5, i32::MIN, i32::MAX] {
        let mut m = StatusRequest::new();
        m.status = status;
        let bytes = m.write_to_bytes().unwrap();
        let back = StatusRequest::parse_from_bytes(&bytes).unwrap();
        assert!(back == m);
        assert_eq!(back.status, status);
    }
}

#[test]
fn concatenated_messages_merge() {
    let back = StatusRequest::parse_from_bytes(&[0x08, 0x01, 0x08, 0x03]).unwrap();
    assert_eq!(back.status_enum(), Some(StatusNotification::Exit));
    let mut m = StatusRequest::parse_from_bytes(&[0x08, 0x02]).unwrap();
    m.merge_from_bytes(&[]).unwrap();
    assert_eq!(m.status, 2);
}

#[test]
fn non_canonical_varint_is_read() {
    let m = StatusRequest::parse_from_bytes(&[0x08, 0x82, 0x00]).unwrap();
    assert_eq!(m.status, 2);
}

#[test]
fn unknown_fields_are_kept_and_written_back() {
    let bytes = [0x10, 0x05, 0x08, 0x01];
    let m = StatusRequest::parse_from_bytes(&bytes).unwrap();
    assert_eq!(m.status, 1);
    assert_eq!(m.compute_size(), 4);
    let out = m.write_to_bytes().unwrap();
    assert_eq!(out, vec![0x08, 0x01, 0x10, 0x05]);
    let other = StatusRequest::parse_from_bytes(&[0x08, 0x01]).unwrap();
    assert!(!(m == other));
    let copy = m.clone();
    assert!(copy == m);
}

#[test]
fn length_delimited_unknown_field_is_kept() {
    let bytes = [0x1a, 0x02, 0xaa, 0xbb];
    let m = StatusRequest::parse_from_bytes(&bytes).unwrap();
    assert_eq!(m.status, 0);
    assert_eq!(m.write_to_bytes().unwrap(), bytes.to_vec());
}

#[test]
fn group_is_skipped() {
    let m = StatusRequest::parse_from_bytes(&[0x1b, 0x08, 0x01, 0x1c, 0x08, 0x02]).unwrap();
    assert_eq!(m.status, 2);
    assert_eq!(m.write_to_bytes().unwrap(), vec![0x08, 0x02]);
}

#[test]
fn clear_resets() {
    let mut m = StatusRequest::parse_from_bytes(&[0x10, 0x05, 0x08, 0x01]).unwrap();
    m.clear();
    assert_eq!(m.status, 0);
    assert_eq!(m.compute_size(), 0);
    assert_eq!(m.write_to_bytes().unwrap(), Vec::<u8>::new());
}

#[test]
fn truncated_input_is_malformed() {
    assert_eq!(StatusRequest::parse_from_bytes(&[0x08]).err(), Some(ProtocolError::Malformed));
    assert_eq!(StatusRequest::parse_from_bytes(&[0x80]).err(), Some(ProtocolError::Malformed));
    assert_eq!(StatusRequest::parse_from_bytes(&[0x1a, 0x05, 0x01]).err(), Some(ProtocolError::Malformed));
}

#[test]
fn bad_tag_is_malformed() {
    assert_eq!(StatusRequest::parse_from_bytes(&[0x00]).err(), Some(ProtocolError::Malformed));
    assert_eq!(StatusRequest::parse_from_bytes(&[0x0f, 0x00]).err(), Some(ProtocolError::Malformed));
    assert_eq!(StatusRequest::parse_from_bytes(&[0x0c]).err(), Some(ProtocolError::Malformed));
}

#[test]
fn overlong_or_out_of_range_value_is_malformed() {
    let overlong = [0x08, 0x80, 0x80, 0x80, 0x80, 0x80, 0x80, 0x80, 0x80, 0x80, 0x02];
    assert_eq!(StatusRequest::parse_from_bytes(&overlong).err(), Some(ProtocolError::Malformed));
    let too_big = [0x08, 0x80, 0x80, 0x80, 0x80, 0x08];
    assert_eq!(StatusRequest::parse_from_bytes(&too_big).err(), Some(ProtocolError::Malformed));
}

#[test]
fn failed_merge_keeps_what_came_before() {
    let mut m = StatusRequest::new();
    assert_eq!(m.merge_from_bytes(&[0x08, 0x03, 0xff]), Err(ProtocolError::Malformed));
    assert_eq!(m.status, 3);
}

#[test]
fn descriptor_parses() {
    let data = file_descriptor_proto_data();
    assert_eq!(data.len(), 160);
    assert_eq!(&data[2..20], b"notification.proto");
    assert!(file_descriptor_proto().is_ok());
}

#[test]
fn field_numbers_of_unknown_fields_are_checked() {
    let mut m = StatusRequest::parse_from_bytes(&[0x10, 0x05]).unwrap();
    assert!(m.unknown_field_numbers_valid());
    assert_eq!(m.checked_write_to_bytes().unwrap().unwrap(), vec![0x10, 0x05]);
    m.special_fields.mut_unknown_fields().add_varint(0, 1);
    assert!(!m.unknown_field_numbers_valid());
    assert!(m.checked_write_to_bytes().is_none());
    assert!(StatusRequest::new().unknown_field_numbers_valid());
}

#[test]
fn size_counts_unknown_fields() {
    let bytes = [0x1a, 0x02, 0xaa, 0xbb, 0x25, 1, 2, 3, 4, 0x08, 0x02];
    let m = StatusRequest::parse_from_bytes(&bytes).unwrap();
    assert_eq!(m.compute_size(), 11);
    assert_eq!(m.write_to_bytes().unwrap().len(), 11);
    assert_eq!(&m.write_to_bytes().unwrap()[0..2], &[0x08, 0x02]);
}

#[test]
fn unknown_fields_of_every_kind_read_back() {
    // field 2 varint, field 3 length-delimited, field 4 fixed32, field 5 fixed64,
    // field 2 again, then the status.
    let bytes = [
        0x10, 0x96, 0x01, 0x1a, 0x03, 1, 2, 3, 0x25, 9, 8, 7, 6, 0x29, 1, 2, 3, 4, 5, 6, 7, 8,
        0x10, 0x07, 0x08, 0x02,
    ];
    let m = StatusRequest::parse_from_bytes(&bytes).unwrap();
    assert_eq!(m.status, 2);
    let written = m.write_to_bytes().unwrap();
    assert_eq!(written.len(), bytes.len());
    assert_eq!(m.compute_size() as usize, bytes.len());
    let back = StatusRequest::parse_from_bytes(&written).unwrap();
    assert!(back == m);
    let again = back.write_to_bytes().unwrap();
    let third = StatusRequest::parse_from_bytes(&again).unwrap();
    assert!(third == m);
    let mut sorted_written = written.clone();
    sorted_written.sort();
    let mut sorted_bytes = bytes.to_vec();
    sorted_bytes.sort();
    assert_eq!(sorted_written, sorted_bytes);
}

#[test]
fn varint_of_field_one_kept_as_unknown_is_read_as_status() {
    let mut m = StatusRequest::new();
    m.special_fields.mut_unknown_fields().add_varint(1, 3);
    let written = m.write_to_bytes().unwrap();
    assert_eq!(written, vec![0x08, 0x03]);
    let back = StatusRequest::parse_from_bytes(&written).unwrap();
    assert_eq!(back.status, 3);
}

#[test]
fn merging_a_concatenation_is_merging_in_turn() {
    let first = [0x08, 0x01, 0x1a, 0x01, 0xff];
    let second = [0x10, 0x02, 0x08, 0x03];
    let mut whole = first.to_vec();
    whole.extend_from_slice(&second);
    let all = StatusRequest::parse_from_bytes(&whole).unwrap();
    let mut step = StatusRequest::parse_from_bytes(&first).unwrap();
    step.merge_from_bytes(&second).unwrap();
    assert!(all == step);
    assert_eq!(all.status, 3);
    assert_eq!(all.compute_size(), 7);
}

#[test]
fn special_fields_accessors() {
    let mut m = StatusRequest::parse_from_bytes(&[0x08, 0x01]).unwrap();
    m.mut_special_fields().mut_unknown_fields().add_fixed32(9, 1);
    assert!(m.special_fields().unknown_fields().get(9).is_some());
    assert_eq!(m.status, 1);
    assert_eq!(m.compute_size(), 7);
}
