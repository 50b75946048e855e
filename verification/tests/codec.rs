use bytes::BytesMut;
use rtalk::codec::{scan_frame, DecodeError, Decoded, EventCodec, Scanned};
use rtalk::event::Event;

fn every_variant() -> Vec<Event> {
    vec![
        Event::RequestJoin("alice".to_string()),
        Event::Joined("bob".to_string()),
        Event::Leave(),
        Event::Left("carol".to_string()),
        Event::MessageSend("hello, world".to_string()),
        Event::MessageReceived("dave".to_string(), "héllo ✓".to_string()),
        Event::RequestJoin(String::new()),
        Event::MessageReceived(String::new(), String::new()),
    ]
}

fn encoded(event: &Event) -> Vec<u8> {
    let mut buffer = BytesMut::new();
    let mut codec = EventCodec;
    assert_eq!(codec.encode(event.clone(), &mut buffer), Ok(()));
    buffer.to_vec()
}

#[test]
fn discriminants_are_the_wire_tags() {
    assert_eq!(Event::RequestJoin("a".to_string()).discriminant(), 0);
    assert_eq!(Event::Joined("a".to_string()).discriminant(), 1);
    assert_eq!(Event::Leave().discriminant(), 2);
    assert_eq!(Event::Left("a".to_string()).discriminant(), 3);
    assert_eq!(Event::MessageSend("a".to_string()).discriminant(), 4);
    assert_eq!(Event::MessageReceived("a".to_string(), "b".to_string()).discriminant(), 5);
}

#[test]
fn encodes_request_join_byte_for_byte() {
    assert_eq!(
        encoded(&Event::RequestJoin("alice".to_string())),
        vec![0, 0, 0, 0, 0, 0, 0, 0, 5, b'a', b'l', b'i', b'c', b'e']
    );
}

#[test]
fn encodes_joined_byte_for_byte() {
    assert_eq!(
        encoded(&Event::Joined("bob".to_string())),
        vec![1, 0, 0, 0, 0, 0, 0, 0, 3, b'b', b'o', b'b']
    );
}

#[test]
fn encodes_leave_as_its_tag_alone() {
    assert_eq!(encoded(&Event::Leave()), vec![2]);
}

#[test]
fn encodes_left_byte_for_byte() {
    assert_eq!(
        encoded(&Event::Left("al".to_string())),
        vec![3, 0, 0, 0, 0, 0, 0, 0, 2, b'a', b'l']
    );
}

#[test]
fn encodes_message_send_byte_for_byte() {
    assert_eq!(
        encoded(&Event::MessageSend("hi".to_string())),
        vec![4, 0, 0, 0, 0, 0, 0, 0, 2, b'h', b'i']
    );
}

#[test]
fn encodes_message_received_with_both_fields_in_order() {
    assert_eq!(
        encoded(&Event::MessageReceived("al".to_string(), "hi!".to_string())),
        vec![5, 0, 0, 0, 0, 0, 0, 0, 2, b'a', b'l', 0, 0, 0, 0, 0, 0, 0, 3, b'h', b'i', b'!']
    );
}

#[test]
fn length_prefix_counts_bytes_not_characters() {
    // "é" is two bytes of UTF-8.
    assert_eq!(
        encoded(&Event::MessageSend("é".to_string())),
        vec![4, 0, 0, 0, 0, 0, 0, 0, 2, 0xC3, 0xA9]
    );
}

#[test]
fn length_prefix_is_big_endian() {
    let body = "x".repeat(258);
    let bytes = encoded(&Event::MessageSend(body));
    assert_eq!(bytes.len(), 1 + 8 + 258);
    assert_eq!(&bytes[..9], &[4, 0, 0, 0, 0, 0, 0, 1, 2]);
}

#[test]
fn encode_appends_and_keeps_what_is_buffered() {
    let mut buffer = BytesMut::from(&[9u8, 9, 9][..]);
    let mut codec = EventCodec;
    assert_eq!(codec.encode(Event::Leave(), &mut buffer), Ok(()));
    assert_eq!(&buffer[..], &[9, 9, 9, 2]);
}

#[test]
fn round_trip_gives_the_event_back_and_empties_the_buffer() {
    for event in every_variant() {
        let mut buffer = BytesMut::new();
        let mut codec = EventCodec;
        assert_eq!(codec.encode(event.clone(), &mut buffer), Ok(()));
        assert_eq!(codec.decode(&mut buffer), Ok(Decoded::Frame(event)));
        assert!(buffer.is_empty());
    }
}

#[test]
fn scan_reports_the_frame_length() {
    for event in every_variant() {
        let bytes = encoded(&event);
        assert_eq!(scan_frame(&bytes), Scanned::Frame(event, bytes.len()));
    }
}

#[test]
fn every_proper_prefix_needs_more_and_leaves_the_buffer_alone() {
    for event in every_variant() {
        let bytes = encoded(&event);
        for cut in 0..bytes.len() {
            let mut buffer = BytesMut::from(&bytes[..cut]);
            let mut codec = EventCodec;
            match codec.decode(&mut buffer) {
                Ok(Decoded::NeedMore(missing)) => {
                    assert!(missing >= 1);
                    assert!(missing as usize <= bytes.len() - cut);
                }
                other => panic!("cut {}: {:?}", cut, other),
            }
            assert_eq!(&buffer[..], &bytes[..cut]);
        }
    }
}

#[test]
fn split_delivery_gives_the_same_event_as_whole_delivery() {
    for event in every_variant() {
        let bytes = encoded(&event);
        for cut in 0..bytes.len() {
            let mut buffer = BytesMut::new();
            let mut codec = EventCodec;
            buffer.extend_from_slice(&bytes[..cut]);
            assert!(matches!(codec.decode(&mut buffer), Ok(Decoded::NeedMore(_))));
            buffer.extend_from_slice(&bytes[cut..]);
            assert_eq!(codec.decode(&mut buffer), Ok(Decoded::Frame(event.clone())));
            assert!(buffer.is_empty());
        }
    }
}

#[test]
fn byte_by_byte_delivery_decodes_once_the_last_byte_is_in() {
    let event = Event::MessageReceived("alice".to_string(), "hi".to_string());
    let bytes = encoded(&event);
    let mut buffer = BytesMut::new();
    let mut codec = EventCodec;
    for (at, byte) in bytes.iter().enumerate() {
        buffer.extend_from_slice(&[*byte]);
        let decoded = codec.decode(&mut buffer);
        if at + 1 < bytes.len() {
            assert!(matches!(decoded, Ok(Decoded::NeedMore(_))));
        } else {
            assert_eq!(decoded, Ok(Decoded::Frame(event.clone())));
        }
    }
    assert!(buffer.is_empty());
}

#[test]
fn need_more_counts_what_the_field_being_read_lacks() {
    let mut codec = EventCodec;
    // Nothing: the tag byte is missing.
    assert_eq!(codec.decode(&mut BytesMut::new()), Ok(Decoded::NeedMore(1)));
    // A tag alone: the whole length prefix is missing.
    assert_eq!(codec.decode(&mut BytesMut::from(&[0u8][..])), Ok(Decoded::NeedMore(8)));
    // Three bytes of the prefix: five are missing.
    assert_eq!(codec.decode(&mut BytesMut::from(&[4u8, 0, 0, 0][..])), Ok(Decoded::NeedMore(5)));
    // A prefix of 5 and two bytes of the body: three are missing.
    assert_eq!(
        codec.decode(&mut BytesMut::from(&[1u8, 0, 0, 0, 0, 0, 0, 0, 5, b'a', b'b'][..])),
        Ok(Decoded::NeedMore(3))
    );
    // The first field whole, the second prefix not begun: eight are missing.
    assert_eq!(
        codec.decode(&mut BytesMut::from(&[5u8, 0, 0, 0, 0, 0, 0, 0, 1, b'a'][..])),
        Ok(Decoded::NeedMore(8))
    );
    // The second body short by two.
    assert_eq!(
        codec.decode(&mut BytesMut::from(
            &[5u8, 0, 0, 0, 0, 0, 0, 0, 1, b'a', 0, 0, 0, 0, 0, 0, 0, 3, b'h'][..]
        )),
        Ok(Decoded::NeedMore(2))
    );
}

#[test]
fn a_huge_declared_length_only_needs_more() {
    let mut buffer = BytesMut::from(&[4u8, 0xFF, 0xFF, 0xFF, 0xFF, 0xFF, 0xFF, 0xFF, 0xFF, 1][..]);
    let mut codec = EventCodec;
    assert_eq!(codec.decode(&mut buffer), Ok(Decoded::NeedMore(u64::MAX - 1)));
    assert_eq!(buffer.len(), 10);
}

#[test]
fn two_frames_in_one_buffer_decode_in_order_with_nothing_left() {
    let first = Event::RequestJoin("alice".to_string());
    let second = Event::MessageSend("hi".to_string());
    let mut buffer = BytesMut::new();
    let mut codec = EventCodec;
    assert_eq!(codec.encode(first.clone(), &mut buffer), Ok(()));
    assert_eq!(codec.encode(second.clone(), &mut buffer), Ok(()));
    assert_eq!(codec.decode(&mut buffer), Ok(Decoded::Frame(first)));
    assert_eq!(&buffer[..], &encoded(&second)[..]);
    assert_eq!(codec.decode(&mut buffer), Ok(Decoded::Frame(second)));
    assert!(buffer.is_empty());
    assert_eq!(codec.decode(&mut buffer), Ok(Decoded::NeedMore(1)));
}

#[test]
fn decode_takes_only_the_first_frame_and_leaves_a_partial_second() {
    let mut buffer = BytesMut::from(&[2u8, 4, 0, 0][..]);
    let mut codec = EventCodec;
    assert_eq!(codec.decode(&mut buffer), Ok(Decoded::Frame(Event::Leave())));
    assert_eq!(&buffer[..], &[4, 0, 0]);
    assert_eq!(codec.decode(&mut buffer), Ok(Decoded::NeedMore(6)));
    assert_eq!(&buffer[..], &[4, 0, 0]);
}

#[test]
fn an_unknown_tag_is_fatal_whatever_follows() {
    let mut codec = EventCodec;
    for tag in 6..=255u8 {
        let mut alone = BytesMut::from(&[tag][..]);
        assert_eq!(codec.decode(&mut alone), Err(DecodeError::UnknownTag(tag)));
        assert_eq!(&alone[..], &[tag]);
        let mut followed = BytesMut::from(&[tag, 0, 0, 0, 0, 0, 0, 0, 1, b'a'][..]);
        assert_eq!(codec.decode(&mut followed), Err(DecodeError::UnknownTag(tag)));
        assert_eq!(followed.len(), 10);
    }
}

#[test]
fn an_unknown_tag_stays_fatal_on_retry() {
    let mut buffer = BytesMut::from(&[6u8][..]);
    let mut codec = EventCodec;
    assert_eq!(codec.decode(&mut buffer), Err(DecodeError::UnknownTag(6)));
    buffer.extend_from_slice(&[0, 0, 0, 0, 0, 0, 0, 0]);
    assert_eq!(codec.decode(&mut buffer), Err(DecodeError::UnknownTag(6)));
}

#[test]
fn invalid_utf8_is_fatal() {
    let mut buffer = BytesMut::from(&[0u8, 0, 0, 0, 0, 0, 0, 0, 2, 0xC3, 0x28][..]);
    let mut codec = EventCodec;
    assert_eq!(codec.decode(&mut buffer), Err(DecodeError::InvalidUtf8));
    assert_eq!(buffer.len(), 11);
}

#[test]
fn invalid_utf8_in_the_first_field_is_fatal_before_the_second_arrives() {
    let mut buffer = BytesMut::from(&[5u8, 0, 0, 0, 0, 0, 0, 0, 1, 0xFF][..]);
    let mut codec = EventCodec;
    assert_eq!(codec.decode(&mut buffer), Err(DecodeError::InvalidUtf8));
}

#[test]
fn invalid_utf8_in_the_second_field_is_fatal() {
    let mut buffer = BytesMut::from(
        &[5u8, 0, 0, 0, 0, 0, 0, 0, 1, b'a', 0, 0, 0, 0, 0, 0, 0, 1, 0x80][..],
    );
    let mut codec = EventCodec;
    assert_eq!(codec.decode(&mut buffer), Err(DecodeError::InvalidUtf8));
}

#[test]
fn scan_reads_a_slice_without_a_buffer() {
    assert_eq!(scan_frame(&[]), Scanned::NeedMore(1));
    assert_eq!(scan_frame(&[2, 7, 7]), Scanned::Frame(Event::Leave(), 1));
    assert_eq!(scan_frame(&[9]), Scanned::UnknownTag(9));
    assert_eq!(scan_frame(&[3, 0, 0, 0, 0, 0, 0, 0, 1, 0xC0]), Scanned::InvalidUtf8);
    assert_eq!(
        scan_frame(&[1, 0, 0, 0, 0, 0, 0, 0, 2, b'o', b'k', 2]),
        Scanned::Frame(Event::Joined("ok".to_string()), 11)
    );
}

#[test]
fn a_cloned_event_equals_the_one_cloned() {
    for event in every_variant() {
        assert_eq!(event.clone(), event);
    }
}

#[test]
fn a_buffer_used_for_reading_and_writing_in_turn_keeps_its_order() {
    let first = Event::Joined("alice".to_string());
    let second = Event::MessageReceived("alice".to_string(), "one".to_string());
    let third = Event::Left("alice".to_string());
    let mut buffer = BytesMut::new();
    let mut codec = EventCodec;
    assert_eq!(codec.encode(first.clone(), &mut buffer), Ok(()));
    assert_eq!(codec.encode(second.clone(), &mut buffer), Ok(()));
    assert_eq!(codec.decode(&mut buffer), Ok(Decoded::Frame(first)));
    assert_eq!(codec.encode(third.clone(), &mut buffer), Ok(()));
    assert_eq!(codec.decode(&mut buffer), Ok(Decoded::Frame(second)));
    assert_eq!(codec.decode(&mut buffer), Ok(Decoded::Frame(third)));
    assert_eq!(codec.decode(&mut buffer), Ok(Decoded::NeedMore(1)));
    assert!(buffer.is_empty());
}

#[test]
fn a_long_text_round_trips() {
    let body = "ab✓".repeat(70_000);
    let event = Event::MessageSend(body.clone());
    let mut buffer = BytesMut::new();
    let mut codec = EventCodec;
    assert_eq!(codec.encode(event.clone(), &mut buffer), Ok(()));
    assert_eq!(buffer.len(), 1 + 8 + body.len());
    assert_eq!(&buffer[1..9], &(body.len() as u64).to_be_bytes());
    let whole = buffer.to_vec();
    let mut partial = BytesMut::from(&whole[..whole.len() - 1]);
    assert_eq!(codec.decode(&mut partial), Ok(Decoded::NeedMore(1)));
    assert_eq!(codec.decode(&mut buffer), Ok(Decoded::Frame(event)));
    assert!(buffer.is_empty());
}

#[test]
fn every_scalar_width_of_utf8_round_trips() {
    let event = Event::MessageReceived("a\u{7f}\u{80}\u{7ff}".to_string(), "\u{800}\u{ffff}\u{10000}\u{10ffff}".to_string());
    let mut buffer = BytesMut::new();
    let mut codec = EventCodec;
    assert_eq!(codec.encode(event.clone(), &mut buffer), Ok(()));
    assert_eq!(codec.decode(&mut buffer), Ok(Decoded::Frame(event)));
}

#[test]
fn overlong_and_surrogate_encodings_are_not_utf8() {
    let mut codec = EventCodec;
    // An overlong encoding of '/'.
    let mut overlong = BytesMut::from(&[4u8, 0, 0, 0, 0, 0, 0, 0, 2, 0xC0, 0xAF][..]);
    assert_eq!(codec.decode(&mut overlong), Err(DecodeError::InvalidUtf8));
    // A surrogate.
    let mut surrogate = BytesMut::from(&[4u8, 0, 0, 0, 0, 0, 0, 0, 3, 0xED, 0xA0, 0x80][..]);
    assert_eq!(codec.decode(&mut surrogate), Err(DecodeError::InvalidUtf8));
    // Beyond the last scalar.
    let mut beyond = BytesMut::from(&[4u8, 0, 0, 0, 0, 0, 0, 0, 4, 0xF4, 0x90, 0x80, 0x80][..]);
    assert_eq!(codec.decode(&mut beyond), Err(DecodeError::InvalidUtf8));
    // A text cut in the middle of a character.
    let mut cut = BytesMut::from(&[4u8, 0, 0, 0, 0, 0, 0, 0, 1, 0xC3][..]);
    assert_eq!(codec.decode(&mut cut), Err(DecodeError::InvalidUtf8));
}
