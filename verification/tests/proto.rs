use actual_mcp::actual::client::sync_request;
use actual_mcp::actual::proto::{Message, MessageEnvelope, SyncRequest, SyncResponse};

fn message() -> Message {
    Message {
        dataset: "transactions".to_string(),
        row: "r".to_string(),
        column: "notes".to_string(),
        value: "S:caf\u{e9}".to_string(),
    }
}

#[test]
fn messages_encode_field_by_field() {
    let m = Message {
        dataset: "ab".to_string(),
        row: String::new(),
        column: "c".to_string(),
        value: String::new(),
    };
    assert_eq!(m.encode_to_vec(), [0x0a, 2, b'a', b'b', 0x1a, 1, b'c']);
    let e = MessageEnvelope { timestamp: String::new(), is_encrypted: true, content: vec![9] };
    assert_eq!(e.encode_to_vec(), [0x10, 1, 0x1a, 1, 9]);
}

#[test]
fn what_was_encoded_decodes_to_itself() {
    assert_eq!(Message::decode(&message().encode_to_vec()).unwrap(), message());
    let envelope = |encrypted: bool, content: Vec<u8>| MessageEnvelope {
        timestamp: "t".repeat(300),
        is_encrypted: encrypted,
        content,
    };
    let response = SyncResponse {
        messages: vec![
            envelope(true, message().encode_to_vec()),
            envelope(false, Vec::new()),
            MessageEnvelope { timestamp: String::new(), is_encrypted: false, content: Vec::new() },
        ],
        merkle: "{}".to_string(),
    };
    assert_eq!(SyncResponse::decode(&response.encode_to_vec()).unwrap(), response);
}

#[test]
fn a_later_field_wins() {
    let mut bytes = message().encode_to_vec();
    bytes.extend_from_slice(&[0x12, 1, b'q']);
    assert_eq!(Message::decode(&bytes).unwrap().row, "q");
}

#[test]
fn unknown_fields_are_passed_over() {
    let unknown: [&[u8]; 5] = [
        &[0x40, 0xff, 0x01],                   // a number
        &[0x41, 1, 2, 3, 4, 5, 6, 7, 8],       // eight bytes
        &[0x42, 2, 0xff, 0xff],                // some bytes
        &[0x43, 0x08, 1, 0x4b, 0x4c, 0x44],    // a group with a group in it
        &[0x45, 1, 2, 3, 4],                   // four bytes
    ];
    for field in unknown {
        let mut bytes = field.to_vec();
        bytes.extend_from_slice(&message().encode_to_vec());
        assert_eq!(Message::decode(&bytes).unwrap(), message(), "{field:?}");
    }
}

#[test]
fn malformed_bytes_are_refused() {
    let malformed: [&[u8]; 9] = [
        &[0x0a],                                                    // no length
        &[0x0a, 5, b'a'],                                           // too short
        &[0x08, 1],                                                 // wrong wire type
        &[0x00],                                                    // tag zero
        &[0x0e, 0],                                                 // no such wire type
        &[0x0a, 1, 0xff],                                           // not UTF-8
        &[0x44],                                                    // an end without a group
        &[0x43, 0x54],                                              // the end of another group
        &[0xff, 0xff, 0xff, 0xff, 0xff, 0xff, 0xff, 0xff, 0xff, 2], // too large
    ];
    for bytes in malformed {
        assert!(Message::decode(bytes).is_err(), "{bytes:?}");
    }
}

#[test]
fn the_error_names_the_field() {
    let err = Message::decode(&[0x1a, 1, 0xff]).unwrap_err();
    assert!(err.to_string().contains("Message.column"), "got {err}");
    let nested = [0x0a, 3, 0x0a, 1, 0xff];
    let err = SyncResponse::decode(&nested).unwrap_err();
    assert!(err.to_string().contains("MessageEnvelope.timestamp"), "got {err}");
    assert!(err.to_string().contains("SyncResponse.messages"), "got {err}");
}

#[test]
fn a_field_may_not_leave_its_message() {
    // The envelope is two bytes long, but its timestamp claims three.
    let bytes = [0x0a, 2, 0x0a, 3, b'a', b'b', b'c'];
    let message = |bytes: &[u8]| SyncResponse::decode(bytes).unwrap_err().to_string();
    assert_eq!(
        message(&bytes),
        "failed to decode Protobuf message: SyncResponse.messages: delimited length exceeded"
    );
    // So does one that the message does not know, and one whose key is too long.
    assert!(message(&[0x0a, 2, 0x42, 1, 7]).ends_with("messages: delimited length exceeded"));
    assert!(message(&[0x0a, 1, 0x90, 0x00, 1]).ends_with("messages: delimited length exceeded"));
    // What is wrong with the field itself comes first.
    assert_eq!(
        message(&[0x0a, 2, 0x0a, 1, 0xff]),
        "failed to decode Protobuf message: MessageEnvelope.timestamp: SyncResponse.messages: \
         invalid string value: data is not UTF-8 encoded"
    );
    // Where the response ends too, there is nothing to read on.
    assert!(message(&[0x0a, 2, 0x0a, 3, b'a']).ends_with("buffer underflow"));
    assert!(message(&[0x0a, 3, 0x0a, 3]).ends_with("SyncResponse.messages: buffer underflow"));
}

#[test]
fn an_envelope_ends_where_its_length_says() {
    let bytes = [0x0a, 3, 0x0a, 1, b'a', 0x0a, 0, 0x12, 1, b'm'];
    let response = SyncResponse::decode(&bytes).unwrap();
    assert_eq!(response.messages.len(), 2);
    assert_eq!(response.messages[0].timestamp, "a");
    assert_eq!(response.messages[1].timestamp, "");
    assert_eq!(response.merkle, "m");
}

#[test]
fn a_sync_request_pushes_nothing() {
    let bytes = sync_request("file", "group", "clock");
    let request = SyncRequest {
        messages: Vec::new(),
        file_id: "file".to_string(),
        group_id: "group".to_string(),
        key_id: String::new(),
        since: "clock".to_string(),
    };
    assert_eq!(bytes, request.encode_to_vec());
    let mut wanted = vec![0x12, 4];
    wanted.extend_from_slice(b"file");
    wanted.extend_from_slice(&[0x1a, 5]);
    wanted.extend_from_slice(b"group");
    wanted.extend_from_slice(&[0x32, 5]);
    wanted.extend_from_slice(b"clock");
    assert_eq!(bytes, wanted);
}

#[test]
fn a_request_can_carry_every_field() {
    let request = SyncRequest {
        messages: vec![MessageEnvelope {
            timestamp: "t".to_string(),
            is_encrypted: false,
            content: Vec::new(),
        }],
        file_id: String::new(),
        group_id: String::new(),
        key_id: "k".to_string(),
        since: String::new(),
    };
    assert_eq!(request.encode_to_vec(), [0x0a, 3, 0x0a, 1, b't', 0x2a, 1, b'k']);
}

#[test]
fn errors_name_the_message_and_the_field() {
    let e = Message::decode(&[0x0a, 5]).unwrap_err().to_string();
    assert!(e.contains("Message.dataset: "), "{e}");
    let e = MessageEnvelope::decode(&[0x10, 0x80]).unwrap_err().to_string();
    assert!(e.contains("MessageEnvelope.is_encrypted: "), "{e}");
    let e = SyncResponse::decode(&[0x0a, 2, 0x0a, 5]).unwrap_err().to_string();
    assert!(e.contains("MessageEnvelope.timestamp: "), "{e}");
    assert!(e.contains("SyncResponse.messages: "), "{e}");
    let e = SyncResponse::decode(&[0x12, 9]).unwrap_err().to_string();
    assert!(e.contains("SyncResponse.merkle: "), "{e}");
}

/// Groups may nest only so deep, and the message around an envelope counts.
#[test]
fn groups_nest_less_deep_inside_a_message() {
    let groups = |depth: usize| {
        let mut bytes = vec![0x43u8; depth];
        bytes.extend(vec![0x44u8; depth]);
        bytes
    };
    let response = |depth: usize| {
        let inner = groups(depth);
        let mut bytes = vec![0x0a, (inner.len() % 128 + 128) as u8, (inner.len() / 128) as u8];
        bytes.extend(inner);
        bytes
    };
    assert!(MessageEnvelope::decode(&groups(100)).is_ok());
    assert!(MessageEnvelope::decode(&groups(101)).is_err());
    assert!(SyncResponse::decode(&response(99)).is_ok());
    assert!(SyncResponse::decode(&response(100)).is_err());
}
