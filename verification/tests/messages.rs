use bulletforcehax::error::ReadError;
use bulletforcehax::message::{EventData, OperationRequest, OperationResponse, ParameterMap, PhotonMessage};
use bulletforcehax::ordered_map::OrderedMap;
use bulletforcehax::value::PhotonDataType;

fn hex(s: &str) -> Vec<u8> {
    (0..s.len()).step_by(2).map(|i| u8::from_str_radix(&s[i..i + 2], 16).unwrap()).collect()
}

fn params(entries: &[(u8, i32)]) -> ParameterMap {
    let mut map = OrderedMap::new();
    for (k, v) in entries {
        map.insert(*k, PhotonDataType::Integer(*v));
    }
    map
}

/// The parameters hold exactly the given integers, in the given order.
fn has_int_params(map: &ParameterMap, entries: &[(u8, i32)]) -> bool {
    map.len() == entries.len()
        && entries.iter().enumerate().all(|(i, (k, v))| {
            let (k2, v2) = map.entry_at(i);
            *k2 == *k && v2.same_value(&PhotonDataType::Integer(*v))
        })
}

fn read(bytes: &[u8]) -> Result<PhotonMessage, ReadError> {
    let mut cursor = bytes;
    PhotonMessage::from_websocket_bytes(&mut cursor)
}

fn encode(m: &PhotonMessage) -> Vec<u8> {
    let mut buf = vec![];
    m.to_websocket_bytes(&mut buf).unwrap();
    buf
}

#[test]
fn deserialize_init_response() {
    let m = read(&hex("f30100")).unwrap();
    assert!(matches!(m, PhotonMessage::InitResponse));
}

#[test]
fn serialize_init_response() {
    assert_eq!(encode(&PhotonMessage::InitResponse), hex("f30100"));
}

#[test]
fn deserialize_operation_request() {
    match read(&hex("f302e50000")).unwrap() {
        PhotonMessage::OperationRequest(r) => {
            assert_eq!(r.operation_code, 0xe5);
            assert!(has_int_params(&r.parameters, &[]));
        },
        _ => panic!("wrong message type"),
    }
}

#[test]
fn serialize_operation_request() {
    let m = PhotonMessage::OperationRequest(OperationRequest { operation_code: 0xe5, parameters: params(&[]) });
    assert_eq!(encode(&m), hex("f302e50000"));
}

#[test]
fn deserialize_operation_response() {
    match read(&hex("f303e500002a0000")).unwrap() {
        PhotonMessage::OperationResponse(r) => {
            assert_eq!(r.operation_code, 0xe5);
            assert_eq!(r.return_code, 0);
            assert_eq!(r.debug_message, None);
            assert!(has_int_params(&r.parameters, &[]));
        },
        _ => panic!("wrong message type"),
    }
}

#[test]
fn serialize_operation_response() {
    let m = PhotonMessage::OperationResponse(OperationResponse {
        operation_code: 0xe5,
        return_code: 0,
        debug_message: None,
        parameters: params(&[]),
    });
    assert_eq!(encode(&m), hex("f303e500002a0000"));
}

#[test]
fn deserialize_event_data() {
    match read(&hex("f304e20003e36900000011e5690000006ee46900000016")).unwrap() {
        PhotonMessage::EventData(e) => {
            assert_eq!(e.code, 0xe2);
            assert!(has_int_params(&e.parameters, &[(0xe3, 0x11), (0xe5, 0x6e), (0xe4, 0x16)]));
        },
        _ => panic!("wrong message type"),
    }
}

#[test]
fn serialize_event_data() {
    let m = PhotonMessage::EventData(EventData { code: 0xe2, parameters: params(&[(0xe3, 0x11), (0xe5, 0x6e), (0xe4, 0x16)]) });
    assert_eq!(encode(&m), hex("f304e20003e36900000011e5690000006ee46900000016"));
}

#[test]
fn deserialize_internal_operation_request() {
    match read(&hex("f3060100010169000330de")).unwrap() {
        PhotonMessage::InternalOperationRequest(r) => {
            assert_eq!(r.operation_code, 1);
            assert!(has_int_params(&r.parameters, &[(1, 0x330de)]));
        },
        _ => panic!("wrong message type"),
    }
}

#[test]
fn serialize_internal_operation_request() {
    let m = PhotonMessage::InternalOperationRequest(OperationRequest { operation_code: 1, parameters: params(&[(1, 0x330de)]) });
    assert_eq!(encode(&m), hex("f3060100010169000330de"));
}

#[test]
fn deserialize_internal_operation_response() {
    match read(&hex("f3070100002a0002016900002efd026938c2510f")).unwrap() {
        PhotonMessage::InternalOperationResponse(r) => {
            assert_eq!(r.operation_code, 1);
            assert_eq!(r.return_code, 0);
            assert_eq!(r.debug_message, None);
            assert!(has_int_params(&r.parameters, &[(1, 0x2efd), (2, 0x38c2510f)]));
        },
        _ => panic!("wrong message type"),
    }
}

#[test]
fn serialize_internal_operation_response() {
    let m = PhotonMessage::InternalOperationResponse(OperationResponse {
        operation_code: 1,
        return_code: 0,
        debug_message: None,
        parameters: params(&[(1, 0x2efd), (2, 0x38c2510f)]),
    });
    assert_eq!(encode(&m), hex("f3070100002a0002016900002efd026938c2510f"));
}

#[test]
fn message_round_trip_with_debug_message() {
    let m = PhotonMessage::OperationResponse(OperationResponse {
        operation_code: 7,
        return_code: -3,
        debug_message: Some("oops".to_string()),
        parameters: params(&[(9, -1)]),
    });
    let bytes = encode(&m);
    assert_eq!(bytes, hex("f30307fffd7300046f6f707300010969ffffffff"));
    match read(&bytes).unwrap() {
        PhotonMessage::OperationResponse(r) => {
            assert_eq!(r.operation_code, 7);
            assert_eq!(r.return_code, -3);
            assert_eq!(r.debug_message, Some("oops".to_string()));
            assert!(has_int_params(&r.parameters, &[(9, -1)]));
        },
        _ => panic!("wrong message type"),
    }
}

#[test]
fn read_errors() {
    assert_eq!(read(&[]).unwrap_err(), ReadError::NotEnoughBytesLeft);
    assert_eq!(read(&hex("aa01")).unwrap_err(), ReadError::InvalidMagicNumber(0xaa));
    assert_eq!(read(&hex("f30a00")).unwrap_err(), ReadError::UnknownMessageType(0x0a));
    assert_eq!(read(&hex("f38200")).unwrap_err(), ReadError::Unimplemented("encryption"));
    assert_eq!(read(&hex("f302e5")).unwrap_err(), ReadError::NotEnoughBytesLeft);
    assert_eq!(read(&hex("f302e50001e3ff")).unwrap_err(), ReadError::UnknownDataType(0xff));
}

#[test]
fn negative_parameter_count_is_detected() {
    assert!(PhotonMessage::parse_would_panic(&hex("f302e5ffff")));
    assert!(!PhotonMessage::parse_would_panic(&hex("f302e50000")));
    assert!(!PhotonMessage::parse_would_panic(&hex("f302e5")));
}

#[test]
fn init_cannot_be_written() {
    let mut buf = vec![];
    assert!(PhotonMessage::Init.to_websocket_bytes(&mut buf).is_err());
}

#[test]
fn raw_message_round_trip() {
    let m = PhotonMessage::RawMessage(vec![1, 2, 3]);
    let bytes = encode(&m);
    assert_eq!(bytes, hex("f309010203"));
    match read(&bytes).unwrap() {
        PhotonMessage::RawMessage(v) => assert_eq!(v, vec![1, 2, 3]),
        _ => panic!("wrong message type"),
    }
}

#[test]
fn ping_result_round_trip() {
    let bytes = hex("f0000000010000000a");
    let m = read(&bytes).unwrap();
    assert!(matches!(m, PhotonMessage::PingResult(_)));
    assert_eq!(encode(&m), bytes);
}

#[test]
fn strings_must_be_utf8() {
    // an operation response whose debug message holds the bytes ff fe
    let bytes = hex("f303010000730002fffe0000");
    assert_eq!(read(&bytes).unwrap_err(), ReadError::UnexpectedData("string is not valid UTF-8"));
    let ok = hex("f30301000073000268690000");
    match read(&ok).unwrap() {
        PhotonMessage::OperationResponse(r) => assert_eq!(r.debug_message, Some("hi".to_string())),
        _ => panic!("wrong message type"),
    }
}

#[test]
fn value_message_round_trip() {
    let mut table = bulletforcehax::value::PhotonHashmap::new();
    table.insert(PhotonDataType::String("k".to_string()), PhotonDataType::Array(vec![PhotonDataType::Short(-2), PhotonDataType::Short(3)]));
    table.insert(PhotonDataType::Byte(1), PhotonDataType::Double(1.5f64.to_bits()));
    let m = PhotonMessage::Message(PhotonDataType::Hashtable(table));
    let bytes = encode(&m);
    match read(&bytes).unwrap() {
        PhotonMessage::Message(v) => match (&m, v) {
            (PhotonMessage::Message(orig), v) => assert!(orig.same_value(&v)),
            _ => unreachable!(),
        },
        _ => panic!("wrong message type"),
    }
}

#[test]
fn reading_moves_the_cursor() {
    // a message followed by two more bytes: the cursor stops after the message
    let bytes = hex("f304e20003e36900000011e5690000006ee46900000016abcd");
    let mut cursor: &[u8] = &bytes;
    assert!(matches!(PhotonMessage::from_websocket_bytes(&mut cursor).unwrap(), PhotonMessage::EventData(_)));
    assert_eq!(cursor, &[0xab, 0xcd]);

    let bytes = hex("f30100ff");
    let mut cursor: &[u8] = &bytes;
    assert!(matches!(PhotonMessage::from_websocket_bytes(&mut cursor).unwrap(), PhotonMessage::InitResponse));
    assert_eq!(cursor, &[0xff]);

    let bytes = hex("f0000000010000000a77");
    let mut cursor: &[u8] = &bytes;
    assert!(matches!(PhotonMessage::from_websocket_bytes(&mut cursor).unwrap(), PhotonMessage::PingResult(_)));
    assert_eq!(cursor, &[0x77]);

    let bytes = hex("f30303fffd7300026869000109690000000255");
    let mut cursor: &[u8] = &bytes;
    assert!(matches!(PhotonMessage::from_websocket_bytes(&mut cursor).unwrap(), PhotonMessage::OperationResponse(_)));
    assert_eq!(cursor, &[0x55]);

    let bytes = hex("f309010203");
    let mut cursor: &[u8] = &bytes;
    assert!(matches!(PhotonMessage::from_websocket_bytes(&mut cursor).unwrap(), PhotonMessage::RawMessage(_)));
    assert!(cursor.is_empty());
}

#[test]
fn failed_reads_and_the_cursor() {
    let empty: [u8; 0] = [];
    let mut cursor: &[u8] = &empty;
    assert_eq!(PhotonMessage::from_websocket_bytes(&mut cursor).unwrap_err(), ReadError::NotEnoughBytesLeft);
    assert!(cursor.is_empty());

    let bytes = hex("aa0102");
    let mut cursor: &[u8] = &bytes;
    assert_eq!(PhotonMessage::from_websocket_bytes(&mut cursor).unwrap_err(), ReadError::InvalidMagicNumber(0xaa));
    assert_eq!(cursor, &[0x01, 0x02]);
}
