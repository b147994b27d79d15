use junta::error::{EncodingError, JuntaErrorKind};
use junta::event::{result_from_value, result_to_value, Event, EventType, ResError, ResResult};
use junta::message::MessageContent;
use junta::value::{Entry, Payload};

fn text(s: &str) -> Payload {
    Payload::Text(s.to_string())
}

fn samples() -> Vec<Event> {
    vec![
        Event::new(1, EventType::Req("greeting".to_string(), text("Alice"))),
        Event::new(2, EventType::Pub("news".to_string(), Payload::Integer(-5))),
        Event::new(3, EventType::Sub("news".to_string())),
        Event::new(4, EventType::Unsub("news".to_string())),
        Event::new(
            5,
            EventType::Res(
                "greeting".to_string(),
                ResResult::Success(Payload::Array(vec![Payload::Bool(true), Payload::Null])),
            ),
        ),
        Event::new(
            6,
            EventType::Res(
                "fail".to_string(),
                ResResult::Failure(ResError::new("boom".to_string())),
            ),
        ),
        Event::new(
            usize::MAX,
            EventType::Req(
                "table".to_string(),
                Payload::Object(vec![
                    Entry { key: text("a"), value: Payload::Integer(1) },
                    Entry { key: text("bb"), value: text("two") },
                ]),
            ),
        ),
    ]
}

#[test]
fn event_round_trip_through_the_payload_tree() {
    for event in samples() {
        let back = Event::from_value(event.clone().to_value());
        assert_eq!(back, Some(event));
    }
}

#[test]
fn event_round_trip_through_cbor() {
    for event in samples() {
        let bytes = event.to_binary().expect("encodes");
        let back = Event::try_from(&MessageContent::Binary(bytes)).expect("decodes");
        assert_eq!(back, event);
    }
}

#[test]
fn event_round_trip_through_json() {
    for event in samples() {
        let text = event.to_text().expect("encodes");
        let back = Event::try_from(&MessageContent::Text(text)).expect("decodes");
        assert_eq!(back, event);
    }
}

#[test]
fn request_is_written_as_json() {
    let event = Event::new(1, EventType::Req("greeting".to_string(), text("Alice")));
    assert_eq!(
        event.to_text().unwrap(),
        r#"{"id":1,"type":{"Req":["greeting","Alice"]}}"#
    );
}

#[test]
fn subscription_is_written_as_json() {
    let event = Event::new(7, EventType::Sub("news".to_string()));
    assert_eq!(event.to_text().unwrap(), r#"{"id":7,"type":{"Sub":["news"]}}"#);
    let event = Event::new(8, EventType::Unsub("news".to_string()));
    assert_eq!(event.to_text().unwrap(), r#"{"id":8,"type":{"Unsub":["news"]}}"#);
}

#[test]
fn responses_are_written_as_json() {
    let ok = Event::new(
        1,
        EventType::Res("greeting".to_string(), ResResult::Success(text("Hello, Alice"))),
    );
    assert_eq!(
        ok.to_text().unwrap(),
        r#"{"id":1,"type":{"Res":["greeting",{"Ok":"Hello, Alice"}]}}"#
    );
    let err = Event::new(
        3,
        EventType::Res(
            "fail".to_string(),
            ResResult::Failure(ResError::new("boom".to_string())),
        ),
    );
    assert_eq!(
        err.to_text().unwrap(),
        r#"{"id":3,"type":{"Res":["fail",{"Err":{"code":0,"message":"boom"}}]}}"#
    );
}

#[test]
fn request_is_written_as_cbor() {
    let event = Event::new(1, EventType::Sub("n".to_string()));
    // {"id": 1, "type": {"Sub": ["n"]}}
    let expected: Vec<u8> = vec![
        0xa2, 0x62, b'i', b'd', 0x01, 0x64, b't', b'y', b'p', b'e', 0xa1, 0x63, b'S', b'u', b'b',
        0x81, 0x61, b'n',
    ];
    assert_eq!(event.to_binary().unwrap(), expected);
}

#[test]
fn json_decodes_whatever_the_order_of_the_keys() {
    let back = Event::try_from(&MessageContent::Text(
        r#"{"type":{"Req":["unknown",null]},"id":2}"#.to_string(),
    ))
    .unwrap();
    assert_eq!(back, Event::new(2, EventType::Req("unknown".to_string(), Payload::Null)));
}

#[test]
fn res_error_has_code_zero() {
    let error = ResError::new("boom".to_string());
    assert_eq!(error.code, 0);
    assert_eq!(error.message, "boom");
    assert_eq!(error.to_text(), "boom");
}

#[test]
fn result_round_trip() {
    let ok: ResResult<Payload, ResError> = ResResult::Success(Payload::Integer(9));
    assert_eq!(result_from_value(result_to_value(ok.clone_for_test())), Some(ok));
}

trait CloneForTest {
    fn clone_for_test(&self) -> Self;
}

impl CloneForTest for ResResult<Payload, ResError> {
    fn clone_for_test(&self) -> Self {
        match self {
            ResResult::Success(value) => ResResult::Success(value.clone()),
            ResResult::Failure(error) => ResResult::Failure(error.clone()),
        }
    }
}

#[test]
fn malformed_content_is_an_encoding_error() {
    let error = Event::try_from(&MessageContent::Text("{not json".to_string())).unwrap_err();
    assert!(matches!(error.kind(), JuntaErrorKind::Encoding(EncodingError::Text(_))));
    assert_eq!(error.to_text(), "Encoding(Text)");
    let error = Event::try_from(&MessageContent::Binary(vec![0xff, 0x00, 0x13])).unwrap_err();
    assert!(matches!(error.kind(), JuntaErrorKind::Encoding(EncodingError::Binary(_))));
    assert_eq!(error.to_text(), "Encoding(Binary)");
}

#[test]
fn well_formed_content_that_is_no_event_is_refused() {
    for text in [
        r#"{"id":1}"#,
        r#"{"id":-1,"type":{"Sub":["n"]}}"#,
        r#"{"id":1,"type":{"Sub":"n"}}"#,
        r#"{"id":1,"type":{"Sub":["n","m"]}}"#,
        r#"{"id":1,"type":{"Nope":["n"]}}"#,
        r#"{"id":1,"type":{"Res":["n",{"Err":{"code":70000,"message":"m"}}]}}"#,
        r#"{"id":1,"type":{"Sub":["n"]},"extra":true}"#,
        r#"[1,2,3]"#,
    ] {
        let error = Event::try_from(&MessageContent::Text(text.to_string())).unwrap_err();
        assert_eq!(error.to_text(), "not an event", "{}", text);
    }
}

#[test]
fn floating_point_is_not_supported() {
    let error = Event::try_from(&MessageContent::Text(
        r#"{"id":1,"type":{"Req":["n",1.5]}}"#.to_string(),
    ))
    .unwrap_err();
    assert!(matches!(
        error.kind(),
        JuntaErrorKind::Encoding(EncodingError::Unsupported)
    ));
    assert_eq!(error.to_text(), "Encoding(Unsupported)");
}

#[test]
fn integers_beyond_cbor_are_refused_by_cbor_alone() {
    let event = Event::new(1, EventType::Req("n".to_string(), Payload::Integer(1i128 << 64)));
    let refused = event.to_binary().unwrap_err();
    assert!(matches!(
        refused.kind(),
        JuntaErrorKind::Encoding(EncodingError::Binary(_))
    ));
    assert_eq!(refused.to_text(), "Encoding(Binary)");
    // JSON carries the number.
    assert_eq!(
        event.to_text().unwrap(),
        r#"{"id":1,"type":{"Req":["n",18446744073709551616]}}"#
    );
    let event = Event::new(1, EventType::Req("n".to_string(), Payload::Integer(-(1i128 << 64))));
    assert!(event.to_binary().is_ok());
    let event = Event::new(
        1,
        EventType::Req("n".to_string(), Payload::Integer((1i128 << 64) - 1)),
    );
    assert!(event.to_binary().is_ok());
    assert!(!Payload::Array(vec![Payload::Integer(-(1i128 << 64) - 1)]).in_range());
}

#[test]
fn tables_are_keyed_as_the_codecs_keep_them() {
    let entry = |key: &str, value: i128| Entry { key: text(key), value: Payload::Integer(value) };
    // Shorter keys first, then in the order of their bytes.
    let kept = Payload::Object(vec![entry("b", 1), entry("aa", 2), entry("ab", 3)]);
    assert!(kept.well_keyed());
    assert_eq!(kept.to_text().unwrap(), r#"{"b":1,"aa":2,"ab":3}"#);
    assert_eq!(
        Payload::decode(&MessageContent::Binary(kept.to_binary().unwrap())).unwrap(),
        kept
    );
    assert_eq!(
        Payload::decode(&MessageContent::Text(r#"{"ab":3,"aa":2,"b":1}"#.to_string())).unwrap(),
        kept
    );
    for table in [
        Payload::Object(vec![entry("aa", 2), entry("b", 1)]),
        Payload::Object(vec![entry("a", 1), entry("a", 2)]),
        Payload::Array(vec![Payload::Object(vec![entry("b", 1), entry("a", 2)])]),
        Payload::Object(vec![Entry {
            key: Payload::Array(vec![Payload::Integer(1i128 << 64)]),
            value: Payload::Null,
        }]),
        Payload::Object(vec![
            Entry { key: Payload::Integer(i128::MIN), value: Payload::Null },
            Entry { key: Payload::Integer(-1), value: Payload::Null },
        ]),
    ] {
        assert!(!table.well_keyed());
        for binary in [true, false] {
            let refused = table.encode(binary).unwrap_err();
            assert!(matches!(
                refused.kind(),
                JuntaErrorKind::Encoding(EncodingError::Unsupported)
            ));
        }
    }
}

#[test]
fn table_with_a_key_that_is_no_text_does_not_encode_as_json() {
    let payload = Payload::Object(vec![Entry {
        key: Payload::Array(vec![]),
        value: Payload::Null,
    }]);
    let error = payload.to_text().unwrap_err();
    assert!(matches!(error.kind(), JuntaErrorKind::Encoding(EncodingError::Text(_))));
    assert!(payload.to_binary().is_ok());
}

#[test]
fn payload_encode_follows_the_frame() {
    let payload = text("hi");
    assert_eq!(
        payload.encode(false).unwrap(),
        MessageContent::Text("\"hi\"".to_string())
    );
    assert_eq!(
        payload.encode(true).unwrap(),
        MessageContent::Binary(vec![0x62, b'h', b'i'])
    );
    assert_eq!(
        Payload::decode(&MessageContent::Binary(vec![0x62, b'h', b'i'])).unwrap(),
        text("hi")
    );
    assert_eq!(
        Payload::decode(&MessageContent::Text("[1,\"a\"]".to_string())).unwrap(),
        Payload::Array(vec![Payload::Integer(1), text("a")])
    );
}

#[test]
fn bytes_come_back_from_json_as_an_array_of_numbers() {
    let bytes = Payload::Bytes(vec![1, 2]);
    assert_eq!(bytes.to_text().unwrap(), "[1,2]");
    assert_eq!(
        Payload::decode(&MessageContent::Text("[1,2]".to_string())).unwrap(),
        Payload::Array(vec![Payload::Integer(1), Payload::Integer(2)])
    );
    assert_eq!(
        Payload::decode(&MessageContent::Binary(bytes.to_binary().unwrap())).unwrap(),
        bytes
    );
}
