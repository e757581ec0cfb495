//! Wire-level tests of the gateway codec: canonical encodings, tolerant
//! decoding, the exact error classes, and round trips.

use rustycord::codec::decode;
use rustycord::codec::encode;
use rustycord::error::ClassifiedError;
use rustycord::models::gateway::GatewayMessage;
use rustycord::models::gateway::GatewayOpcode;
use rustycord::models::gateway::HelloPayload;
use rustycord::models::gateway::Payload;

fn hello_frame(interval: u64) -> GatewayMessage {
    GatewayMessage {
        op: GatewayOpcode::Hello,
        d: Some(Payload::Hello(HelloPayload { heartbeat_interval: interval })),
        s: None,
        t: None,
    }
}

#[test]
fn encode_hello_is_canonical() {
    let text = encode(&hello_frame(41250)).unwrap();
    assert_eq!(text, "{\"op\":9,\"d\":{\"heartbeat_interval\":41250}}");
}

#[test]
fn encode_omits_absent_fields() {
    let m = GatewayMessage { op: GatewayOpcode::HeartbeatAck, d: None, s: None, t: None };
    assert_eq!(encode(&m).unwrap(), "{\"op\":10}");
    let hb = GatewayMessage {
        op: GatewayOpcode::Heartbeat,
        d: Some(Payload::Number(251)),
        s: None,
        t: None,
    };
    assert_eq!(encode(&hb).unwrap(), "{\"op\":1,\"d\":251}");
}

#[test]
fn hello_interval_round_trips_exactly() {
    let text = encode(&hello_frame(41250)).unwrap();
    let back = decode(&text).unwrap();
    assert!(matches!(back.op, GatewayOpcode::Hello));
    match back.d {
        Some(Payload::Hello(h)) => assert_eq!(h.heartbeat_interval, 41250),
        other => panic!("expected hello payload, got {:?}", other),
    }
}

#[test]
fn dispatch_round_trips_all_fields() {
    let m = GatewayMessage {
        op: GatewayOpcode::Dispatch,
        d: Some(Payload::Object(String::from("{\"content\":\"hi there\",\"n\":7}"))),
        s: Some(42),
        t: Some(String::from("MESSAGE_CREATE")),
    };
    let text = encode(&m).unwrap();
    assert_eq!(
        text,
        "{\"op\":0,\"s\":42,\"t\":\"MESSAGE_CREATE\",\"d\":{\"content\":\"hi there\",\"n\":7}}"
    );
    let back = decode(&text).unwrap();
    assert!(matches!(back.op, GatewayOpcode::Dispatch));
    assert_eq!(back.s, Some(42));
    assert_eq!(back.t.as_deref(), Some("MESSAGE_CREATE"));
    match back.d {
        Some(Payload::Object(o)) => assert_eq!(o, "{\"content\":\"hi there\",\"n\":7}"),
        other => panic!("expected object payload, got {:?}", other),
    }
}

#[test]
fn opaque_payload_with_escapes_and_nesting_round_trips() {
    let blob = "{\"a\":[1,2,{\"b\":\"x\\\"y\\\\z\"}],\"c\":null}";
    let m = GatewayMessage {
        op: GatewayOpcode::Dispatch,
        d: Some(Payload::Object(String::from(blob))),
        s: Some(7),
        t: Some(String::from("GUILD_CREATE")),
    };
    let text = encode(&m).unwrap();
    let back = decode(&text).unwrap();
    match back.d {
        Some(Payload::Object(o)) => assert_eq!(o, blob),
        other => panic!("expected object payload, got {:?}", other),
    }
}

#[test]
fn invalid_session_flag_round_trips() {
    let m = GatewayMessage {
        op: GatewayOpcode::InvalidSession,
        d: Some(Payload::Flag(true)),
        s: None,
        t: None,
    };
    let text = encode(&m).unwrap();
    assert_eq!(text, "{\"op\":8,\"d\":true}");
    let back = decode(&text).unwrap();
    assert!(matches!(back.d, Some(Payload::Flag(true))));
    let m2 = GatewayMessage {
        op: GatewayOpcode::InvalidSession,
        d: Some(Payload::Flag(false)),
        s: None,
        t: None,
    };
    let back2 = decode(&encode(&m2).unwrap()).unwrap();
    assert!(matches!(back2.d, Some(Payload::Flag(false))));
}

#[test]
fn decode_accepts_any_field_order_and_nulls() {
    let wire = "{\"t\":null,\"s\":null,\"op\":10,\"d\":null}";
    let m = decode(wire).unwrap();
    assert!(matches!(m.op, GatewayOpcode::HeartbeatAck));
    assert_eq!(m.s, None);
    assert_eq!(m.t, None);
    assert!(m.d.is_none());
}

#[test]
fn decode_skips_unknown_keys() {
    let wire = "{\"op\":9,\"extra\":[true,\"x\"],\"d\":{\"heartbeat_interval\":100,\"_trace\":[\"gw\"]}}";
    let m = decode(wire).unwrap();
    match m.d {
        Some(Payload::Hello(h)) => assert_eq!(h.heartbeat_interval, 100),
        other => panic!("expected hello payload, got {:?}", other),
    }
}

#[test]
fn unknown_opcode_is_reported_with_its_code() {
    let wire = "{\"op\":11}";
    match decode(wire) {
        Err(ClassifiedError::UnknownOpcode { op }) => assert_eq!(op, 11),
        other => panic!("expected unknown opcode, got {:?}", other),
    }
}

#[test]
fn dispatch_without_sequence_is_malformed() {
    let wire = "{\"op\":0,\"t\":\"READY\",\"d\":{}}";
    assert!(matches!(decode(wire), Err(ClassifiedError::MalformedFrame)));
}

#[test]
fn dispatch_without_event_name_is_malformed() {
    let wire = "{\"op\":0,\"s\":1,\"d\":{}}";
    assert!(matches!(decode(wire), Err(ClassifiedError::MalformedFrame)));
}

#[test]
fn hello_without_interval_is_a_schema_mismatch() {
    let wire = "{\"op\":9,\"d\":{\"trace\":\"gw\"}}";
    assert!(matches!(decode(wire), Err(ClassifiedError::DeserializeFailure)));
}

#[test]
fn broken_texts_are_malformed() {
    for wire in [
        "",
        "x",
        "{}",
        "{\"op\":}",
        "{\"op\":1",
        "{\"op\":1}}",
        "[1,2]",
        "{\"op\":1,}",
        "{\"op\":-1}",
        "{\"op\":1.5}",
        "{\"op\":99999999999999999999999}",
    ] {
        assert!(
            matches!(decode(wire), Err(ClassifiedError::MalformedFrame)),
            "expected malformed for {:?}",
            wire
        );
    }
}

#[test]
fn heartbeat_frame_without_sequence_has_no_payload() {
    let wire = "{\"op\":1}";
    let m = decode(wire).unwrap();
    assert!(matches!(m.op, GatewayOpcode::Heartbeat));
    assert!(m.d.is_none());
}

#[test]
fn encode_refuses_ill_formed_frames() {
    // a dispatch frame needs its sequence and event name
    let m = GatewayMessage { op: GatewayOpcode::Dispatch, d: None, s: None, t: None };
    assert!(encode(&m).is_none());
    // an object payload must be a self-contained blob
    let m2 = GatewayMessage {
        op: GatewayOpcode::Identify,
        d: Some(Payload::Object(String::from("{\"unbalanced\":"))),
        s: None,
        t: None,
    };
    assert!(encode(&m2).is_none());
    // an empty event name cannot be carried
    let m3 = GatewayMessage {
        op: GatewayOpcode::Dispatch,
        d: None,
        s: Some(1),
        t: Some(String::new()),
    };
    assert!(encode(&m3).is_none());
}

#[test]
fn sequence_extremes_round_trip() {
    let m = GatewayMessage {
        op: GatewayOpcode::Dispatch,
        d: None,
        s: Some(u64::MAX),
        t: Some(String::from("TYPING_START")),
    };
    let back = decode(&encode(&m).unwrap()).unwrap();
    assert_eq!(back.s, Some(u64::MAX));
    let m0 = GatewayMessage {
        op: GatewayOpcode::Dispatch,
        d: None,
        s: Some(0),
        t: Some(String::from("TYPING_START")),
    };
    let back0 = decode(&encode(&m0).unwrap()).unwrap();
    assert_eq!(back0.s, Some(0));
}

#[test]
fn duplicate_keys_keep_the_first_occurrence() {
    let wire = "{\"op\":1,\"op\":6}";
    let m = decode(wire).unwrap();
    assert!(matches!(m.op, GatewayOpcode::Heartbeat));
}

#[test]
fn leading_zeros_read_as_their_value() {
    let wire = "{\"op\":0,\"s\":007,\"t\":\"TYPING_START\"}";
    let m = decode(wire).unwrap();
    assert_eq!(m.s, Some(7));
}
