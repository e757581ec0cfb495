//! Tests of the plain model types: opcodes, event names and identifiers.

use rustycord::models::common::Snowflake;
use rustycord::models::gateway::GatewayEvent;
use rustycord::models::gateway::GatewayOpcode;

#[test]
fn opcodes_carry_their_stable_codes() {
    let all = [
        GatewayOpcode::Dispatch,
        GatewayOpcode::Heartbeat,
        GatewayOpcode::Identify,
        GatewayOpcode::PresenceUpdate,
        GatewayOpcode::VoiceStateUpdate,
        GatewayOpcode::Resume,
        GatewayOpcode::Reconnect,
        GatewayOpcode::RequestGuildMembers,
        GatewayOpcode::InvalidSession,
        GatewayOpcode::Hello,
        GatewayOpcode::HeartbeatAck,
    ];
    for (i, op) in all.iter().enumerate() {
        assert_eq!(op.code(), i as u64);
        assert_eq!(GatewayOpcode::from_code(i as u64), Some(*op));
    }
    assert_eq!(GatewayOpcode::from_code(11), None);
    assert_eq!(GatewayOpcode::from_code(u64::MAX), None);
}

#[test]
fn event_names_round_trip() {
    for e in [
        GatewayEvent::HELLO,
        GatewayEvent::READY,
        GatewayEvent::RESUMED,
        GatewayEvent::INVALID_SESSION,
        GatewayEvent::MESSAGE_CREATE,
        GatewayEvent::WEBHOOKS_UPDATE,
    ] {
        assert_eq!(GatewayEvent::from_name(e.name()), Some(e));
    }
    assert_eq!(GatewayEvent::from_name("MESSAGE_CREATE"), Some(GatewayEvent::MESSAGE_CREATE));
    assert_eq!(GatewayEvent::from_name("NO_SUCH_EVENT"), None);
    assert_eq!(GatewayEvent::from_name(""), None);
}

#[test]
fn snowflakes_hold_their_value() {
    let id = Snowflake::new(80351110224678912);
    assert_eq!(id.value, 80351110224678912);
    assert_eq!(id, Snowflake { value: 80351110224678912 });
}
