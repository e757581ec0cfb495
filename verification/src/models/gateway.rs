//! Gateway frame shapes: operation codes, payloads and the envelope record,
//! together with the discovery records returned by the gateway endpoints.

use vstd::prelude::*;

verus! {

/// The closed set of gateway operation codes, with stable integer codes
/// zero through ten in declaration order.
#[derive(Clone, Copy, Debug, PartialEq, Eq, Structural)]
pub enum GatewayOpcode {
    Dispatch,
    Heartbeat,
    Identify,
    PresenceUpdate,
    VoiceStateUpdate,
    Resume,
    Reconnect,
    RequestGuildMembers,
    InvalidSession,
    Hello,
    HeartbeatAck,
}

/// The integer code of an operation.
pub open spec fn opcode_value(op: GatewayOpcode) -> u64 {
    match op {
        GatewayOpcode::Dispatch => 0,
        GatewayOpcode::Heartbeat => 1,
        GatewayOpcode::Identify => 2,
        GatewayOpcode::PresenceUpdate => 3,
        GatewayOpcode::VoiceStateUpdate => 4,
        GatewayOpcode::Resume => 5,
        GatewayOpcode::Reconnect => 6,
        GatewayOpcode::RequestGuildMembers => 7,
        GatewayOpcode::InvalidSession => 8,
        GatewayOpcode::Hello => 9,
        GatewayOpcode::HeartbeatAck => 10,
    }
}

/// The operation with integer code `n`, defined for `n <= 10`.
pub open spec fn spec_opcode_of(n: u64) -> GatewayOpcode {
    if n == 0 {
        GatewayOpcode::Dispatch
    } else if n == 1 {
        GatewayOpcode::Heartbeat
    } else if n == 2 {
        GatewayOpcode::Identify
    } else if n == 3 {
        GatewayOpcode::PresenceUpdate
    } else if n == 4 {
        GatewayOpcode::VoiceStateUpdate
    } else if n == 5 {
        GatewayOpcode::Resume
    } else if n == 6 {
        GatewayOpcode::Reconnect
    } else if n == 7 {
        GatewayOpcode::RequestGuildMembers
    } else if n == 8 {
        GatewayOpcode::InvalidSession
    } else if n == 9 {
        GatewayOpcode::Hello
    } else {
        GatewayOpcode::HeartbeatAck
    }
}

impl GatewayOpcode {
    /// The stable integer code of this operation.
    pub fn code(&self) -> (r: u64)
        ensures
            r == opcode_value(*self),
    {
        match self {
            GatewayOpcode::Dispatch => 0,
            GatewayOpcode::Heartbeat => 1,
            GatewayOpcode::Identify => 2,
            GatewayOpcode::PresenceUpdate => 3,
            GatewayOpcode::VoiceStateUpdate => 4,
            GatewayOpcode::Resume => 5,
            GatewayOpcode::Reconnect => 6,
            GatewayOpcode::RequestGuildMembers => 7,
            GatewayOpcode::InvalidSession => 8,
            GatewayOpcode::Hello => 9,
            GatewayOpcode::HeartbeatAck => 10,
        }
    }

    /// The operation with integer code `n`; codes above ten are unknown.
    pub fn from_code(n: u64) -> (r: Option<GatewayOpcode>)
        ensures
            n <= 10 ==> r == Some(spec_opcode_of(n)),
            n > 10 ==> r is None,
    {
        if n == 0 {
            Some(GatewayOpcode::Dispatch)
        } else if n == 1 {
            Some(GatewayOpcode::Heartbeat)
        } else if n == 2 {
            Some(GatewayOpcode::Identify)
        } else if n == 3 {
            Some(GatewayOpcode::PresenceUpdate)
        } else if n == 4 {
            Some(GatewayOpcode::VoiceStateUpdate)
        } else if n == 5 {
            Some(GatewayOpcode::Resume)
        } else if n == 6 {
            Some(GatewayOpcode::Reconnect)
        } else if n == 7 {
            Some(GatewayOpcode::RequestGuildMembers)
        } else if n == 8 {
            Some(GatewayOpcode::InvalidSession)
        } else if n == 9 {
            Some(GatewayOpcode::Hello)
        } else if n == 10 {
            Some(GatewayOpcode::HeartbeatAck)
        } else {
            None
        }
    }
}

/// Round trip between operations and their integer codes.
pub proof fn lemma_opcode_codes(op: GatewayOpcode)
    ensures
        opcode_value(op) <= 10,
        spec_opcode_of(opcode_value(op)) == op,
{
}

/// The handshake payload of a `Hello` frame: the server-dictated heartbeat
/// cadence in milliseconds.
#[derive(Clone, Copy, Debug, PartialEq, Eq, Structural)]
pub struct HelloPayload {
    pub heartbeat_interval: u64,
}

/// Model of a [`Payload`] with text abstracted to character sequences.
#[verifier::ext_equal]
pub enum PayloadModel {
    Hello { heartbeat_interval: u64 },
    Object { text: Seq<char> },
    Number { value: u64 },
    Flag { value: bool },
}

/// The data field of a gateway frame, keyed by context: the handshake
/// carries a `Hello`, heartbeats carry the last sequence as a bare number,
/// session-invalidation carries a resumability flag, and every other payload
/// is kept as its raw object text and passed through uninterpreted.
#[derive(Debug, Clone)]
pub enum Payload {
    Hello(HelloPayload),
    Object(String),
    Number(u64),
    Flag(bool),
}

impl View for Payload {
    type V = PayloadModel;

    open spec fn view(&self) -> PayloadModel {
        match self {
            Payload::Hello(h) => PayloadModel::Hello {
                heartbeat_interval: h.heartbeat_interval,
            },
            Payload::Object(text) => PayloadModel::Object { text: text@ },
            Payload::Number(value) => PayloadModel::Number { value: *value },
            Payload::Flag(value) => PayloadModel::Flag { value: *value },
        }
    }
}

/// Model of a [`GatewayMessage`].
#[verifier::ext_equal]
pub struct MessageModel {
    pub op: GatewayOpcode,
    pub d: Option<PayloadModel>,
    pub s: Option<u64>,
    pub t: Option<Seq<char>>,
}

/// A gateway frame: operation code, optional payload, optional sequence
/// number and optional event name, matching the wire envelope.
#[derive(Debug, Clone)]
pub struct GatewayMessage {
    pub op: GatewayOpcode,
    pub d: Option<Payload>,
    pub s: Option<u64>,
    pub t: Option<String>,
}

impl View for GatewayMessage {
    type V = MessageModel;

    open spec fn view(&self) -> MessageModel {
        MessageModel {
            op: self.op,
            d: match &self.d {
                Some(p) => Some(p@),
                None => None,
            },
            s: self.s,
            t: match &self.t {
                Some(t) => Some(t@),
                None => None,
            },
        }
    }
}

/// The connection budget advertised by the bot-gateway endpoint.
#[derive(Clone, Copy, Debug, PartialEq, Eq, Structural)]
pub struct SessionStartLimit {
    pub total: i64,
    pub remaining: i64,
    pub reset_after: i64,
    pub max_concurrency: i64,
}

/// The unauthenticated gateway-discovery record: the socket URL to connect
/// to.
#[derive(Debug, Clone)]
pub struct Gateway {
    pub url: String,
}

/// The authenticated bot-gateway record: socket URL, recommended shard
/// count and the session start budget.
#[derive(Debug, Clone)]
pub struct BotGateway {
    pub url: String,
    pub shards: i64,
    pub session_start_limit: SessionStartLimit,
}

/// The dispatch event names the platform delivers over the gateway.
#[derive(Clone, Copy, Debug, PartialEq, Eq, Structural)]
#[allow(non_camel_case_types)]
pub enum GatewayEvent {
    HELLO,
    READY,
    RESUMED,
    RECONNECT,
    INVALID_SESSION,
    APPLICATION_COMMAND_CREATE,
    APPLICATION_COMMAND_UPDATE,
    APPLICATION_COMMAND_DELETE,
    CHANNEL_CREATE,
    CHANNEL_UPDATE,
    CHANNEL_DELETE,
    CHANNEL_PINS_UPDATE,
    THREAD_CREATE,
    THREAD_UPDATE,
    THREAD_DELETE,
    THREAD_LIST_SYNC,
    THREAD_MEMBER_UPDATE,
    THREAD_MEMBERS_UPDATE,
    GUILD_CREATE,
    GUILD_UPDATE,
    GUILD_DELETE,
    GUILD_BAN_ADD,
    GUILD_BAN_REMOVE,
    GUILD_EMOJIS_UPDATE,
    GUILD_INTEGRATIONS_UPDATE,
    GUILD_MEMBER_ADD,
    GUILD_MEMBER_REMOVE,
    GUILD_MEMBER_UPDATE,
    GUILD_MEMBERS_CHUNK,
    GUILD_ROLE_CREATE,
    GUILD_ROLE_UPDATE,
    GUILD_ROLE_DELETE,
    INTEGRATION_CREATE,
    INTEGRATION_UPDATE,
    INTEGRATION_DELETE,
    INTERACTION_UPDATE,
    INVITE_CREATE,
    INVITE_DELTE,
    MESSAGE_CREATE,
    MESSAGE_UPDATE,
    MESSAGE_DELETE,
    MESSAGE_DELETE_BULK,
    MESSAGE_REACTION_ADD,
    MESSAGE_REACTION_REMOVE,
    MESSAGE_REACTION_REMOVE_ALL,
    MESSAGE_REACTION_REMOVE_EMOJI,
    PRESENCE_UPDATE,
    TYPING_START,
    USER_UPDATE,
    VOICE_STATE_UPDATE,
    VOICE_SERVER_UPDATE,
    WEBHOOKS_UPDATE,
}

/// The wire name of a dispatch event.
pub open spec fn spec_event_name(e: GatewayEvent) -> Seq<char> {
    match e {
        GatewayEvent::HELLO => "HELLO"@,
        GatewayEvent::READY => "READY"@,
        GatewayEvent::RESUMED => "RESUMED"@,
        GatewayEvent::RECONNECT => "RECONNECT"@,
        GatewayEvent::INVALID_SESSION => "INVALID_SESSION"@,
        GatewayEvent::APPLICATION_COMMAND_CREATE => "APPLICATION_COMMAND_CREATE"@,
        GatewayEvent::APPLICATION_COMMAND_UPDATE => "APPLICATION_COMMAND_UPDATE"@,
        GatewayEvent::APPLICATION_COMMAND_DELETE => "APPLICATION_COMMAND_DELETE"@,
        GatewayEvent::CHANNEL_CREATE => "CHANNEL_CREATE"@,
        GatewayEvent::CHANNEL_UPDATE => "CHANNEL_UPDATE"@,
        GatewayEvent::CHANNEL_DELETE => "CHANNEL_DELETE"@,
        GatewayEvent::CHANNEL_PINS_UPDATE => "CHANNEL_PINS_UPDATE"@,
        GatewayEvent::THREAD_CREATE => "THREAD_CREATE"@,
        GatewayEvent::THREAD_UPDATE => "THREAD_UPDATE"@,
        GatewayEvent::THREAD_DELETE => "THREAD_DELETE"@,
        GatewayEvent::THREAD_LIST_SYNC => "THREAD_LIST_SYNC"@,
        GatewayEvent::THREAD_MEMBER_UPDATE => "THREAD_MEMBER_UPDATE"@,
        GatewayEvent::THREAD_MEMBERS_UPDATE => "THREAD_MEMBERS_UPDATE"@,
        GatewayEvent::GUILD_CREATE => "GUILD_CREATE"@,
        GatewayEvent::GUILD_UPDATE => "GUILD_UPDATE"@,
        GatewayEvent::GUILD_DELETE => "GUILD_DELETE"@,
        GatewayEvent::GUILD_BAN_ADD => "GUILD_BAN_ADD"@,
        GatewayEvent::GUILD_BAN_REMOVE => "GUILD_BAN_REMOVE"@,
        GatewayEvent::GUILD_EMOJIS_UPDATE => "GUILD_EMOJIS_UPDATE"@,
        GatewayEvent::GUILD_INTEGRATIONS_UPDATE => "GUILD_INTEGRATIONS_UPDATE"@,
        GatewayEvent::GUILD_MEMBER_ADD => "GUILD_MEMBER_ADD"@,
        GatewayEvent::GUILD_MEMBER_REMOVE => "GUILD_MEMBER_REMOVE"@,
        GatewayEvent::GUILD_MEMBER_UPDATE => "GUILD_MEMBER_UPDATE"@,
        GatewayEvent::GUILD_MEMBERS_CHUNK => "GUILD_MEMBERS_CHUNK"@,
        GatewayEvent::GUILD_ROLE_CREATE => "GUILD_ROLE_CREATE"@,
        GatewayEvent::GUILD_ROLE_UPDATE => "GUILD_ROLE_UPDATE"@,
        GatewayEvent::GUILD_ROLE_DELETE => "GUILD_ROLE_DELETE"@,
        GatewayEvent::INTEGRATION_CREATE => "INTEGRATION_CREATE"@,
        GatewayEvent::INTEGRATION_UPDATE => "INTEGRATION_UPDATE"@,
        GatewayEvent::INTEGRATION_DELETE => "INTEGRATION_DELETE"@,
        GatewayEvent::INTERACTION_UPDATE => "INTERACTION_UPDATE"@,
        GatewayEvent::INVITE_CREATE => "INVITE_CREATE"@,
        GatewayEvent::INVITE_DELTE => "INVITE_DELTE"@,
        GatewayEvent::MESSAGE_CREATE => "MESSAGE_CREATE"@,
        GatewayEvent::MESSAGE_UPDATE => "MESSAGE_UPDATE"@,
        GatewayEvent::MESSAGE_DELETE => "MESSAGE_DELETE"@,
        GatewayEvent::MESSAGE_DELETE_BULK => "MESSAGE_DELETE_BULK"@,
        GatewayEvent::MESSAGE_REACTION_ADD => "MESSAGE_REACTION_ADD"@,
        GatewayEvent::MESSAGE_REACTION_REMOVE => "MESSAGE_REACTION_REMOVE"@,
        GatewayEvent::MESSAGE_REACTION_REMOVE_ALL => "MESSAGE_REACTION_REMOVE_ALL"@,
        GatewayEvent::MESSAGE_REACTION_REMOVE_EMOJI => "MESSAGE_REACTION_REMOVE_EMOJI"@,
        GatewayEvent::PRESENCE_UPDATE => "PRESENCE_UPDATE"@,
        GatewayEvent::TYPING_START => "TYPING_START"@,
        GatewayEvent::USER_UPDATE => "USER_UPDATE"@,
        GatewayEvent::VOICE_STATE_UPDATE => "VOICE_STATE_UPDATE"@,
        GatewayEvent::VOICE_SERVER_UPDATE => "VOICE_SERVER_UPDATE"@,
        GatewayEvent::WEBHOOKS_UPDATE => "WEBHOOKS_UPDATE"@,
    }
}

/// The dispatch event a wire name stands for, where it is known.
pub open spec fn spec_event_from_name(s: Seq<char>) -> Option<GatewayEvent> {
    if s == "HELLO"@ {
        Some(GatewayEvent::HELLO)
    } else if s == "READY"@ {
        Some(GatewayEvent::READY)
    } else if s == "RESUMED"@ {
        Some(GatewayEvent::RESUMED)
    } else if s == "RECONNECT"@ {
        Some(GatewayEvent::RECONNECT)
    } else if s == "INVALID_SESSION"@ {
        Some(GatewayEvent::INVALID_SESSION)
    } else if s == "APPLICATION_COMMAND_CREATE"@ {
        Some(GatewayEvent::APPLICATION_COMMAND_CREATE)
    } else if s == "APPLICATION_COMMAND_UPDATE"@ {
        Some(GatewayEvent::APPLICATION_COMMAND_UPDATE)
    } else if s == "APPLICATION_COMMAND_DELETE"@ {
        Some(GatewayEvent::APPLICATION_COMMAND_DELETE)
    } else if s == "CHANNEL_CREATE"@ {
        Some(GatewayEvent::CHANNEL_CREATE)
    } else if s == "CHANNEL_UPDATE"@ {
        Some(GatewayEvent::CHANNEL_UPDATE)
    } else if s == "CHANNEL_DELETE"@ {
        Some(GatewayEvent::CHANNEL_DELETE)
    } else if s == "CHANNEL_PINS_UPDATE"@ {
        Some(GatewayEvent::CHANNEL_PINS_UPDATE)
    } else if s == "THREAD_CREATE"@ {
        Some(GatewayEvent::THREAD_CREATE)
    } else if s == "THREAD_UPDATE"@ {
        Some(GatewayEvent::THREAD_UPDATE)
    } else if s == "THREAD_DELETE"@ {
        Some(GatewayEvent::THREAD_DELETE)
    } else if s == "THREAD_LIST_SYNC"@ {
        Some(GatewayEvent::THREAD_LIST_SYNC)
    } else if s == "THREAD_MEMBER_UPDATE"@ {
        Some(GatewayEvent::THREAD_MEMBER_UPDATE)
    } else if s == "THREAD_MEMBERS_UPDATE"@ {
        Some(GatewayEvent::THREAD_MEMBERS_UPDATE)
    } else if s == "GUILD_CREATE"@ {
        Some(GatewayEvent::GUILD_CREATE)
    } else if s == "GUILD_UPDATE"@ {
        Some(GatewayEvent::GUILD_UPDATE)
    } else if s == "GUILD_DELETE"@ {
        Some(GatewayEvent::GUILD_DELETE)
    } else if s == "GUILD_BAN_ADD"@ {
        Some(GatewayEvent::GUILD_BAN_ADD)
    } else if s == "GUILD_BAN_REMOVE"@ {
        Some(GatewayEvent::GUILD_BAN_REMOVE)
    } else if s == "GUILD_EMOJIS_UPDATE"@ {
        Some(GatewayEvent::GUILD_EMOJIS_UPDATE)
    } else if s == "GUILD_INTEGRATIONS_UPDATE"@ {
        Some(GatewayEvent::GUILD_INTEGRATIONS_UPDATE)
    } else if s == "GUILD_MEMBER_ADD"@ {
        Some(GatewayEvent::GUILD_MEMBER_ADD)
    } else if s == "GUILD_MEMBER_REMOVE"@ {
        Some(GatewayEvent::GUILD_MEMBER_REMOVE)
    } else if s == "GUILD_MEMBER_UPDATE"@ {
        Some(GatewayEvent::GUILD_MEMBER_UPDATE)
    } else if s == "GUILD_MEMBERS_CHUNK"@ {
        Some(GatewayEvent::GUILD_MEMBERS_CHUNK)
    } else if s == "GUILD_ROLE_CREATE"@ {
        Some(GatewayEvent::GUILD_ROLE_CREATE)
    } else if s == "GUILD_ROLE_UPDATE"@ {
        Some(GatewayEvent::GUILD_ROLE_UPDATE)
    } else if s == "GUILD_ROLE_DELETE"@ {
        Some(GatewayEvent::GUILD_ROLE_DELETE)
    } else if s == "INTEGRATION_CREATE"@ {
        Some(GatewayEvent::INTEGRATION_CREATE)
    } else if s == "INTEGRATION_UPDATE"@ {
        Some(GatewayEvent::INTEGRATION_UPDATE)
    } else if s == "INTEGRATION_DELETE"@ {
        Some(GatewayEvent::INTEGRATION_DELETE)
    } else if s == "INTERACTION_UPDATE"@ {
        Some(GatewayEvent::INTERACTION_UPDATE)
    } else if s == "INVITE_CREATE"@ {
        Some(GatewayEvent::INVITE_CREATE)
    } else if s == "INVITE_DELTE"@ {
        Some(GatewayEvent::INVITE_DELTE)
    } else if s == "MESSAGE_CREATE"@ {
        Some(GatewayEvent::MESSAGE_CREATE)
    } else if s == "MESSAGE_UPDATE"@ {
        Some(GatewayEvent::MESSAGE_UPDATE)
    } else if s == "MESSAGE_DELETE"@ {
        Some(GatewayEvent::MESSAGE_DELETE)
    } else if s == "MESSAGE_DELETE_BULK"@ {
        Some(GatewayEvent::MESSAGE_DELETE_BULK)
    } else if s == "MESSAGE_REACTION_ADD"@ {
        Some(GatewayEvent::MESSAGE_REACTION_ADD)
    } else if s == "MESSAGE_REACTION_REMOVE"@ {
        Some(GatewayEvent::MESSAGE_REACTION_REMOVE)
    } else if s == "MESSAGE_REACTION_REMOVE_ALL"@ {
        Some(GatewayEvent::MESSAGE_REACTION_REMOVE_ALL)
    } else if s == "MESSAGE_REACTION_REMOVE_EMOJI"@ {
        Some(GatewayEvent::MESSAGE_REACTION_REMOVE_EMOJI)
    } else if s == "PRESENCE_UPDATE"@ {
        Some(GatewayEvent::PRESENCE_UPDATE)
    } else if s == "TYPING_START"@ {
        Some(GatewayEvent::TYPING_START)
    } else if s == "USER_UPDATE"@ {
        Some(GatewayEvent::USER_UPDATE)
    } else if s == "VOICE_STATE_UPDATE"@ {
        Some(GatewayEvent::VOICE_STATE_UPDATE)
    } else if s == "VOICE_SERVER_UPDATE"@ {
        Some(GatewayEvent::VOICE_SERVER_UPDATE)
    } else if s == "WEBHOOKS_UPDATE"@ {
        Some(GatewayEvent::WEBHOOKS_UPDATE)
    } else {
        None
    }
}

impl GatewayEvent {
    /// The wire name of this event.
    pub fn name(&self) -> (r: &'static str)
        ensures
            r@ == spec_event_name(*self),
    {
        match self {
            GatewayEvent::HELLO => "HELLO",
            GatewayEvent::READY => "READY",
            GatewayEvent::RESUMED => "RESUMED",
            GatewayEvent::RECONNECT => "RECONNECT",
            GatewayEvent::INVALID_SESSION => "INVALID_SESSION",
            GatewayEvent::APPLICATION_COMMAND_CREATE => "APPLICATION_COMMAND_CREATE",
            GatewayEvent::APPLICATION_COMMAND_UPDATE => "APPLICATION_COMMAND_UPDATE",
            GatewayEvent::APPLICATION_COMMAND_DELETE => "APPLICATION_COMMAND_DELETE",
            GatewayEvent::CHANNEL_CREATE => "CHANNEL_CREATE",
            GatewayEvent::CHANNEL_UPDATE => "CHANNEL_UPDATE",
            GatewayEvent::CHANNEL_DELETE => "CHANNEL_DELETE",
            GatewayEvent::CHANNEL_PINS_UPDATE => "CHANNEL_PINS_UPDATE",
            GatewayEvent::THREAD_CREATE => "THREAD_CREATE",
            GatewayEvent::THREAD_UPDATE => "THREAD_UPDATE",
            GatewayEvent::THREAD_DELETE => "THREAD_DELETE",
            GatewayEvent::THREAD_LIST_SYNC => "THREAD_LIST_SYNC",
            GatewayEvent::THREAD_MEMBER_UPDATE => "THREAD_MEMBER_UPDATE",
            GatewayEvent::THREAD_MEMBERS_UPDATE => "THREAD_MEMBERS_UPDATE",
            GatewayEvent::GUILD_CREATE => "GUILD_CREATE",
            GatewayEvent::GUILD_UPDATE => "GUILD_UPDATE",
            GatewayEvent::GUILD_DELETE => "GUILD_DELETE",
            GatewayEvent::GUILD_BAN_ADD => "GUILD_BAN_ADD",
            GatewayEvent::GUILD_BAN_REMOVE => "GUILD_BAN_REMOVE",
            GatewayEvent::GUILD_EMOJIS_UPDATE => "GUILD_EMOJIS_UPDATE",
            GatewayEvent::GUILD_INTEGRATIONS_UPDATE => "GUILD_INTEGRATIONS_UPDATE",
            GatewayEvent::GUILD_MEMBER_ADD => "GUILD_MEMBER_ADD",
            GatewayEvent::GUILD_MEMBER_REMOVE => "GUILD_MEMBER_REMOVE",
            GatewayEvent::GUILD_MEMBER_UPDATE => "GUILD_MEMBER_UPDATE",
            GatewayEvent::GUILD_MEMBERS_CHUNK => "GUILD_MEMBERS_CHUNK",
            GatewayEvent::GUILD_ROLE_CREATE => "GUILD_ROLE_CREATE",
            GatewayEvent::GUILD_ROLE_UPDATE => "GUILD_ROLE_UPDATE",
            GatewayEvent::GUILD_ROLE_DELETE => "GUILD_ROLE_DELETE",
            GatewayEvent::INTEGRATION_CREATE => "INTEGRATION_CREATE",
            GatewayEvent::INTEGRATION_UPDATE => "INTEGRATION_UPDATE",
            GatewayEvent::INTEGRATION_DELETE => "INTEGRATION_DELETE",
            GatewayEvent::INTERACTION_UPDATE => "INTERACTION_UPDATE",
            GatewayEvent::INVITE_CREATE => "INVITE_CREATE",
            GatewayEvent::INVITE_DELTE => "INVITE_DELTE",
            GatewayEvent::MESSAGE_CREATE => "MESSAGE_CREATE",
            GatewayEvent::MESSAGE_UPDATE => "MESSAGE_UPDATE",
            GatewayEvent::MESSAGE_DELETE => "MESSAGE_DELETE",
            GatewayEvent::MESSAGE_DELETE_BULK => "MESSAGE_DELETE_BULK",
            GatewayEvent::MESSAGE_REACTION_ADD => "MESSAGE_REACTION_ADD",
            GatewayEvent::MESSAGE_REACTION_REMOVE => "MESSAGE_REACTION_REMOVE",
            GatewayEvent::MESSAGE_REACTION_REMOVE_ALL => "MESSAGE_REACTION_REMOVE_ALL",
            GatewayEvent::MESSAGE_REACTION_REMOVE_EMOJI => "MESSAGE_REACTION_REMOVE_EMOJI",
            GatewayEvent::PRESENCE_UPDATE => "PRESENCE_UPDATE",
            GatewayEvent::TYPING_START => "TYPING_START",
            GatewayEvent::USER_UPDATE => "USER_UPDATE",
            GatewayEvent::VOICE_STATE_UPDATE => "VOICE_STATE_UPDATE",
            GatewayEvent::VOICE_SERVER_UPDATE => "VOICE_SERVER_UPDATE",
            GatewayEvent::WEBHOOKS_UPDATE => "WEBHOOKS_UPDATE",
        }
    }

    /// The event a wire name stands for; unknown names are `None`.
    pub fn from_name(s: &str) -> (r: Option<GatewayEvent>)
        ensures
            r == spec_event_from_name(s@),
    {
        if crate::text::str_eq(s, "HELLO") {
            Some(GatewayEvent::HELLO)
        } else if crate::text::str_eq(s, "READY") {
            Some(GatewayEvent::READY)
        } else if crate::text::str_eq(s, "RESUMED") {
            Some(GatewayEvent::RESUMED)
        } else if crate::text::str_eq(s, "RECONNECT") {
            Some(GatewayEvent::RECONNECT)
        } else if crate::text::str_eq(s, "INVALID_SESSION") {
            Some(GatewayEvent::INVALID_SESSION)
        } else if crate::text::str_eq(s, "APPLICATION_COMMAND_CREATE") {
            Some(GatewayEvent::APPLICATION_COMMAND_CREATE)
        } else if crate::text::str_eq(s, "APPLICATION_COMMAND_UPDATE") {
            Some(GatewayEvent::APPLICATION_COMMAND_UPDATE)
        } else if crate::text::str_eq(s, "APPLICATION_COMMAND_DELETE") {
            Some(GatewayEvent::APPLICATION_COMMAND_DELETE)
        } else if crate::text::str_eq(s, "CHANNEL_CREATE") {
            Some(GatewayEvent::CHANNEL_CREATE)
        } else if crate::text::str_eq(s, "CHANNEL_UPDATE") {
            Some(GatewayEvent::CHANNEL_UPDATE)
        } else if crate::text::str_eq(s, "CHANNEL_DELETE") {
            Some(GatewayEvent::CHANNEL_DELETE)
        } else if crate::text::str_eq(s, "CHANNEL_PINS_UPDATE") {
            Some(GatewayEvent::CHANNEL_PINS_UPDATE)
        } else if crate::text::str_eq(s, "THREAD_CREATE") {
            Some(GatewayEvent::THREAD_CREATE)
        } else if crate::text::str_eq(s, "THREAD_UPDATE") {
            Some(GatewayEvent::THREAD_UPDATE)
        } else if crate::text::str_eq(s, "THREAD_DELETE") {
            Some(GatewayEvent::THREAD_DELETE)
        } else if crate::text::str_eq(s, "THREAD_LIST_SYNC") {
            Some(GatewayEvent::THREAD_LIST_SYNC)
        } else if crate::text::str_eq(s, "THREAD_MEMBER_UPDATE") {
            Some(GatewayEvent::THREAD_MEMBER_UPDATE)
        } else if crate::text::str_eq(s, "THREAD_MEMBERS_UPDATE") {
            Some(GatewayEvent::THREAD_MEMBERS_UPDATE)
        } else if crate::text::str_eq(s, "GUILD_CREATE") {
            Some(GatewayEvent::GUILD_CREATE)
        } else if crate::text::str_eq(s, "GUILD_UPDATE") {
            Some(GatewayEvent::GUILD_UPDATE)
        } else if crate::text::str_eq(s, "GUILD_DELETE") {
            Some(GatewayEvent::GUILD_DELETE)
        } else if crate::text::str_eq(s, "GUILD_BAN_ADD") {
            Some(GatewayEvent::GUILD_BAN_ADD)
        } else if crate::text::str_eq(s, "GUILD_BAN_REMOVE") {
            Some(GatewayEvent::GUILD_BAN_REMOVE)
        } else if crate::text::str_eq(s, "GUILD_EMOJIS_UPDATE") {
            Some(GatewayEvent::GUILD_EMOJIS_UPDATE)
        } else if crate::text::str_eq(s, "GUILD_INTEGRATIONS_UPDATE") {
            Some(GatewayEvent::GUILD_INTEGRATIONS_UPDATE)
        } else if crate::text::str_eq(s, "GUILD_MEMBER_ADD") {
            Some(GatewayEvent::GUILD_MEMBER_ADD)
        } else if crate::text::str_eq(s, "GUILD_MEMBER_REMOVE") {
            Some(GatewayEvent::GUILD_MEMBER_REMOVE)
        } else if crate::text::str_eq(s, "GUILD_MEMBER_UPDATE") {
            Some(GatewayEvent::GUILD_MEMBER_UPDATE)
        } else if crate::text::str_eq(s, "GUILD_MEMBERS_CHUNK") {
            Some(GatewayEvent::GUILD_MEMBERS_CHUNK)
        } else if crate::text::str_eq(s, "GUILD_ROLE_CREATE") {
            Some(GatewayEvent::GUILD_ROLE_CREATE)
        } else if crate::text::str_eq(s, "GUILD_ROLE_UPDATE") {
            Some(GatewayEvent::GUILD_ROLE_UPDATE)
        } else if crate::text::str_eq(s, "GUILD_ROLE_DELETE") {
            Some(GatewayEvent::GUILD_ROLE_DELETE)
        } else if crate::text::str_eq(s, "INTEGRATION_CREATE") {
            Some(GatewayEvent::INTEGRATION_CREATE)
        } else if crate::text::str_eq(s, "INTEGRATION_UPDATE") {
            Some(GatewayEvent::INTEGRATION_UPDATE)
        } else if crate::text::str_eq(s, "INTEGRATION_DELETE") {
            Some(GatewayEvent::INTEGRATION_DELETE)
        } else if crate::text::str_eq(s, "INTERACTION_UPDATE") {
            Some(GatewayEvent::INTERACTION_UPDATE)
        } else if crate::text::str_eq(s, "INVITE_CREATE") {
            Some(GatewayEvent::INVITE_CREATE)
        } else if crate::text::str_eq(s, "INVITE_DELTE") {
            Some(GatewayEvent::INVITE_DELTE)
        } else if crate::text::str_eq(s, "MESSAGE_CREATE") {
            Some(GatewayEvent::MESSAGE_CREATE)
        } else if crate::text::str_eq(s, "MESSAGE_UPDATE") {
            Some(GatewayEvent::MESSAGE_UPDATE)
        } else if crate::text::str_eq(s, "MESSAGE_DELETE") {
            Some(GatewayEvent::MESSAGE_DELETE)
        } else if crate::text::str_eq(s, "MESSAGE_DELETE_BULK") {
            Some(GatewayEvent::MESSAGE_DELETE_BULK)
        } else if crate::text::str_eq(s, "MESSAGE_REACTION_ADD") {
            Some(GatewayEvent::MESSAGE_REACTION_ADD)
        } else if crate::text::str_eq(s, "MESSAGE_REACTION_REMOVE") {
            Some(GatewayEvent::MESSAGE_REACTION_REMOVE)
        } else if crate::text::str_eq(s, "MESSAGE_REACTION_REMOVE_ALL") {
            Some(GatewayEvent::MESSAGE_REACTION_REMOVE_ALL)
        } else if crate::text::str_eq(s, "MESSAGE_REACTION_REMOVE_EMOJI") {
            Some(GatewayEvent::MESSAGE_REACTION_REMOVE_EMOJI)
        } else if crate::text::str_eq(s, "PRESENCE_UPDATE") {
            Some(GatewayEvent::PRESENCE_UPDATE)
        } else if crate::text::str_eq(s, "TYPING_START") {
            Some(GatewayEvent::TYPING_START)
        } else if crate::text::str_eq(s, "USER_UPDATE") {
            Some(GatewayEvent::USER_UPDATE)
        } else if crate::text::str_eq(s, "VOICE_STATE_UPDATE") {
            Some(GatewayEvent::VOICE_STATE_UPDATE)
        } else if crate::text::str_eq(s, "VOICE_SERVER_UPDATE") {
            Some(GatewayEvent::VOICE_SERVER_UPDATE)
        } else if crate::text::str_eq(s, "WEBHOOKS_UPDATE") {
            Some(GatewayEvent::WEBHOOKS_UPDATE)
        } else {
            None
        }
    }
}

} // verus!
