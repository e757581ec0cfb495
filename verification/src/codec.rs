//! The gateway codec: a lossless two-way mapping between the wire text of
//! the envelope `{"op":..,"d":..,"s":..,"t":..}` and [`GatewayMessage`].
//!
//! Decoding is specified by [`spec_decode`] and encoding by [`spec_encode`];
//! both are total functions over character sequences. A frame whose `op`
//! integer is outside the known range decodes to `UnknownOpcode`; a
//! `Dispatch` frame without `s` or `t` is a protocol violation
//! (`MalformedFrame`); a `Hello` frame whose payload lacks the heartbeat
//! interval is a schema mismatch (`DeserializeFailure`). Encoding omits
//! absent optional fields rather than emitting null placeholders.

use vstd::prelude::*;

verus! {

use crate::error::ClassifiedError;
use crate::error::ErrorModel;
use crate::json::JsonKind;
use crate::json::all_plain;
use crate::json::obj_blob_wf;
use crate::json::obj_lookup;
use crate::json::plain_str_char;
use crate::json::scan_blob_end;
use crate::json::spec_obj_lookup;
use crate::models::gateway::GatewayMessage;
use crate::models::gateway::GatewayOpcode;
use crate::models::gateway::HelloPayload;
use crate::models::gateway::MessageModel;
use crate::models::gateway::Payload;
use crate::models::gateway::PayloadModel;
use crate::models::gateway::opcode_value;
use crate::models::gateway::spec_opcode_of;
use crate::json::parse_u64_span;
use crate::text::parse_u64_from;
use crate::text::render_u64;
use crate::text::spec_udigits;

/// The heartbeat interval named by a `Hello` payload object, when the
/// object carries it as a representable number and is structurally sound.
pub open spec fn spec_hello_interval(o: Seq<char>) -> Option<u64> {
    match spec_obj_lookup(o, "heartbeat_interval"@) {
        Some((found, end)) => match found {
            Some((kind, a, b)) => if kind == JsonKind::KNum && end == o.len() {
                parse_u64_from(o, a, b, 0)
            } else {
                None
            },
            None => None,
        },
        None => None,
    }
}

/// The `s` or `op`-like numeric field named `key`: absent or null is
/// `Ok(None)`, a representable number is `Ok(Some(..))`, anything else is
/// a malformed frame.
pub open spec fn spec_num_field(s: Seq<char>, key: Seq<char>) -> Result<Option<u64>, ()> {
    match spec_obj_lookup(s, key) {
        None => Err(()),
        Some((found, end)) => match found {
            None => Ok(None),
            Some((kind, a, b)) => if kind == JsonKind::KNum {
                match parse_u64_from(s, a, b, 0) {
                    Some(v) => Ok(Some(v)),
                    None => Err(()),
                }
            } else if kind == JsonKind::KNull {
                Ok(None)
            } else {
                Err(())
            },
        },
    }
}

/// The text field named `key`: absent or null is `Ok(None)`, a plain
/// string is its content, anything else is a malformed frame.
pub open spec fn spec_str_field(s: Seq<char>, key: Seq<char>) -> Result<Option<Seq<char>>, ()> {
    match spec_obj_lookup(s, key) {
        None => Err(()),
        Some((found, end)) => match found {
            None => Ok(None),
            Some((kind, a, b)) => if kind == JsonKind::KStr {
                Ok(Some(s.subrange(a, b)))
            } else if kind == JsonKind::KNull {
                Ok(None)
            } else {
                Err(())
            },
        },
    }
}

/// The payload field `d`, interpreted by the operation: a `Hello` payload
/// must carry the heartbeat interval; every other object payload is kept as
/// raw text; numbers and booleans are read; null and absence are no
/// payload.
pub open spec fn spec_payload_field(s: Seq<char>, op: GatewayOpcode) -> Result<
    Option<PayloadModel>,
    ErrorModel,
> {
    match spec_obj_lookup(s, "d"@) {
        None => Err(ErrorModel::MalformedFrame),
        Some((found, end)) => match found {
            None => Ok(None),
            Some((kind, a, b)) => if kind == JsonKind::KNull {
                Ok(None)
            } else if kind == JsonKind::KNum {
                match parse_u64_from(s, a, b, 0) {
                    Some(v) => Ok(Some(PayloadModel::Number { value: v })),
                    None => Err(ErrorModel::MalformedFrame),
                }
            } else if kind == JsonKind::KTrue {
                Ok(Some(PayloadModel::Flag { value: true }))
            } else if kind == JsonKind::KFalse {
                Ok(Some(PayloadModel::Flag { value: false }))
            } else if kind == JsonKind::KObj {
                if op == GatewayOpcode::Hello {
                    match spec_hello_interval(s.subrange(a, b)) {
                        Some(n) => Ok(Some(PayloadModel::Hello { heartbeat_interval: n })),
                        None => Err(ErrorModel::DeserializeFailure),
                    }
                } else {
                    Ok(Some(PayloadModel::Object { text: s.subrange(a, b) }))
                }
            } else {
                Err(ErrorModel::MalformedFrame)
            },
        },
    }
}

/// What decoding the wire text `s` yields: the frame, or the exact error
/// class the text is rejected with.
pub open spec fn spec_decode(s: Seq<char>) -> Result<MessageModel, ErrorModel> {
    match spec_obj_lookup(s, "op"@) {
        None => Err(ErrorModel::MalformedFrame),
        Some((op_found, end)) => if end != s.len() {
            Err(ErrorModel::MalformedFrame)
        } else {
            match op_found {
                None => Err(ErrorModel::MalformedFrame),
                Some((kind, a, b)) => if kind != JsonKind::KNum {
                    Err(ErrorModel::MalformedFrame)
                } else {
                    match parse_u64_from(s, a, b, 0) {
                        None => Err(ErrorModel::MalformedFrame),
                        Some(opn) => if opn > 10 {
                            Err(ErrorModel::UnknownOpcode { op: opn })
                        } else {
                            let op = spec_opcode_of(opn);
                            match spec_num_field(s, "s"@) {
                                Err(u) => Err(ErrorModel::MalformedFrame),
                                Ok(sv) => match spec_str_field(s, "t"@) {
                                    Err(u) => Err(ErrorModel::MalformedFrame),
                                    Ok(tv) => match spec_payload_field(s, op) {
                                        Err(e) => Err(e),
                                        Ok(dv) => if op == GatewayOpcode::Dispatch && (sv is None
                                            || tv is None) {
                                            Err(ErrorModel::MalformedFrame)
                                        } else {
                                            Ok(MessageModel { op, d: dv, s: sv, t: tv })
                                        },
                                    },
                                },
                            }
                        },
                    }
                },
            }
        },
    }
}

/// Wire text of a `Hello` payload.
pub open spec fn hello_text(heartbeat_interval: u64) -> Seq<char> {
    "{\"heartbeat_interval\":"@ + spec_udigits(heartbeat_interval as int) + "}"@
}

/// Wire text of a payload.
pub open spec fn spec_payload_text(p: PayloadModel) -> Seq<char> {
    match p {
        PayloadModel::Hello { heartbeat_interval } => hello_text(heartbeat_interval),
        PayloadModel::Object { text } => text,
        PayloadModel::Number { value } => spec_udigits(value as int),
        PayloadModel::Flag { value } => if value {
            "true"@
        } else {
            "false"@
        },
    }
}

/// Wire text of a frame: the envelope in canonical field order, with
/// absent optional fields omitted entirely.
pub open spec fn spec_encode(m: MessageModel) -> Seq<char> {
    "{\"op\":"@ + spec_udigits(opcode_value(m.op) as int) + (match m.s {
        Some(n) => ",\"s\":"@ + spec_udigits(n as int),
        None => Seq::<char>::empty(),
    }) + (match m.t {
        Some(t) => ",\"t\":\""@ + t + "\""@,
        None => Seq::<char>::empty(),
    }) + (match m.d {
        Some(p) => ",\"d\":"@ + spec_payload_text(p),
        None => Seq::<char>::empty(),
    }) + "}"@
}

/// A frame the codec can carry losslessly: event names are non-empty plain
/// text, object payloads are self-contained blobs, a `Hello` payload
/// belongs to a `Hello` frame and vice versa, and a `Dispatch` frame
/// carries its sequence and event name.
pub open spec fn msg_wf(m: MessageModel) -> bool {
    &&& match m.t {
        Some(t) => t.len() >= 1 && all_plain(t),
        None => true,
    }
    &&& match m.d {
        Some(PayloadModel::Object { text }) => obj_blob_wf(text),
        _ => true,
    }
    &&& (m.d matches Some(PayloadModel::Hello { .. }) ==> m.op == GatewayOpcode::Hello)
    &&& (m.op == GatewayOpcode::Hello ==> (m.d is None || m.d matches Some(
        PayloadModel::Hello { .. },
    )))
    &&& (m.op == GatewayOpcode::Dispatch ==> m.s is Some && m.t is Some)
}

/// Runtime check of [`msg_wf`].
pub fn message_wf(m: &GatewayMessage) -> (r: bool)
    ensures
        r == msg_wf(m@),
{
    let t_ok: bool = match &m.t {
        Some(t) => {
            let ts: &str = t.as_str();
            let len = ts.unicode_len();
            if len == 0 {
                false
            } else {
                let mut i: usize = 0;
                let mut ok: bool = true;
                while i < len
                    invariant
                        len == ts@.len(),
                        0 <= i <= len,
                        ok == (forall|k: int| 0 <= k < i ==> plain_str_char(#[trigger] ts@[k])),
                    decreases len - i,
                {
                    let c = ts.get_char(i);
                    if c == '"' || c == '\\' || (c as u32) < 0x20 {
                        ok = false;
                        proof {
                            assert(!plain_str_char(ts@[i as int]));
                        }
                    }
                    i = i + 1;
                }
                ok
            }
        },
        None => true,
    };
    let d_ok: bool = match &m.d {
        Some(Payload::Object(text)) => {
            let os: &str = text.as_str();
            let len = os.unicode_len();
            if len < 2 {
                false
            } else if os.get_char(0) != '{' {
                false
            } else {
                match scan_blob_end(os, 1) {
                    Some(j) => j == len,
                    None => false,
                }
            }
        },
        _ => true,
    };
    let hello_ok: bool = match &m.d {
        Some(Payload::Hello(h)) => m.op == GatewayOpcode::Hello,
        _ => true,
    };
    let op_hello_ok: bool = if m.op == GatewayOpcode::Hello {
        match &m.d {
            None => true,
            Some(Payload::Hello(h)) => true,
            _ => false,
        }
    } else {
        true
    };
    let dispatch_ok: bool = if m.op == GatewayOpcode::Dispatch {
        m.s.is_some() && m.t.is_some()
    } else {
        true
    };
    t_ok && d_ok && hello_ok && op_hello_ok && dispatch_ok
}

/// Encodes a frame to its wire text; refused exactly when the frame is not
/// well-formed.
pub fn encode(m: &GatewayMessage) -> (r: Option<String>)
    ensures
        (match r {
            Some(text) => msg_wf(m@) && text@ == spec_encode(m@),
            None => !msg_wf(m@),
        }),
{
    if !message_wf(m) {
        return None;
    }
    let mut out: String = "{\"op\":".to_owned();
    let opdigits = render_u64(m.op.code());
    out.append(opdigits.as_str());
    match &m.s {
        Some(n) => {
            out.append(",\"s\":");
            let ds = render_u64(*n);
            out.append(ds.as_str());
        },
        None => {},
    }
    match &m.t {
        Some(t) => {
            out.append(",\"t\":\"");
            out.append(t.as_str());
            out.append("\"");
        },
        None => {},
    }
    match &m.d {
        Some(p) => {
            out.append(",\"d\":");
            match p {
                Payload::Hello(h) => {
                    out.append("{\"heartbeat_interval\":");
                    let ds = render_u64(h.heartbeat_interval);
                    out.append(ds.as_str());
                    out.append("}");
                },
                Payload::Object(text) => {
                    out.append(text.as_str());
                },
                Payload::Number(v) => {
                    let ds = render_u64(*v);
                    out.append(ds.as_str());
                },
                Payload::Flag(v) => {
                    if *v {
                        out.append("true");
                    } else {
                        out.append("false");
                    }
                },
            }
        },
        None => {},
    }
    out.append("}");
    proof {
        assert(out@ =~= spec_encode(m@));
    }
    Some(out)
}

/// Escape of one character inside an emitted string value.
pub open spec fn esc_char(c: char) -> Seq<char> {
    if c == '"' || c == '\\' {
        seq!['\\', c]
    } else {
        seq![c]
    }
}

/// Escape of emitted string content: quotes and backslashes are prefixed
/// with a backslash, everything else passes through.
pub open spec fn spec_esc(s: Seq<char>) -> Seq<char>
    decreases s.len(),
{
    if s.len() == 0 {
        Seq::<char>::empty()
    } else {
        esc_char(s[0]) + spec_esc(s.subrange(1, s.len() as int))
    }
}

/// A quoted, escaped string value.
pub open spec fn spec_quote(s: Seq<char>) -> Seq<char> {
    seq!['"'] + spec_esc(s) + seq!['"']
}

/// Escaping distributes over concatenation.
pub proof fn lemma_esc_concat(a: Seq<char>, b: Seq<char>)
    ensures
        spec_esc(a + b) == spec_esc(a) + spec_esc(b),
    decreases a.len(),
{
    if a.len() == 0 {
        assert(a + b =~= b);
        assert(spec_esc(a) + spec_esc(b) =~= spec_esc(b));
    } else {
        assert((a + b).subrange(1, (a + b).len() as int) =~= a.subrange(1, a.len() as int) + b);
        lemma_esc_concat(a.subrange(1, a.len() as int), b);
        assert(spec_esc(a + b) =~= spec_esc(a) + spec_esc(b));
    }
}

/// Content without quotes or backslashes escapes to itself.
pub proof fn lemma_esc_plain(s: Seq<char>)
    requires
        forall|k: int| 0 <= k < s.len() ==> s[k] != '"' && s[k] != '\\',
    ensures
        spec_esc(s) == s,
    decreases s.len(),
{
    if s.len() > 0 {
        lemma_esc_plain(s.subrange(1, s.len() as int));
        assert(spec_esc(s) =~= s);
    }
}

/// Renders `s` as a quoted string value with escapes.
pub fn json_quote(s: &str) -> (r: String)
    ensures
        r@ == spec_quote(s@),
{
    let len = s.unicode_len();
    let mut out: String = "\"".to_owned();
    let mut start: usize = 0;
    let mut i: usize = 0;
    proof {
        reveal_strlit("\"");
        assert(s@.subrange(0, 0) =~= Seq::<char>::empty());
        assert(out@ =~= seq!['"'] + spec_esc(s@.subrange(0, 0)));
    }
    while i < len
        invariant
            len == s@.len(),
            0 <= start <= i <= len,
            out@ == seq!['"'] + spec_esc(s@.subrange(0, start as int)),
            forall|k: int| start <= k < i ==> s@[k] != '"' && s@[k] != '\\',
        decreases len - i,
    {
        let c = s.get_char(i);
        if c == '"' || c == '\\' {
            let chunk: &str = s.substring_char(start, i);
            out.append(chunk);
            if c == '"' {
                out.append("\\\"");
                proof {
                    reveal_strlit("\\\"");
                }
            } else {
                out.append("\\\\");
                proof {
                    reveal_strlit("\\\\");
                }
            }
            proof {
                let pre = s@.subrange(0, start as int);
                let mid = s@.subrange(start as int, i as int);
                lemma_esc_plain(mid);
                lemma_esc_concat(pre, mid);
                assert(pre + mid =~= s@.subrange(0, i as int));
                lemma_esc_concat(s@.subrange(0, i as int), seq![s@[i as int]]);
                assert(s@.subrange(0, i as int) + seq![s@[i as int]] =~= s@.subrange(
                    0,
                    i + 1,
                ));
                let single = seq![s@[i as int]];
                assert(single.len() == 1);
                assert(single.subrange(1, 1) =~= Seq::<char>::empty());
                assert(spec_esc(single) == esc_char(single[0]) + spec_esc(single.subrange(1, 1)));
                assert(spec_esc(single) =~= esc_char(s@[i as int]));
                assert(out@ =~= seq!['"'] + spec_esc(s@.subrange(0, i + 1)));
            }
            start = i + 1;
        }
        i = i + 1;
    }
    let tail: &str = s.substring_char(start, len);
    out.append(tail);
    out.append("\"");
    proof {
        let pre = s@.subrange(0, start as int);
        let mid = s@.subrange(start as int, len as int);
        lemma_esc_plain(mid);
        lemma_esc_concat(pre, mid);
        assert(pre + mid =~= s@);
        assert(out@ =~= spec_quote(s@));
    }
    out
}

/// Reads the heartbeat interval out of a `Hello` payload object.
pub fn hello_interval(o: &str) -> (r: Option<u64>)
    ensures
        r == spec_hello_interval(o@),
{
    let len = o.unicode_len();
    match obj_lookup(o, "heartbeat_interval") {
        None => None,
        Some((found, end)) => match found {
            None => None,
            Some((kind, a, b)) => {
                if kind == JsonKind::KNum && end == len {
                    proof {
                        crate::json::lemma_lookup_found_range(o@, "heartbeat_interval"@);
                    }
                    parse_u64_span(o, a, b)
                } else {
                    None
                }
            },
        },
    }
}

/// Reads the numeric field named `key` of the envelope `s`.
fn num_field(s: &str, key: &str) -> (r: Result<Option<u64>, ()>)
    ensures
        r == spec_num_field(s@, key@),
{
    match obj_lookup(s, key) {
        None => Err(()),
        Some((found, end)) => match found {
            None => Ok(None),
            Some((kind, a, b)) => {
                if kind == JsonKind::KNum {
                    proof {
                        crate::json::lemma_lookup_found_range(s@, key@);
                    }
                    match parse_u64_span(s, a, b) {
                        Some(v) => Ok(Some(v)),
                        None => Err(()),
                    }
                } else if kind == JsonKind::KNull {
                    Ok(None)
                } else {
                    Err(())
                }
            },
        },
    }
}

/// Model of a `Result<Option<String>, ()>` field read.
pub open spec fn strf_model(r: Result<Option<String>, ()>) -> Result<Option<Seq<char>>, ()> {
    match r {
        Ok(Some(t)) => Ok(Some(t@)),
        Ok(None) => Ok(None),
        Err(u) => Err(u),
    }
}

/// Reads the text field named `key` of the envelope `s`.
fn str_field(s: &str, key: &str) -> (r: Result<Option<String>, ()>)
    ensures
        strf_model(r) == spec_str_field(s@, key@),
{
    match obj_lookup(s, key) {
        None => Err(()),
        Some((found, end)) => match found {
            None => Ok(None),
            Some((kind, a, b)) => {
                if kind == JsonKind::KStr {
                    proof {
                        crate::json::lemma_lookup_found_range(s@, key@);
                    }
                    let sub: &str = s.substring_char(a, b);
                    Ok(Some(sub.to_owned()))
                } else if kind == JsonKind::KNull {
                    Ok(None)
                } else {
                    Err(())
                }
            },
        },
    }
}

/// Model of a `Result<Option<Payload>, ClassifiedError>` field read.
pub open spec fn pf_model(r: Result<Option<Payload>, ClassifiedError>) -> Result<
    Option<PayloadModel>,
    ErrorModel,
> {
    match r {
        Ok(Some(p)) => Ok(Some(p@)),
        Ok(None) => Ok(None),
        Err(e) => Err(e@),
    }
}

/// Reads the payload field of the envelope `s` for operation `op`.
fn payload_field(s: &str, op: GatewayOpcode) -> (r: Result<Option<Payload>, ClassifiedError>)
    ensures
        pf_model(r) == spec_payload_field(s@, op),
{
    match obj_lookup(s, "d") {
        None => Err(ClassifiedError::MalformedFrame),
        Some((found, end)) => match found {
            None => Ok(None),
            Some((kind, a, b)) => {
                proof {
                    crate::json::lemma_lookup_found_range(s@, "d"@);
                }
                if kind == JsonKind::KNull {
                    Ok(None)
                } else if kind == JsonKind::KNum {
                    match parse_u64_span(s, a, b) {
                        Some(v) => Ok(Some(Payload::Number(v))),
                        None => Err(ClassifiedError::MalformedFrame),
                    }
                } else if kind == JsonKind::KTrue {
                    Ok(Some(Payload::Flag(true)))
                } else if kind == JsonKind::KFalse {
                    Ok(Some(Payload::Flag(false)))
                } else if kind == JsonKind::KObj {
                    let blob: &str = s.substring_char(a, b);
                    if op == GatewayOpcode::Hello {
                        match hello_interval(blob) {
                            Some(n) => Ok(
                                Some(Payload::Hello(HelloPayload { heartbeat_interval: n })),
                            ),
                            None => Err(ClassifiedError::DeserializeFailure),
                        }
                    } else {
                        Ok(Some(Payload::Object(blob.to_owned())))
                    }
                } else {
                    Err(ClassifiedError::MalformedFrame)
                }
            },
        },
    }
}

/// Model of the decoder's result.
pub open spec fn decode_model(r: Result<GatewayMessage, ClassifiedError>) -> Result<
    MessageModel,
    ErrorModel,
> {
    match r {
        Ok(m) => Ok(m@),
        Err(e) => Err(e@),
    }
}

/// Decodes one wire text into a frame, exactly as [`spec_decode`] reads it.
pub fn decode(s: &str) -> (r: Result<GatewayMessage, ClassifiedError>)
    ensures
        decode_model(r) == spec_decode(s@),
{
    let len = s.unicode_len();
    match obj_lookup(s, "op") {
        None => Err(ClassifiedError::MalformedFrame),
        Some((op_found, end)) => {
            if end != len {
                return Err(ClassifiedError::MalformedFrame);
            }
            match op_found {
                None => Err(ClassifiedError::MalformedFrame),
                Some((kind, a, b)) => {
                    if kind != JsonKind::KNum {
                        return Err(ClassifiedError::MalformedFrame);
                    }
                    proof {
                        crate::json::lemma_lookup_found_range(s@, "op"@);
                    }
                    match parse_u64_span(s, a, b) {
                        None => Err(ClassifiedError::MalformedFrame),
                        Some(opn) => {
                            if opn > 10 {
                                return Err(ClassifiedError::UnknownOpcode { op: opn });
                            }
                            let op = match GatewayOpcode::from_code(opn) {
                                Some(op) => op,
                                None => {
                                    return Err(ClassifiedError::MalformedFrame);
                                },
                            };
                            let sv = match num_field(s, "s") {
                                Err(u) => {
                                    return Err(ClassifiedError::MalformedFrame);
                                },
                                Ok(sv) => sv,
                            };
                            let tv = match str_field(s, "t") {
                                Err(u) => {
                                    return Err(ClassifiedError::MalformedFrame);
                                },
                                Ok(tv) => tv,
                            };
                            let dv = match payload_field(s, op) {
                                Err(e) => {
                                    return Err(e);
                                },
                                Ok(dv) => dv,
                            };
                            if op == GatewayOpcode::Dispatch && (sv.is_none() || tv.is_none()) {
                                return Err(ClassifiedError::MalformedFrame);
                            }
                            let m = GatewayMessage { op, d: dv, s: sv, t: tv };
                            proof {
                                assert(m@ =~= spec_decode(s@)->Ok_0);
                            }
                            Ok(m)
                        },
                    }
                },
            }
        },
    }
}

/// Scanning inside a string over escaped content passes it without closing
/// the string: specials arrive escaped, everything else is neither a quote
/// nor a backslash.
proof fn lemma_blob_in_string_esc(s: Seq<char>, i: int, t: Seq<char>, depth: int)
    requires
        0 <= i,
        depth >= 1,
        i + spec_esc(t).len() <= s.len(),
        s.subrange(i, i + spec_esc(t).len()) == spec_esc(t),
    ensures
        crate::json::blob_end(s, i, depth, true, false) == crate::json::blob_end(
            s,
            i + spec_esc(t).len(),
            depth,
            true,
            false,
        ),
    decreases t.len(),
{
    if t.len() == 0 {
        assert(spec_esc(t).len() == 0);
    } else {
        let e = spec_esc(t);
        let rest = t.subrange(1, t.len() as int);
        assert(e == esc_char(t[0]) + spec_esc(rest));
        assert forall|k: int| i <= k < i + e.len() implies #[trigger] s[k] == e[k - i] by {
            assert(s.subrange(i, i + e.len())[k - i] == s[k]);
            assert(s.subrange(i, i + e.len())[k - i] == e[k - i]);
        }
        let c = t[0];
        let step = esc_char(c).len() as int;
        if c == '"' || c == '\\' {
            assert(s[i] == '\\');
            assert(crate::json::blob_end(s, i, depth, true, false) == crate::json::blob_end(
                s,
                i + 1,
                depth,
                true,
                true,
            ));
            assert(crate::json::blob_end(s, i + 1, depth, true, true) == crate::json::blob_end(
                s,
                i + 2,
                depth,
                true,
                false,
            ));
        } else {
            assert(s[i] == c);
            assert(crate::json::blob_end(s, i, depth, true, false) == crate::json::blob_end(
                s,
                i + 1,
                depth,
                true,
                false,
            ));
        }
        assert(s.subrange(i + step, i + step + spec_esc(rest).len()) =~= spec_esc(rest)) by {
            assert forall|k: int|
                0 <= k < spec_esc(rest).len() implies s.subrange(
                i + step,
                i + step + spec_esc(rest).len(),
            )[k] == spec_esc(rest)[k] by {
                assert(s.subrange(i + step, i + step + spec_esc(rest).len())[k] == s[i + step + k]);
                assert(e[step + k] == spec_esc(rest)[k]);
            }
        }
        lemma_blob_in_string_esc(s, i + step, rest, depth);
    }
}

/// A quoted escaped string value scans from its opening quote to just past
/// its closing quote, at any depth.
pub proof fn lemma_blob_quote(s: Seq<char>, i: int, t: Seq<char>, depth: int)
    requires
        0 <= i,
        depth >= 1,
        i + spec_quote(t).len() <= s.len(),
        s.subrange(i, i + spec_quote(t).len()) == spec_quote(t),
    ensures
        crate::json::blob_end(s, i, depth, false, false) == crate::json::blob_end(
            s,
            i + spec_quote(t).len(),
            depth,
            false,
            false,
        ),
{
    let q = spec_quote(t);
    let e = spec_esc(t);
    assert forall|k: int| i <= k < i + q.len() implies #[trigger] s[k] == q[k - i] by {
        assert(s.subrange(i, i + q.len())[k - i] == s[k]);
        assert(s.subrange(i, i + q.len())[k - i] == q[k - i]);
    }
    assert(s[i] == '"');
    assert(crate::json::blob_end(s, i, depth, false, false) == crate::json::blob_end(
        s,
        i + 1,
        depth,
        true,
        false,
    ));
    assert(s.subrange(i + 1, i + 1 + e.len()) =~= e) by {
        assert forall|k: int| 0 <= k < e.len() implies s.subrange(i + 1, i + 1 + e.len())[k]
            == e[k] by {
            assert(s.subrange(i + 1, i + 1 + e.len())[k] == s[i + 1 + k]);
            assert(q[1 + k] == e[k]);
        }
    }
    lemma_blob_in_string_esc(s, i + 1, t, depth);
    assert(s[i + 1 + e.len()] == '"');
    assert(crate::json::blob_end(s, i + 1 + e.len(), depth, true, false) == crate::json::blob_end(
        s,
        i + q.len(),
        depth,
        false,
        false,
    ));
}

/// The canonical `Hello` payload blob is a self-contained object and
/// reads back to exactly its interval.
#[verifier::rlimit(100)]
pub proof fn lemma_hello_blob(h: u64)
    ensures
        obj_blob_wf(hello_text(h)),
        spec_hello_interval(hello_text(h)) == Some(h),
{
    reveal_strlit("{\"heartbeat_interval\":");
    reveal_strlit("heartbeat_interval");
    reveal_strlit("}");
    let key = "heartbeat_interval"@;
    let d = spec_udigits(h as int);
    let dl = d.len() as int;
    crate::text::lemma_udigits_shape(h as int);
    let blob = hello_text(h);
    assert(blob.len() == 23 + dl);
    assert(blob[0] == '{');
    assert(blob[1] == '"');
    assert(blob[20] == '"');
    assert(blob[21] == ':');
    assert forall|k: int| 22 <= k < 22 + dl implies #[trigger] blob[k] == d[k - 22] by {
        assert(blob[k] == (spec_udigits(h as int))[k - 22]);
    }
    assert(blob[22 + dl] == '}');
    assert forall|k: int| 2 <= k < 20 implies (#[trigger] blob[k]) != '"' && blob[k] != '\\' by {
        assert(blob[k] == "{\"heartbeat_interval\":"@[k]);
    }
    crate::json::lemma_blob_step_string(blob, 1, 20, 1);
    assert forall|k: int|
        21 <= k < 22 + dl implies ({
        let c = #[trigger] blob[k];
        c != '"' && c != '\\' && c != '{' && c != '[' && c != '}' && c != ']'
    }) by {
        if k >= 22 {
            assert(crate::text::is_digit_char(blob[k]));
        }
    }
    crate::json::lemma_blob_step_plain(blob, 21, 22 + dl, 1);
    assert(crate::json::blob_end(blob, 22 + dl, 1, false, false) == Some(23 + dl));
    assert(obj_blob_wf(blob));
    let p = crate::json::PairR { key, vtext: d, kind: JsonKind::KNum, a: 0, b: dl };
    let ps = seq![p];
    assert(crate::json::pair_ok(p)) by {
        assert(key.len() == 18);
        assert(forall|k: int| 0 <= k < 18 ==> plain_str_char(#[trigger] key[k]));
    }
    assert(crate::json::pairs_text(ps) == crate::json::pair_text(p));
    assert(blob.subrange(1, blob.len() as int) =~= crate::json::pairs_text(ps) + seq!['}']) by {
        assert forall|k: int|
            0 <= k < blob.len() - 1 implies blob.subrange(1, blob.len() as int)[k] == (
        crate::json::pairs_text(ps) + seq!['}'])[k] by {
            assert(blob.subrange(1, blob.len() as int)[k] == blob[1 + k]);
            if 1 <= 1 + k < 20 {
                assert(blob[1 + k] == "{\"heartbeat_interval\":"@[1 + k]);
            }
        }
    }
    crate::json::lemma_walk_pairs(blob, 1, ps, key);
    assert(crate::json::pairs_found(ps, key, 1) == Some((p, 22int)));
    assert(blob[1] != '}');
    assert(spec_obj_lookup(blob, key) == Some(
        (Some((JsonKind::KNum, 22int, 22 + dl)), blob.len() as int),
    ));
    assert(blob.subrange(22, 22 + dl) =~= d);
    crate::text::lemma_parse_udigits(blob, 22, h);
    assert(spec_hello_interval(blob) == Some(h));
}

/// The rendered pair of a numeric field.
pub open spec fn num_pair(key: Seq<char>, n: u64) -> crate::json::PairR {
    crate::json::PairR {
        key,
        vtext: spec_udigits(n as int),
        kind: JsonKind::KNum,
        a: 0,
        b: spec_udigits(n as int).len() as int,
    }
}

/// The rendered pair of a text field.
pub open spec fn str_pair(key: Seq<char>, t: Seq<char>) -> crate::json::PairR {
    crate::json::PairR {
        key,
        vtext: seq!['"'] + t + seq!['"'],
        kind: JsonKind::KStr,
        a: 1,
        b: t.len() as int + 1,
    }
}

/// The rendered pair of the payload field.
pub open spec fn payload_pair(p: PayloadModel) -> crate::json::PairR {
    match p {
        PayloadModel::Hello { heartbeat_interval } => crate::json::PairR {
            key: "d"@,
            vtext: hello_text(heartbeat_interval),
            kind: JsonKind::KObj,
            a: 0,
            b: hello_text(heartbeat_interval).len() as int,
        },
        PayloadModel::Object { text } => crate::json::PairR {
            key: "d"@,
            vtext: text,
            kind: JsonKind::KObj,
            a: 0,
            b: text.len() as int,
        },
        PayloadModel::Number { value } => num_pair("d"@, value),
        PayloadModel::Flag { value } => if value {
            crate::json::PairR { key: "d"@, vtext: "true"@, kind: JsonKind::KTrue, a: 0, b: 4 }
        } else {
            crate::json::PairR { key: "d"@, vtext: "false"@, kind: JsonKind::KFalse, a: 0, b: 5 }
        },
    }
}

/// The rendered pairs of a frame, in canonical order.
pub open spec fn pairs_of(m: MessageModel) -> Seq<crate::json::PairR> {
    seq![num_pair("op"@, opcode_value(m.op))] + (match m.s {
        Some(n) => seq![num_pair("s"@, n)],
        None => Seq::<crate::json::PairR>::empty(),
    }) + (match m.t {
        Some(t) => seq![str_pair("t"@, t)],
        None => Seq::<crate::json::PairR>::empty(),
    }) + (match m.d {
        Some(p) => seq![payload_pair(p)],
        None => Seq::<crate::json::PairR>::empty(),
    })
}

proof fn lemma_payload_pair_ok(p: PayloadModel)
    requires
        p matches PayloadModel::Object { text } ==> obj_blob_wf(text),
    ensures
        crate::json::pair_ok(payload_pair(p)),
        payload_pair(p).vtext == spec_payload_text(p),
        payload_pair(p).key == "d"@,
{
    reveal_strlit("d");
    reveal_strlit("true");
    reveal_strlit("false");
    assert(crate::json::key_ok("d"@)) by {
        assert("d"@.len() == 1);
        assert(plain_str_char("d"@[0]));
    }
    match p {
        PayloadModel::Hello { heartbeat_interval } => {
            lemma_hello_blob(heartbeat_interval);
        },
        PayloadModel::Object { text } => {
        },
        PayloadModel::Number { value } => {
            crate::text::lemma_udigits_shape(value as int);
        },
        PayloadModel::Flag { value } => {
            if value {
                assert("true"@.len() == 4);
            } else {
                assert("false"@.len() == 5);
            }
        },
    }
}

/// Encoding a well-formed frame yields exactly the canonical object text
/// of its rendered pairs.
#[verifier::rlimit(100)]
proof fn lemma_encode_is_obj_text(m: MessageModel)
    requires
        msg_wf(m),
    ensures
        spec_encode(m) == crate::json::obj_text(pairs_of(m)),
        forall|k: int|
            0 <= k < pairs_of(m).len() ==> crate::json::pair_ok(#[trigger] pairs_of(m)[k]),
        pairs_of(m).len() >= 1,
{
    reveal_strlit("op");
    reveal_strlit("s");
    reveal_strlit("t");
    reveal_strlit("d");
    reveal_strlit("{\"op\":");
    reveal_strlit(",\"s\":");
    reveal_strlit(",\"t\":\"");
    reveal_strlit("\"");
    reveal_strlit("}");
    reveal_strlit(",\"d\":");
    let p_op = num_pair("op"@, opcode_value(m.op));
    let l0 = seq![p_op];
    let ls = (match m.s {
        Some(n) => seq![num_pair("s"@, n)],
        None => Seq::<crate::json::PairR>::empty(),
    });
    let lt = (match m.t {
        Some(t) => seq![str_pair("t"@, t)],
        None => Seq::<crate::json::PairR>::empty(),
    });
    let ld = (match m.d {
        Some(p) => seq![payload_pair(p)],
        None => Seq::<crate::json::PairR>::empty(),
    });
    let ps = pairs_of(m);
    assert(ps =~= l0 + (ls + (lt + ld)));
    // each pair is well-formed
    crate::text::lemma_udigits_shape(opcode_value(m.op) as int);
    assert(crate::json::pair_ok(p_op)) by {
        assert("op"@.len() == 2);
        assert(plain_str_char("op"@[0]) && plain_str_char("op"@[1]));
        assert(crate::json::all_plain("op"@));
    }
    if m.s is Some {
        crate::text::lemma_udigits_shape(m.s->Some_0 as int);
        assert(crate::json::pair_ok(ls[0])) by {
            assert("s"@.len() == 1);
            assert(plain_str_char("s"@[0]));
        }
    }
    if m.t is Some {
        let t = m.t->Some_0;
        let tq = seq!['"'] + t + seq!['"'];
        assert(crate::json::pair_ok(lt[0])) by {
            assert("t"@.len() == 1);
            assert(plain_str_char("t"@[0]));
            assert(tq[0] == '"');
            assert(tq[tq.len() - 1] == '"');
            assert forall|k: int| 1 <= k < tq.len() - 1 implies plain_str_char(
                #[trigger] tq[k],
            ) by {
                assert(tq[k] == t[k - 1]);
            }
        }
    }
    if m.d is Some {
        lemma_payload_pair_ok(m.d->Some_0);
    }
    assert forall|k: int| 0 <= k < ps.len() implies crate::json::pair_ok(#[trigger] ps[k]) by {
        if k == 0 {
            assert(ps[k] == p_op);
        } else if k < 1 + ls.len() {
            assert(ps[k] == ls[0]);
        } else if k < 1 + ls.len() + lt.len() {
            assert(ps[k] == lt[0]);
        } else {
            assert(ps[k] == ld[0]);
        }
    }
    // the text of the pair list equals the encoding
    let t1 = lt + ld;
    let t0 = ls + t1;
    crate::json::lemma_pairs_text_append(lt, ld);
    crate::json::lemma_pairs_text_append(ls, t1);
    crate::json::lemma_pairs_text_append(l0, t0);
    assert(crate::json::pairs_text(l0) == crate::json::pair_text(p_op));
    if m.s is Some {
        assert(crate::json::pairs_text(ls) == crate::json::pair_text(ls[0]));
    }
    if m.t is Some {
        assert(crate::json::pairs_text(lt) == crate::json::pair_text(lt[0]));
    }
    if m.d is Some {
        assert(crate::json::pairs_text(ld) == crate::json::pair_text(ld[0]));
    }
    let opd = spec_udigits(opcode_value(m.op) as int);
    let es: Seq<char> = (match m.s {
        Some(n) => ",\"s\":"@ + spec_udigits(n as int),
        None => Seq::<char>::empty(),
    });
    let et: Seq<char> = (match m.t {
        Some(t) => ",\"t\":\""@ + t + "\""@,
        None => Seq::<char>::empty(),
    });
    let ed: Seq<char> = (match m.d {
        Some(p) => ",\"d\":"@ + spec_payload_text(p),
        None => Seq::<char>::empty(),
    });
    assert(spec_encode(m) == "{\"op\":"@ + opd + es + et + ed + "}"@);
    if m.s is Some {
        assert(es =~= seq![','] + crate::json::pair_text(ls[0]));
    }
    if m.t is Some {
        assert(et =~= seq![','] + crate::json::pair_text(lt[0]));
    }
    if m.d is Some {
        assert(ed =~= seq![','] + crate::json::pair_text(ld[0]));
    }
    assert(seq!['{'] + crate::json::pair_text(p_op) =~= "{\"op\":"@ + opd);
    assert(crate::json::pairs_text(ps) =~= crate::json::pair_text(p_op) + es.skip(0) + et + ed)
        by {
        assert(crate::json::pairs_text(ps) == crate::json::pairs_text(l0 + t0));
        if m.s is None && m.t is None && m.d is None {
            assert(t0.len() == 0);
            assert(crate::json::pairs_text(l0 + t0) == crate::json::pairs_text(l0));
            assert(es =~= Seq::<char>::empty());
        } else {
            assert(t0.len() > 0);
            assert(crate::json::pairs_text(l0 + t0) == crate::json::pairs_text(l0) + seq![',']
                + crate::json::pairs_text(t0));
            if m.s is Some {
                if m.t is None && m.d is None {
                    assert(t1.len() == 0);
                    assert(crate::json::pairs_text(t0) == crate::json::pairs_text(ls));
                } else {
                    assert(crate::json::pairs_text(t0) == crate::json::pairs_text(ls) + seq![',']
                        + crate::json::pairs_text(t1));
                    if m.t is Some && m.d is Some {
                        assert(crate::json::pairs_text(t1) == crate::json::pairs_text(lt)
                            + seq![','] + crate::json::pairs_text(ld));
                    } else if m.t is Some {
                        assert(crate::json::pairs_text(t1) == crate::json::pairs_text(lt));
                    } else {
                        assert(crate::json::pairs_text(t1) == crate::json::pairs_text(ld));
                    }
                }
            } else {
                assert(ls.len() == 0);
                assert(crate::json::pairs_text(t0) == crate::json::pairs_text(t1));
                if m.t is Some && m.d is Some {
                    assert(crate::json::pairs_text(t1) == crate::json::pairs_text(lt) + seq![',']
                        + crate::json::pairs_text(ld));
                } else if m.t is Some {
                    assert(crate::json::pairs_text(t1) == crate::json::pairs_text(lt));
                } else {
                    assert(crate::json::pairs_text(t1) == crate::json::pairs_text(ld));
                }
            }
            assert(crate::json::pairs_text(ps) =~= crate::json::pair_text(p_op) + es + et + ed);
        }
    }
    assert(es.skip(0) =~= es);
    assert(spec_encode(m) =~= crate::json::obj_text(ps));
}

/// Shape of an encoding: it is exactly the canonical object text of the
/// frame's rendered pairs.
#[verifier::rlimit(100)]
proof fn lemma_rt_shape(m: MessageModel)
    requires
        msg_wf(m),
    ensures
        spec_encode(m) == crate::json::obj_text(pairs_of(m)),
        pairs_of(m).len() >= 1,
        forall|k: int|
            0 <= k < pairs_of(m).len() ==> crate::json::pair_ok(#[trigger] pairs_of(m)[k]),
        spec_encode(m).subrange(1, spec_encode(m).len() as int) == crate::json::pairs_text(
            pairs_of(m),
        ) + seq!['}'],
        spec_encode(m).len() == 1 + crate::json::pairs_text(pairs_of(m)).len() + 1,
        spec_encode(m)[0] == '{',
        spec_encode(m)[1] == '"',
{
    lemma_encode_is_obj_text(m);
    let enc = spec_encode(m);
    let ps = pairs_of(m);
    let p_op = num_pair("op"@, opcode_value(m.op));
    assert(enc.subrange(1, enc.len() as int) =~= crate::json::pairs_text(ps) + seq!['}']) by {
        assert forall|k: int| 0 <= k < enc.len() - 1 implies enc.subrange(1, enc.len() as int)[k]
            == (crate::json::pairs_text(ps) + seq!['}'])[k] by {
            assert(enc.subrange(1, enc.len() as int)[k] == enc[1 + k]);
            assert(enc[1 + k] == (seq!['{'] + crate::json::pairs_text(ps) + seq!['}'])[1 + k]);
        }
    }
    assert(ps[0] == p_op);
    assert(enc[0] == '{');
    assert(enc[1] == '"') by {
        if ps.len() == 1 {
            assert(crate::json::pairs_text(ps) == crate::json::pair_text(p_op));
        } else {
            assert(crate::json::pairs_text(ps) == crate::json::pair_text(p_op) + seq![',']
                + crate::json::pairs_text(ps.drop_first()));
        }
        assert(crate::json::pair_text(p_op)[0] == '"');
        assert(enc[1] == crate::json::pairs_text(ps)[0]);
    }
}

/// The operation field of an encoding reads back to the frame's opcode.
#[verifier::rlimit(100)]
proof fn lemma_rt_op(m: MessageModel)
    requires
        msg_wf(m),
    ensures
        spec_obj_lookup(spec_encode(m), "op"@) == Some(
            (
                Some(
                    (
                        JsonKind::KNum,
                        6int,
                        6 + spec_udigits(opcode_value(m.op) as int).len() as int,
                    ),
                ),
                spec_encode(m).len() as int,
            ),
        ),
        parse_u64_from(
            spec_encode(m),
            6,
            6 + spec_udigits(opcode_value(m.op) as int).len() as int,
            0,
        ) == Some(opcode_value(m.op)),
{
    reveal_strlit("op");
    lemma_rt_shape(m);
    let enc = spec_encode(m);
    let ps = pairs_of(m);
    let p_op = num_pair("op"@, opcode_value(m.op));
    let opd = spec_udigits(opcode_value(m.op) as int);
    crate::text::lemma_udigits_shape(opcode_value(m.op) as int);
    crate::json::lemma_walk_pairs(enc, 1, ps, "op"@);
    assert(ps[0] == p_op);
    assert(p_op.key == "op"@);
    assert("op"@.len() == 2);
    assert(crate::json::pairs_found(ps, "op"@, 1) == Some((p_op, 6int)));
    assert(enc.len() >= 2);
    assert(spec_obj_lookup(enc, "op"@) == Some(
        (Some((JsonKind::KNum, 6int, 6 + opd.len() as int)), enc.len() as int),
    ));
    assert(enc.subrange(6, 6 + opd.len() as int) == opd);
    crate::text::lemma_parse_udigits(enc, 6, opcode_value(m.op));
}

/// Positions of the optional pairs behind the operation pair, shared by
/// the field lemmas: skipping a run advances by its rendered length.
#[verifier::rlimit(100)]
proof fn lemma_rt_fields(m: MessageModel)
    requires
        msg_wf(m),
    ensures
        spec_num_field(spec_encode(m), "s"@) == Ok::<Option<u64>, ()>(m.s),
        spec_str_field(spec_encode(m), "t"@) == Ok::<Option<Seq<char>>, ()>(m.t),
{
    reveal_strlit("op");
    reveal_strlit("s");
    reveal_strlit("t");
    reveal_strlit("d");
    lemma_rt_shape(m);
    let enc = spec_encode(m);
    let ps = pairs_of(m);
    let p_op = num_pair("op"@, opcode_value(m.op));
    let l0 = seq![p_op];
    let ls = (match m.s {
        Some(n) => seq![num_pair("s"@, n)],
        None => Seq::<crate::json::PairR>::empty(),
    });
    let lt = (match m.t {
        Some(t) => seq![str_pair("t"@, t)],
        None => Seq::<crate::json::PairR>::empty(),
    });
    let ld = (match m.d {
        Some(p) => seq![payload_pair(p)],
        None => Seq::<crate::json::PairR>::empty(),
    });
    let t1 = lt + ld;
    let t0 = ls + t1;
    assert(ps =~= l0 + t0);
    assert("op"@.len() == 2 && "s"@.len() == 1 && "t"@.len() == 1 && "d"@.len() == 1);
    assert("s"@ != "t"@ && "s"@ != "d"@ && "t"@ != "d"@) by {
        assert("s"@[0] == 's' && "t"@[0] == 't' && "d"@[0] == 'd');
    }
    assert(l0.drop_first().len() == 0);
    assert(crate::json::pairs_adv(l0.drop_first()) == 0);
    assert(crate::json::pairs_adv(l0) == crate::json::pair_text(p_op).len() + 1);
    let base1 = 1 + crate::json::pairs_adv(l0);
    let base2 = base1 + crate::json::pairs_adv(ls);
    if m.s is Some {
        assert(ls.drop_first().len() == 0);
        assert(crate::json::pairs_adv(ls.drop_first()) == 0);
        assert(crate::json::pairs_adv(ls) == crate::json::pair_text(ls[0]).len() + 1);
    } else {
        assert(crate::json::pairs_adv(ls) == 0);
    }
    assert forall|k: int| 0 <= k < l0.len() implies (#[trigger] l0[k].key) != "s"@ && l0[k].key
        != "t"@ by {
        assert(l0[k] == p_op);
    }
    assert forall|k: int| 0 <= k < ls.len() implies (#[trigger] ls[k].key) != "t"@ by {
        assert(ls[k] == ls[0]);
    }
    if m.d is Some {
        lemma_payload_pair_ok(m.d->Some_0);
    }
    // the s field
    crate::json::lemma_walk_pairs(enc, 1, ps, "s"@);
    crate::json::lemma_found_skip(l0, t0, "s"@, 1);
    if m.s is Some {
        let n = m.s->Some_0;
        let p_s = num_pair("s"@, n);
        let sd = spec_udigits(n as int);
        crate::text::lemma_udigits_shape(n as int);
        assert(t0[0] == p_s);
        assert(crate::json::pairs_found(t0, "s"@, base1) == Some((p_s, base1 + 4)));
        let voff_s = base1 + 4;
        assert(spec_obj_lookup(enc, "s"@) == Some(
            (Some((JsonKind::KNum, voff_s, voff_s + sd.len() as int)), enc.len() as int),
        ));
        assert(enc.subrange(voff_s, voff_s + sd.len() as int) == sd);
        crate::text::lemma_parse_udigits(enc, voff_s, n);
        assert(spec_num_field(enc, "s"@) == Ok::<Option<u64>, ()>(Some(n)));
    } else {
        assert(t0 =~= t1);
        assert forall|k: int| 0 <= k < t0.len() implies (#[trigger] t0[k].key) != "s"@ by {
            if k < lt.len() {
                assert(t0[k] == lt[0]);
            } else {
                assert(t0[k] == ld[k - lt.len()]);
            }
        }
        crate::json::lemma_found_absent(t0, "s"@, base1);
        assert(spec_num_field(enc, "s"@) == Ok::<Option<u64>, ()>(None));
    }
    // the t field
    crate::json::lemma_walk_pairs(enc, 1, ps, "t"@);
    crate::json::lemma_found_skip(l0, t0, "t"@, 1);
    crate::json::lemma_found_skip(ls, t1, "t"@, base1);
    if m.t is Some {
        let t = m.t->Some_0;
        let p_t = str_pair("t"@, t);
        let tq = seq!['"'] + t + seq!['"'];
        assert(t1[0] == p_t);
        assert(crate::json::pairs_found(t1, "t"@, base2) == Some((p_t, base2 + 4)));
        let voff_t = base2 + 4;
        assert(spec_obj_lookup(enc, "t"@) == Some(
            (Some((JsonKind::KStr, voff_t + 1, voff_t + 1 + t.len() as int)), enc.len() as int),
        ));
        assert(enc.subrange(voff_t, voff_t + tq.len() as int) == tq);
        assert(enc.subrange(voff_t + 1, voff_t + 1 + t.len() as int) =~= t) by {
            assert forall|k: int| 0 <= k < t.len() implies enc.subrange(
                voff_t + 1,
                voff_t + 1 + t.len() as int,
            )[k] == t[k] by {
                assert(enc.subrange(voff_t + 1, voff_t + 1 + t.len() as int)[k] == enc[voff_t + 1
                    + k]);
                assert(enc.subrange(voff_t, voff_t + tq.len() as int)[k + 1] == enc[voff_t + 1
                    + k]);
                assert(tq[k + 1] == t[k]);
            }
        }
        assert(spec_str_field(enc, "t"@) == Ok::<Option<Seq<char>>, ()>(Some(t)));
    } else {
        assert(t1 =~= ld);
        assert forall|k: int| 0 <= k < t1.len() implies (#[trigger] t1[k].key) != "t"@ by {
            assert(t1[k] == ld[0]);
        }
        crate::json::lemma_found_absent(t1, "t"@, base2);
        assert(spec_str_field(enc, "t"@) == Ok::<Option<Seq<char>>, ()>(None));
    }
}

/// The payload field of an encoding reads back to the frame's payload.
#[verifier::rlimit(100)]
proof fn lemma_rt_payload(m: MessageModel)
    requires
        msg_wf(m),
    ensures
        spec_payload_field(spec_encode(m), m.op) == Ok::<Option<PayloadModel>, ErrorModel>(m.d),
{
    reveal_strlit("op");
    reveal_strlit("s");
    reveal_strlit("t");
    reveal_strlit("d");
    lemma_rt_shape(m);
    let enc = spec_encode(m);
    let ps = pairs_of(m);
    let p_op = num_pair("op"@, opcode_value(m.op));
    let l0 = seq![p_op];
    let ls = (match m.s {
        Some(n) => seq![num_pair("s"@, n)],
        None => Seq::<crate::json::PairR>::empty(),
    });
    let lt = (match m.t {
        Some(t) => seq![str_pair("t"@, t)],
        None => Seq::<crate::json::PairR>::empty(),
    });
    let ld = (match m.d {
        Some(p) => seq![payload_pair(p)],
        None => Seq::<crate::json::PairR>::empty(),
    });
    let t1 = lt + ld;
    let t0 = ls + t1;
    assert(ps =~= l0 + t0);
    assert("op"@.len() == 2 && "s"@.len() == 1 && "t"@.len() == 1 && "d"@.len() == 1);
    assert("s"@ != "d"@ && "t"@ != "d"@) by {
        assert("s"@[0] == 's' && "t"@[0] == 't' && "d"@[0] == 'd');
    }
    assert(l0.drop_first().len() == 0);
    assert(crate::json::pairs_adv(l0.drop_first()) == 0);
    assert(crate::json::pairs_adv(l0) == crate::json::pair_text(p_op).len() + 1);
    let base1 = 1 + crate::json::pairs_adv(l0);
    let base2 = base1 + crate::json::pairs_adv(ls);
    let base3 = base2 + crate::json::pairs_adv(lt);
    if m.s is Some {
        assert(ls.drop_first().len() == 0);
        assert(crate::json::pairs_adv(ls.drop_first()) == 0);
        assert(crate::json::pairs_adv(ls) == crate::json::pair_text(ls[0]).len() + 1);
    } else {
        assert(crate::json::pairs_adv(ls) == 0);
    }
    if m.t is Some {
        assert(lt.drop_first().len() == 0);
        assert(crate::json::pairs_adv(lt.drop_first()) == 0);
        assert(crate::json::pairs_adv(lt) == crate::json::pair_text(lt[0]).len() + 1);
    } else {
        assert(crate::json::pairs_adv(lt) == 0);
    }
    assert forall|k: int| 0 <= k < l0.len() implies (#[trigger] l0[k].key) != "d"@ by {
        assert(l0[k] == p_op);
    }
    assert forall|k: int| 0 <= k < ls.len() implies (#[trigger] ls[k].key) != "d"@ by {
        assert(ls[k] == ls[0]);
    }
    assert forall|k: int| 0 <= k < lt.len() implies (#[trigger] lt[k].key) != "d"@ by {
        assert(lt[k] == lt[0]);
    }
    crate::json::lemma_walk_pairs(enc, 1, ps, "d"@);
    crate::json::lemma_found_skip(l0, t0, "d"@, 1);
    crate::json::lemma_found_skip(ls, t1, "d"@, base1);
    crate::json::lemma_found_skip(lt, ld, "d"@, base2);
    if m.d is Some {
        let p = m.d->Some_0;
        let pd = payload_pair(p);
        lemma_payload_pair_ok(p);
        assert(ld[0] == pd);
        assert(crate::json::pairs_found(ld, "d"@, base3) == Some((pd, base3 + 4)));
        let voff_d = base3 + 4;
        assert(spec_obj_lookup(enc, "d"@) == Some(
            (Some((pd.kind, voff_d + pd.a, voff_d + pd.b)), enc.len() as int),
        ));
        assert(enc.subrange(voff_d, voff_d + pd.vtext.len() as int) == pd.vtext);
        match p {
            PayloadModel::Number { value } => {
                crate::text::lemma_udigits_shape(value as int);
                crate::text::lemma_parse_udigits(enc, voff_d, value);
                assert(spec_payload_field(enc, m.op) == Ok::<Option<PayloadModel>, ErrorModel>(
                    Some(p),
                ));
            },
            PayloadModel::Flag { value } => {
                assert(spec_payload_field(enc, m.op) == Ok::<Option<PayloadModel>, ErrorModel>(
                    Some(p),
                ));
            },
            PayloadModel::Object { text } => {
                assert(m.op != GatewayOpcode::Hello);
                assert(enc.subrange(voff_d, voff_d + text.len() as int) == text);
                assert(spec_payload_field(enc, m.op) == Ok::<Option<PayloadModel>, ErrorModel>(
                    Some(p),
                ));
            },
            PayloadModel::Hello { heartbeat_interval } => {
                assert(m.op == GatewayOpcode::Hello);
                lemma_hello_blob(heartbeat_interval);
                assert(enc.subrange(voff_d, voff_d + pd.b) == hello_text(heartbeat_interval));
                assert(spec_hello_interval(enc.subrange(voff_d, voff_d + pd.b)) == Some(
                    heartbeat_interval,
                ));
                assert(spec_payload_field(enc, m.op) == Ok::<Option<PayloadModel>, ErrorModel>(
                    Some(p),
                ));
            },
        }
    } else {
        assert(ld.len() == 0);
        assert(crate::json::pairs_found(ld, "d"@, base3) is None);
        assert(spec_payload_field(enc, m.op) == Ok::<Option<PayloadModel>, ErrorModel>(None));
    }
}

/// Round trip: decoding the encoding of any well-formed frame yields the
/// frame again, equal in every populated field.
#[verifier::rlimit(100)]
pub proof fn lemma_decode_encode(m: MessageModel)
    requires
        msg_wf(m),
    ensures
        spec_decode(spec_encode(m)) == Ok::<MessageModel, ErrorModel>(m),
{
    let enc = spec_encode(m);
    lemma_rt_op(m);
    lemma_rt_fields(m);
    lemma_rt_payload(m);
    crate::models::gateway::lemma_opcode_codes(m.op);
    if m.op == GatewayOpcode::Dispatch {
        assert(m.s is Some && m.t is Some);
    }
    assert(spec_decode(enc) == Ok::<MessageModel, ErrorModel>(
        MessageModel { op: m.op, d: m.d, s: m.s, t: m.t },
    ));
    assert(MessageModel { op: m.op, d: m.d, s: m.s, t: m.t } =~= m);
}


/// For every well-formed `Hello` frame, the heartbeat interval extracted
/// after a round trip through the codec equals the frame's field exactly.
pub proof fn lemma_hello_round_trip(m: MessageModel)
    requires
        msg_wf(m),
        m.op == GatewayOpcode::Hello,
        m.d matches Some(PayloadModel::Hello { .. }),
    ensures
        spec_decode(spec_encode(m)) matches Ok(m2) && m2.d == m.d,
{
    lemma_decode_encode(m);
}

} // verus!
