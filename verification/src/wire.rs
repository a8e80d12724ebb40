use vstd::prelude::*;

use chrono::Timelike;

use crate::codec::{decode, frame_of, FrameModel};
use crate::requests::opt_view;
use crate::session::{
    cmds_m, step_frame, step_open, step_timeout, Client, Command, SessionError, TimerId,
};
use crate::value::{jmodel, Json, JsonModel};

verus! {

/// The token the transport delivers when the heartbeat timer fires.
pub const HEARTBEAT_TOKEN: u64 = 1;

/// The token the transport delivers when the stop-transaction timer
/// fires.
pub const STOP_TRANSACTION_TOKEN: u64 = 2;

#[verifier::external_type_specification]
#[verifier::external_body]
pub struct ExJsonValue(json::JsonValue);

/// What parsing a piece of wire text yields: the structured value, or
/// nothing when the text is not well-formed. Named here because the
/// parse is done by an outside library; it depends on the text alone.
pub uninterp spec fn json_of(t: Seq<char>) -> Option<JsonModel>;

/// The wire text an encoder produces for a structured value; it depends
/// on the value alone.
pub uninterp spec fn text_of(j: JsonModel) -> Seq<char>;

/// Relies on the json library's value enum alone: each of its variants
/// is turned into the matching library variant, one arm each.
#[verifier::external_body]
fn from_json_value(v: &json::JsonValue) -> Json {
    match v {
        json::JsonValue::Null => Json::Null,
        json::JsonValue::Boolean(b) => Json::Bool(*b),
        json::JsonValue::Short(s) => Json::Str(s.as_str().to_owned()),
        json::JsonValue::String(s) => Json::Str(s.clone()),
        json::JsonValue::Number(_) => match v.as_i64() {
            Some(i) => Json::Int(i),
            None => Json::Null,
        },
        json::JsonValue::Array(items) => Json::Arr(items.iter().map(from_json_value).collect()),
        json::JsonValue::Object(o) => Json::Obj(
            o.iter().map(|(k, x)| (k.to_owned(), from_json_value(x))).collect(),
        ),
    }
}

/// Relies on the json library's value enum alone: each library variant
/// is turned back into the matching outside variant, one arm each.
#[verifier::external_body]
fn to_json_value(j: &Json) -> json::JsonValue {
    match j {
        Json::Null => json::JsonValue::Null,
        Json::Bool(b) => json::JsonValue::Boolean(*b),
        Json::Int(i) => json::JsonValue::Number((*i).into()),
        Json::Str(s) => json::JsonValue::String(s.clone()),
        Json::Arr(items) => json::JsonValue::Array(items.iter().map(to_json_value).collect()),
        Json::Obj(fields) => {
            let mut o = json::object::Object::new();
            for (k, v) in fields.iter() {
                o.insert(k, to_json_value(v));
            }
            json::JsonValue::Object(o)
        },
    }
}

/// Relies on json::parse: turns wire text into a structured value, or
/// fails on text that is not well-formed. Numbers that are not integers
/// in `i64` range are read as null; the session reads only small
/// non-negative integers, so nothing downstream tells them apart.
#[verifier::external_body]
pub fn parse_json(text: &str) -> (r: Option<Json>)
    ensures
        match r {
            Some(j) => json_of(text@) == Some(jmodel(j)),
            None => json_of(text@) is None,
        },
{
    match json::parse(text) {
        Ok(v) => Some(from_json_value(&v)),
        Err(_) => None,
    }
}

/// Relies on json::stringify: serializes a structured value as wire
/// text.
#[verifier::external_body]
pub fn to_wire_text(j: &Json) -> (r: String)
    ensures
        r@ == text_of(jmodel(*j)),
{
    json::stringify(to_json_value(j))
}

/// Relies on uuid::Uuid::new_v4 (and its hyphenated display form): a
/// freshly drawn random request id. Two calls may differ; nothing is
/// assumed of the value.
#[verifier::external_body]
pub fn new_request_id() -> (r: String) {
    uuid::Uuid::new_v4().to_string()
}

/// Relies on chrono::Utc::now and DateTime::to_rfc3339: the present
/// time, at second precision, in timezone-qualified text. Depends on the
/// clock; nothing is assumed of the value.
#[verifier::external_body]
pub fn now_rfc3339() -> (r: String) {
    match chrono::Utc::now().with_nanosecond(0) {
        Some(t) => t.to_rfc3339(),
        None => chrono::Utc::now().to_rfc3339(),
    }
}

/// The logical timer behind a transport token; unrecognized tokens are
/// rejected before this is consulted.
pub open spec fn timer_of_token(token: u64) -> TimerId {
    if token == HEARTBEAT_TOKEN {
        TimerId::Heartbeat
    } else {
        TimerId::StopTransaction
    }
}

/// What a piece of wire text decodes to, end to end: parsed by the
/// outside library, then taken apart as an envelope.
pub open spec fn decoded_of(t: Seq<char>) -> Option<FrameModel> {
    match json_of(t) {
        Some(j) => frame_of(j),
        None => None,
    }
}

impl Client {
    /// Connection open, with the request id drawn from the id source:
    /// sends the boot request.
    pub fn on_open(&mut self, model: &str, vendor: &str, serial: Option<String>) -> (cmds: Vec<
        Command,
    >)
        ensures
            exists|boot_id: Seq<char>|
                final(self)@ == step_open(
                    old(self)@,
                    boot_id,
                    model@,
                    vendor@,
                    opt_view(serial),
                ).0 && cmds_m(cmds@) == step_open(
                    old(self)@,
                    boot_id,
                    model@,
                    vendor@,
                    opt_view(serial),
                ).1,
    {
        let ghost serial_m = opt_view(serial);
        let boot_id = new_request_id();
        let ghost b = boot_id@;
        let cmds = self.handle_open(boot_id, model, vendor, serial);
        proof {
            assert(self@ == step_open(old(self)@, b, model@, vendor@, serial_m).0 && cmds_m(
                cmds@,
            ) == step_open(old(self)@, b, model@, vendor@, serial_m).1);
        }
        cmds
    }

    /// One inbound message, as wire text. Malformed text - not parseable,
    /// or no well-formed envelope - is rejected and changes nothing; the
    /// caller is expected to terminate the connection on that error.
    pub fn on_message(&mut self, text: &str) -> (r: Result<Vec<Command>, SessionError>)
        ensures
            r is Ok <==> decoded_of(text@) is Some,
            r matches Err(e) ==> e == SessionError::MalformedFrame && final(self)@ == old(self)@,
            r matches Ok(cmds) ==> (decoded_of(text@) matches Some(fm) && exists|
                sid: Seq<char>,
                tid: Seq<char>,
                stid: Seq<char>,
                ts: Seq<char>,
            |
                final(self)@ == step_frame(old(self)@, fm, sid, tid, stid, ts).0 && cmds_m(cmds@)
                    == step_frame(old(self)@, fm, sid, tid, stid, ts).1),
    {
        let parsed = match parse_json(text) {
            Some(j) => j,
            None => {
                return Err(SessionError::MalformedFrame);
            },
        };
        let frame = match decode(parsed) {
            Ok(f) => f,
            Err(_) => {
                return Err(SessionError::MalformedFrame);
            },
        };
        let ghost fm = frame@;
        let status_id = new_request_id();
        let tx_id = new_request_id();
        let start_id = new_request_id();
        let ts = now_rfc3339();
        let ghost g = (status_id@, tx_id@, start_id@, ts@);
        let cmds = self.handle_frame(frame, status_id, tx_id, start_id, ts.as_str());
        proof {
            assert(decoded_of(text@) == Some(fm));
            assert(self@ == step_frame(old(self)@, fm, g.0, g.1, g.2, g.3).0 && cmds_m(cmds@)
                == step_frame(old(self)@, fm, g.0, g.1, g.2, g.3).1);
        }
        Ok(cmds)
    }

    /// A timer token delivered by the transport. An unrecognized token is
    /// an engine defect and is surfaced as the distinct internal fault.
    pub fn on_timeout(&mut self, token: u64) -> (r: Result<Vec<Command>, SessionError>)
        ensures
            r is Ok <==> (token == HEARTBEAT_TOKEN || token == STOP_TRANSACTION_TOKEN),
            r matches Err(e) ==> e == SessionError::InternalTimerFault && final(self)@ == old(
                self,
            )@,
            r matches Ok(cmds) ==> exists|fresh_id: Seq<char>, ts: Seq<char>|
                final(self)@ == (#[trigger] step_timeout(
                    old(self)@,
                    timer_of_token(token),
                    fresh_id,
                    ts,
                )).0 && cmds_m(cmds@) == step_timeout(
                    old(self)@,
                    timer_of_token(token),
                    fresh_id,
                    ts,
                ).1,
    {
        let timer = if token == HEARTBEAT_TOKEN {
            TimerId::Heartbeat
        } else if token == STOP_TRANSACTION_TOKEN {
            TimerId::StopTransaction
        } else {
            return Err(SessionError::InternalTimerFault);
        };
        let fresh_id = new_request_id();
        let ts = now_rfc3339();
        let ghost g = (fresh_id@, ts@);
        let cmds = self.handle_timeout(timer, fresh_id, ts.as_str());
        proof {
            assert(self@ == step_timeout(old(self)@, timer, g.0, g.1).0 && cmds_m(cmds@)
                == step_timeout(old(self)@, timer, g.0, g.1).1);
        }
        Ok(cmds)
    }
}

} // verus!
