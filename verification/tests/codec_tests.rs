use station_emulator::codec::{decode, wrap_call, DecodeError, Frame};
use station_emulator::value::Json;
use station_emulator::wire::{parse_json, to_wire_text};

fn s(x: &str) -> String {
    x.to_string()
}

fn sample_payload() -> Json {
    Json::Obj(vec![
        (s("status"), Json::Str(s("Accepted"))),
        (s("interval"), Json::Int(10)),
    ])
}

#[test]
fn encode_then_decode_gives_back_the_call() {
    let frame = wrap_call("id-1", "BootNotification", sample_payload());
    let decoded = decode(frame);
    assert_eq!(
        decoded,
        Ok(Frame::Call {
            msg_id: s("id-1"),
            action: s("BootNotification"),
            payload: sample_payload(),
        })
    );
}

#[test]
fn wrap_call_builds_the_four_element_envelope() {
    let frame = wrap_call("id-9", "Heartbeat", Json::Obj(vec![]));
    assert_eq!(
        frame,
        Json::Arr(vec![
            Json::Int(2),
            Json::Str(s("id-9")),
            Json::Str(s("Heartbeat")),
            Json::Obj(vec![]),
        ])
    );
}

#[test]
fn decode_reads_a_result_frame() {
    let v = Json::Arr(vec![Json::Int(3), Json::Str(s("id-2")), sample_payload()]);
    assert_eq!(
        decode(v),
        Ok(Frame::CallResult { msg_id: s("id-2"), payload: sample_payload() })
    );
}

#[test]
fn decode_reads_an_error_frame() {
    let v = Json::Arr(vec![
        Json::Int(4),
        Json::Str(s("id-3")),
        Json::Str(s("NotSupported")),
        Json::Str(s("reason")),
    ]);
    assert_eq!(
        decode(v),
        Ok(Frame::CallError {
            msg_id: s("id-3"),
            code: s("NotSupported"),
            description: s("reason"),
        })
    );
}

#[test]
fn decode_rejects_non_arrays() {
    assert_eq!(decode(Json::Obj(vec![])), Err(DecodeError::MalformedFrame));
    assert_eq!(decode(Json::Null), Err(DecodeError::MalformedFrame));
}

#[test]
fn decode_rejects_unrecognized_discriminants() {
    let v = Json::Arr(vec![Json::Int(5), Json::Str(s("id")), Json::Null]);
    assert_eq!(decode(v), Err(DecodeError::MalformedFrame));
    let w = Json::Arr(vec![Json::Str(s("2")), Json::Str(s("id")), Json::Null]);
    assert_eq!(decode(w), Err(DecodeError::MalformedFrame));
}

#[test]
fn decode_rejects_wrong_element_counts() {
    let v = Json::Arr(vec![Json::Int(2), Json::Str(s("id")), Json::Str(s("A"))]);
    assert_eq!(decode(v), Err(DecodeError::MalformedFrame));
    let w = Json::Arr(vec![Json::Int(3), Json::Str(s("id"))]);
    assert_eq!(decode(w), Err(DecodeError::MalformedFrame));
    let e = Json::Arr(vec![Json::Int(4), Json::Str(s("id")), Json::Str(s("c"))]);
    assert_eq!(decode(e), Err(DecodeError::MalformedFrame));
}

#[test]
fn decode_rejects_non_string_ids() {
    let v = Json::Arr(vec![Json::Int(3), Json::Int(7), Json::Null]);
    assert_eq!(decode(v), Err(DecodeError::MalformedFrame));
}

#[test]
fn wire_text_round_trips_through_the_json_library() {
    let frame = wrap_call("id-7", "StatusNotification", sample_payload());
    let text = to_wire_text(&frame);
    let parsed = parse_json(&text);
    assert_eq!(parsed, Some(wrap_call("id-7", "StatusNotification", sample_payload())));
}

#[test]
fn parse_json_reads_wire_text() {
    let parsed = parse_json("[3, \"abc\", {\"interval\": 10}]");
    assert_eq!(
        parsed,
        Some(Json::Arr(vec![
            Json::Int(3),
            Json::Str(s("abc")),
            Json::Obj(vec![(s("interval"), Json::Int(10))]),
        ]))
    );
    assert_eq!(parse_json("not json"), None);
}
