use station_emulator::codec::Frame;
use station_emulator::requests::{
    boot_notification_payload, heartbeat_payload, start_transaction_payload,
    status_notification_payload, stop_transaction_payload,
};
use station_emulator::session::{Client, Command, SessionError, SessionState, TimerId};
use station_emulator::value::Json;

const TS: &str = "2024-05-01T12:00:00+00:00";

fn s(x: &str) -> String {
    x.to_string()
}

fn booted_client() -> Client {
    let mut client = Client::new(s("ST-1"));
    let cmds = client.handle_open(s("boot-1"), "ModelX", "VendorY", None);
    assert_eq!(cmds.len(), 1);
    client
}

fn boot_reply(fields: Vec<(String, Json)>) -> Frame {
    Frame::CallResult { msg_id: s("boot-1"), payload: Json::Obj(fields) }
}

fn action_of(cmd: &Command) -> String {
    match cmd {
        Command::Send { frame: Json::Arr(elems) } => match &elems[2] {
            Json::Str(a) => a.clone(),
            _ => panic!("action element is not a string"),
        },
        _ => panic!("not a send command"),
    }
}

#[test]
fn open_sends_and_tracks_the_boot_request() {
    let mut client = Client::new(s("ST-1"));
    let cmds = client.handle_open(s("boot-1"), "ModelX", "VendorY", Some(s("SN-5")));
    assert_eq!(cmds.len(), 1);
    assert_eq!(action_of(&cmds[0]), "BootNotification");
    assert!(client.has_pending("boot-1"));
    assert_eq!(client.state(), SessionState::AwaitingBootResult);
    assert_eq!(
        cmds[0],
        Command::Send {
            frame: Json::Arr(vec![
                Json::Int(2),
                Json::Str(s("boot-1")),
                Json::Str(s("BootNotification")),
                boot_notification_payload("PowerUp", "ModelX", "VendorY", Some(s("SN-5")), "ST-1"),
            ])
        }
    );
}

#[test]
fn accepted_boot_arms_heartbeat_and_sends_status_then_start() {
    let mut client = booted_client();
    let reply = boot_reply(vec![
        (s("status"), Json::Str(s("Accepted"))),
        (s("interval"), Json::Int(10)),
    ]);
    let cmds = client.handle_frame(reply, s("st-1"), s("tx-1"), s("sa-1"), TS);
    assert_eq!(cmds.len(), 3);
    assert_eq!(cmds[0], Command::Arm { timer: TimerId::Heartbeat, delay_ms: 10000 });
    assert_eq!(action_of(&cmds[1]), "StatusNotification");
    assert_eq!(action_of(&cmds[2]), "StartTransaction");
    assert_eq!(client.heartbeat_interval_ms(), 10000);
    assert_eq!(client.state(), SessionState::Operating);
    assert_eq!(client.active_transaction(), Some(s("tx-1")));
    assert!(!client.has_pending("boot-1"));
    assert!(client.has_pending("st-1"));
    assert!(client.has_pending("sa-1"));
}

#[test]
fn accepted_boot_without_interval_defaults_to_thirty_seconds() {
    let mut client = booted_client();
    let reply = boot_reply(vec![(s("status"), Json::Str(s("Accepted")))]);
    let cmds = client.handle_frame(reply, s("st-1"), s("tx-1"), s("sa-1"), TS);
    assert_eq!(cmds[0], Command::Arm { timer: TimerId::Heartbeat, delay_ms: 30000 });
    assert_eq!(client.heartbeat_interval_ms(), 30000);
}

#[test]
fn accepted_boot_with_zero_interval_arms_nothing() {
    let mut client = booted_client();
    let reply = boot_reply(vec![
        (s("status"), Json::Str(s("Accepted"))),
        (s("interval"), Json::Int(0)),
    ]);
    let cmds = client.handle_frame(reply, s("st-1"), s("tx-1"), s("sa-1"), TS);
    assert_eq!(cmds.len(), 2);
    assert_eq!(action_of(&cmds[0]), "StatusNotification");
    assert_eq!(action_of(&cmds[1]), "StartTransaction");
    assert_eq!(client.heartbeat_interval_ms(), 0);
}

#[test]
fn rejected_boot_sends_nothing_and_arms_nothing() {
    let mut client = booted_client();
    let reply = boot_reply(vec![(s("status"), Json::Str(s("Rejected")))]);
    let cmds = client.handle_frame(reply, s("st-1"), s("tx-1"), s("sa-1"), TS);
    assert!(cmds.is_empty());
    assert_eq!(client.heartbeat_interval_ms(), 0);
    assert_eq!(client.active_transaction(), None);
    assert_eq!(client.state(), SessionState::AwaitingBootResult);
    assert!(!client.has_pending("boot-1"));
}

#[test]
fn start_reply_adopts_backend_transaction_id_and_arms_stop() {
    let mut client = booted_client();
    let accept = boot_reply(vec![(s("status"), Json::Str(s("Accepted")))]);
    client.handle_frame(accept, s("st-1"), s("tx-1"), s("sa-1"), TS);
    let reply = Frame::CallResult {
        msg_id: s("sa-1"),
        payload: Json::Obj(vec![(s("transactionId"), Json::Str(s("abc")))]),
    };
    let cmds = client.handle_frame(reply, s("x1"), s("x2"), s("x3"), TS);
    assert_eq!(cmds, vec![Command::Arm { timer: TimerId::StopTransaction, delay_ms: 5000 }]);
    assert_eq!(client.active_transaction(), Some(s("abc")));
}

#[test]
fn stop_timer_sends_stop_transaction_and_clears_it() {
    let mut client = booted_client();
    let accept = boot_reply(vec![(s("status"), Json::Str(s("Accepted")))]);
    client.handle_frame(accept, s("st-1"), s("tx-1"), s("sa-1"), TS);
    let reply = Frame::CallResult {
        msg_id: s("sa-1"),
        payload: Json::Obj(vec![(s("transactionId"), Json::Str(s("abc")))]),
    };
    client.handle_frame(reply, s("x1"), s("x2"), s("x3"), TS);
    let cmds = client.handle_timeout(TimerId::StopTransaction, s("stop-1"), TS);
    assert_eq!(cmds.len(), 1);
    assert_eq!(action_of(&cmds[0]), "StopTransaction");
    assert_eq!(
        cmds[0],
        Command::Send {
            frame: Json::Arr(vec![
                Json::Int(2),
                Json::Str(s("stop-1")),
                Json::Str(s("StopTransaction")),
                stop_transaction_payload("ST-1", "abc", "TAG-001", 150, "Local", TS),
            ])
        }
    );
    assert_eq!(client.active_transaction(), None);
}

#[test]
fn stop_timer_without_transaction_is_a_no_op() {
    let mut client = booted_client();
    let cmds = client.handle_timeout(TimerId::StopTransaction, s("stop-1"), TS);
    assert!(cmds.is_empty());
}

#[test]
fn heartbeat_timer_sends_and_rearms_at_the_stored_interval() {
    let mut client = booted_client();
    let accept = boot_reply(vec![
        (s("status"), Json::Str(s("Accepted"))),
        (s("interval"), Json::Int(7)),
    ]);
    client.handle_frame(accept, s("st-1"), s("tx-1"), s("sa-1"), TS);
    let cmds = client.handle_timeout(TimerId::Heartbeat, s("hb-1"), TS);
    assert_eq!(cmds.len(), 2);
    assert_eq!(action_of(&cmds[0]), "Heartbeat");
    assert_eq!(cmds[1], Command::Arm { timer: TimerId::Heartbeat, delay_ms: 7000 });
    assert!(client.has_pending("hb-1"));
}

#[test]
fn error_frame_for_untracked_id_only_logs() {
    let mut client = booted_client();
    let frame = Frame::CallError {
        msg_id: s("unknown-id"),
        code: s("NotSupported"),
        description: s("reason"),
    };
    let cmds = client.handle_frame(frame, s("x1"), s("x2"), s("x3"), TS);
    assert_eq!(
        cmds,
        vec![Command::LogError { code: s("NotSupported"), description: s("reason") }]
    );
    assert_eq!(client.state(), SessionState::AwaitingBootResult);
    assert_eq!(client.active_transaction(), None);
    assert_eq!(client.heartbeat_interval_ms(), 0);
    assert!(client.has_pending("boot-1"));
}

#[test]
fn error_frame_resolves_a_tracked_id() {
    let mut client = booted_client();
    assert!(client.has_pending("boot-1"));
    let frame = Frame::CallError {
        msg_id: s("boot-1"),
        code: s("InternalError"),
        description: s("boom"),
    };
    client.handle_frame(frame, s("x1"), s("x2"), s("x3"), TS);
    assert!(!client.has_pending("boot-1"));
}

#[test]
fn replies_resolve_each_id_at_most_once() {
    let mut client = booted_client();
    let reply = boot_reply(vec![(s("status"), Json::Str(s("Rejected")))]);
    let cmds = client.handle_frame(reply, s("st-1"), s("tx-1"), s("sa-1"), TS);
    assert!(cmds.is_empty());
    assert!(!client.has_pending("boot-1"));
    let again = boot_reply(vec![(s("status"), Json::Str(s("Accepted")))]);
    let cmds2 = client.handle_frame(again, s("st-1"), s("tx-1"), s("sa-1"), TS);
    assert!(cmds2.is_empty());
    assert_eq!(client.heartbeat_interval_ms(), 0);
}

#[test]
fn inbound_calls_are_ignored() {
    let mut client = booted_client();
    let frame = Frame::Call {
        msg_id: s("c-1"),
        action: s("Reset"),
        payload: Json::Obj(vec![]),
    };
    let cmds = client.handle_frame(frame, s("x1"), s("x2"), s("x3"), TS);
    assert!(cmds.is_empty());
    assert_eq!(client.state(), SessionState::AwaitingBootResult);
}

#[test]
fn close_moves_the_session_to_closed() {
    let mut client = booted_client();
    client.handle_close();
    assert_eq!(client.state(), SessionState::Closed);
}

#[test]
fn on_message_accepts_wire_text_and_rejects_malformed_text() {
    let mut client = booted_client();
    let r = client.on_message("[3, \"boot-1\", {\"status\": \"Rejected\"}]");
    assert_eq!(r.map(|c| c.len()), Ok(0));
    assert!(!client.has_pending("boot-1"));
    assert_eq!(client.on_message("not json"), Err(SessionError::MalformedFrame));
    assert_eq!(client.on_message("{}"), Err(SessionError::MalformedFrame));
    assert_eq!(client.on_message("[5, \"x\", {}]"), Err(SessionError::MalformedFrame));
}

#[test]
fn on_message_drives_a_boot_acceptance() {
    let mut client = booted_client();
    let r = client.on_message("[3, \"boot-1\", {\"status\": \"Accepted\", \"interval\": 10}]");
    let cmds = r.expect("well-formed reply");
    assert_eq!(cmds.len(), 3);
    assert_eq!(cmds[0], Command::Arm { timer: TimerId::Heartbeat, delay_ms: 10000 });
    assert_eq!(action_of(&cmds[1]), "StatusNotification");
    assert_eq!(action_of(&cmds[2]), "StartTransaction");
    assert_eq!(client.heartbeat_interval_ms(), 10000);
}

#[test]
fn on_timeout_rejects_unknown_tokens() {
    let mut client = booted_client();
    assert_eq!(client.on_timeout(9), Err(SessionError::InternalTimerFault));
    let hb = client.on_timeout(1).expect("heartbeat token");
    assert_eq!(action_of(&hb[0]), "Heartbeat");
    let stop = client.on_timeout(2).expect("stop token");
    assert!(stop.is_empty());
}

#[test]
fn payload_builders_produce_the_documented_fields() {
    assert_eq!(
        boot_notification_payload("PowerUp", "M", "V", None, "ST"),
        Json::Obj(vec![
            (s("reason"), Json::Str(s("PowerUp"))),
            (
                s("chargingStation"),
                Json::Obj(vec![
                    (s("model"), Json::Str(s("M"))),
                    (s("vendorName"), Json::Str(s("V"))),
                ])
            ),
            (s("stationId"), Json::Str(s("ST"))),
        ])
    );
    assert_eq!(
        status_notification_payload("ST", 1, "Available", TS),
        Json::Obj(vec![
            (s("timestamp"), Json::Str(s(TS))),
            (s("connectorStatus"), Json::Str(s("Available"))),
            (s("connectorId"), Json::Int(1)),
            (s("stationId"), Json::Str(s("ST"))),
        ])
    );
    assert_eq!(heartbeat_payload(), Json::Obj(vec![]));
    assert_eq!(
        start_transaction_payload("ST", 1, "tx", "TAG-001", 0, TS),
        Json::Obj(vec![
            (s("stationId"), Json::Str(s("ST"))),
            (s("connectorId"), Json::Int(1)),
            (s("transactionId"), Json::Str(s("tx"))),
            (s("idTag"), Json::Str(s("TAG-001"))),
            (s("meterStart"), Json::Int(0)),
            (s("timestamp"), Json::Str(s(TS))),
        ])
    );
    assert_eq!(
        stop_transaction_payload("ST", "tx", "TAG-001", 150, "Local", TS),
        Json::Obj(vec![
            (s("stationId"), Json::Str(s("ST"))),
            (s("transactionId"), Json::Str(s("tx"))),
            (s("idTag"), Json::Str(s("TAG-001"))),
            (s("meterStop"), Json::Int(150)),
            (s("timestamp"), Json::Str(s(TS))),
            (s("reason"), Json::Str(s("Local"))),
        ])
    );
}

#[test]
fn negative_or_missing_interval_falls_back_to_the_default() {
    let mut client = booted_client();
    let reply = boot_reply(vec![
        (s("status"), Json::Str(s("Accepted"))),
        (s("interval"), Json::Int(-4)),
    ]);
    client.handle_frame(reply, s("st-1"), s("tx-1"), s("sa-1"), TS);
    assert_eq!(client.heartbeat_interval_ms(), 30000);
}
