use vstd::prelude::*;

use crate::codec::{call_wire, wrap_call, Frame, FrameModel};
use crate::requests::{
    boot_notification_payload, boot_notification_payload_m, heartbeat_payload,
    heartbeat_payload_m, opt_view, start_transaction_payload, start_transaction_payload_m,
    status_notification_payload, status_notification_payload_m, stop_transaction_payload,
    stop_transaction_payload_m,
};
use crate::tracker::CorrelationTracker;
use crate::value::{jlookup, jmodel, Json, JsonModel};

verus! {

/// The connector the emulated station reports on.
pub const DEFAULT_CONNECTOR_ID: u8 = 1;

/// The meter reading sent with a transaction start.
pub const DEFAULT_METER_START: i64 = 0;

/// The meter reading sent with a transaction stop.
pub const DEFAULT_METER_STOP: i64 = 150;

/// Delay before an open transaction is stopped, in milliseconds.
pub const DEFAULT_STOP_AFTER_MS: u64 = 5000;

/// The two logical timers the session uses.
#[derive(Clone, Copy, PartialEq, Eq, Structural, Debug)]
pub enum TimerId {
    Heartbeat,
    StopTransaction,
}

/// The phases of one session, in the order they are normally reached.
#[derive(Clone, Copy, PartialEq, Eq, Structural, Debug)]
pub enum SessionState {
    Connecting,
    AwaitingBootResult,
    Operating,
    Closed,
}

/// The faults the engine can report: inbound text with no well-formed
/// frame in it (the connection is no longer trustworthy), and a timer
/// token the engine does not recognize (an engine defect, distinct from
/// any protocol or network error).
#[derive(Debug, Clone, Copy, PartialEq, Eq, Structural)]
pub enum SessionError {
    MalformedFrame,
    InternalTimerFault,
}

/// What the engine asks the surrounding transport layer to do in
/// response to an event: send a frame, arm a timer, or log a backend
/// error. The engine never performs these effects itself.
#[derive(Debug, PartialEq, Eq)]
pub enum Command {
    Send { frame: Json },
    Arm { timer: TimerId, delay_ms: u64 },
    LogError { code: String, description: String },
}

/// The mathematical model of a command.
#[verifier::ext_equal]
pub enum CommandModel {
    Send { frame: JsonModel },
    Arm { timer: TimerId, delay_ms: u64 },
    LogError { code: Seq<char>, description: Seq<char> },
}

impl View for Command {
    type V = CommandModel;

    open spec fn view(&self) -> CommandModel {
        match *self {
            Command::Send { frame } => CommandModel::Send { frame: jmodel(frame) },
            Command::Arm { timer, delay_ms } => CommandModel::Arm { timer, delay_ms },
            Command::LogError { code, description } => CommandModel::LogError {
                code: code@,
                description: description@,
            },
        }
    }
}

/// The models of a sequence of commands, in order.
pub open spec fn cmds_m(s: Seq<Command>) -> Seq<CommandModel> {
    Seq::new(s.len(), |i: int| s[i]@)
}

/// The mathematical model of a session.
#[verifier::ext_equal]
pub struct ClientModel {
    pub station_id: Seq<char>,
    pub heartbeat_interval_ms: u64,
    pub active_transaction: Option<Seq<char>>,
    pub sent_actions: Map<Seq<char>, Seq<char>>,
    pub state: SessionState,
}

/// One charge-point session: the station identity, the heartbeat
/// interval learned from the boot reply, the transaction currently open
/// (if any), the pending-request table, and the phase reached.
pub struct Client {
    station_id: String,
    heartbeat_interval_ms: u64,
    active_transaction: Option<String>,
    sent_actions: CorrelationTracker,
    state: SessionState,
}

impl View for Client {
    type V = ClientModel;

    closed spec fn view(&self) -> ClientModel {
        ClientModel {
            station_id: self.station_id@,
            heartbeat_interval_ms: self.heartbeat_interval_ms,
            active_transaction: opt_view(self.active_transaction),
            sent_actions: self.sent_actions@,
            state: self.state,
        }
    }
}

/// Whether a boot reply accepts the registration: its `status` field is
/// the string `Accepted`.
pub open spec fn boot_accepted(payload: JsonModel) -> bool {
    jlookup(payload, "status"@) == Some(JsonModel::Str("Accepted"@))
}

/// The heartbeat interval in seconds carried by a boot reply: its
/// `interval` field when that is a non-negative number, else the default
/// of 30.
pub open spec fn boot_interval_s(payload: JsonModel) -> u64 {
    match jlookup(payload, "interval"@) {
        Some(JsonModel::Int(i)) => if 0 <= i {
            i as u64
        } else {
            30
        },
        _ => 30,
    }
}

/// Seconds turned into milliseconds, saturating at the top of `u64`.
pub open spec fn sat_ms_of_s(x: u64) -> u64 {
    if x > u64::MAX / 1000 {
        u64::MAX
    } else {
        (x * 1000) as u64
    }
}

/// The transaction id carried by a start reply, if any.
pub open spec fn tx_id_of(payload: JsonModel) -> Option<Seq<char>> {
    match jlookup(payload, "transactionId"@) {
        Some(JsonModel::Str(t)) => Some(t),
        _ => None,
    }
}

/// Connection open: send and track the boot request, and await its
/// reply.
pub open spec fn step_open(
    s: ClientModel,
    boot_id: Seq<char>,
    model: Seq<char>,
    vendor: Seq<char>,
    serial: Option<Seq<char>>,
) -> (ClientModel, Seq<CommandModel>) {
    let frame = call_wire(
        boot_id,
        "BootNotification"@,
        boot_notification_payload_m("PowerUp"@, model, vendor, serial, s.station_id),
    );
    (
        ClientModel {
            sent_actions: s.sent_actions.insert(boot_id, "BootNotification"@),
            state: SessionState::AwaitingBootResult,
            ..s
        },
        seq![CommandModel::Send { frame }],
    )
}

/// A successful reply: resolve it against the pending table; an
/// untracked id is ignored. A boot acceptance stores the heartbeat
/// interval, arms the heartbeat when it is positive, reports the
/// connector available and opens a transaction. A start reply adopts the
/// backend's transaction id and arms the one-shot stop timer. Every
/// other resolved action needs no follow-up.
pub open spec fn step_result(
    s: ClientModel,
    msg_id: Seq<char>,
    payload: JsonModel,
    status_id: Seq<char>,
    tx_id: Seq<char>,
    start_id: Seq<char>,
    ts: Seq<char>,
) -> (ClientModel, Seq<CommandModel>) {
    if !s.sent_actions.contains_key(msg_id) {
        (s, Seq::<CommandModel>::empty())
    } else {
        let action = s.sent_actions[msg_id];
        let s1 = ClientModel { sent_actions: s.sent_actions.remove(msg_id), ..s };
        if action == "BootNotification"@ {
            if boot_accepted(payload) {
                let hb = sat_ms_of_s(boot_interval_s(payload));
                let status_frame = call_wire(
                    status_id,
                    "StatusNotification"@,
                    status_notification_payload_m(
                        s.station_id,
                        DEFAULT_CONNECTOR_ID,
                        "Available"@,
                        ts,
                    ),
                );
                let start_frame = call_wire(
                    start_id,
                    "StartTransaction"@,
                    start_transaction_payload_m(
                        s.station_id,
                        DEFAULT_CONNECTOR_ID,
                        tx_id,
                        "TAG-001"@,
                        DEFAULT_METER_START,
                        ts,
                    ),
                );
                let s2 = ClientModel {
                    heartbeat_interval_ms: hb,
                    active_transaction: Some(tx_id),
                    sent_actions: s1.sent_actions.insert(status_id, "StatusNotification"@).insert(
                        start_id,
                        "StartTransaction"@,
                    ),
                    state: SessionState::Operating,
                    ..s1
                };
                let arm = if hb > 0 {
                    seq![CommandModel::Arm { timer: TimerId::Heartbeat, delay_ms: hb }]
                } else {
                    Seq::<CommandModel>::empty()
                };
                (
                    s2,
                    arm + seq![
                        CommandModel::Send { frame: status_frame },
                        CommandModel::Send { frame: start_frame },
                    ],
                )
            } else {
                (s1, Seq::<CommandModel>::empty())
            }
        } else if action == "StartTransaction"@ {
            let s2 = match tx_id_of(payload) {
                Some(t) => ClientModel { active_transaction: Some(t), ..s1 },
                None => s1,
            };
            if s2.active_transaction is Some {
                (
                    s2,
                    seq![
                        CommandModel::Arm {
                            timer: TimerId::StopTransaction,
                            delay_ms: DEFAULT_STOP_AFTER_MS,
                        },
                    ],
                )
            } else {
                (s2, Seq::<CommandModel>::empty())
            }
        } else {
            (s1, Seq::<CommandModel>::empty())
        }
    }
}

/// A failed reply: resolve it against the pending table and log it; no
/// other state changes, no retry.
pub open spec fn step_error(
    s: ClientModel,
    msg_id: Seq<char>,
    code: Seq<char>,
    description: Seq<char>,
) -> (ClientModel, Seq<CommandModel>) {
    let s1 = if s.sent_actions.contains_key(msg_id) {
        ClientModel { sent_actions: s.sent_actions.remove(msg_id), ..s }
    } else {
        s
    };
    (s1, seq![CommandModel::LogError { code, description }])
}

/// One inbound frame: a reply is dispatched by kind; a backend-initiated
/// request is ignored entirely.
pub open spec fn step_frame(
    s: ClientModel,
    frame: FrameModel,
    status_id: Seq<char>,
    tx_id: Seq<char>,
    start_id: Seq<char>,
    ts: Seq<char>,
) -> (ClientModel, Seq<CommandModel>) {
    match frame {
        FrameModel::CallResult { msg_id, payload } => step_result(
            s,
            msg_id,
            payload,
            status_id,
            tx_id,
            start_id,
            ts,
        ),
        FrameModel::CallError { msg_id, code, description } => step_error(
            s,
            msg_id,
            code,
            description,
        ),
        FrameModel::Call { .. } => (s, Seq::<CommandModel>::empty()),
    }
}

/// A timer firing. Heartbeat: send and track a heartbeat, then rearm for
/// the same interval while it is positive. Stop: when a transaction is
/// open, send and track its stop request and clear it; otherwise nothing.
pub open spec fn step_timeout(
    s: ClientModel,
    timer: TimerId,
    fresh_id: Seq<char>,
    ts: Seq<char>,
) -> (ClientModel, Seq<CommandModel>) {
    match timer {
        TimerId::Heartbeat => {
            let frame = call_wire(fresh_id, "Heartbeat"@, heartbeat_payload_m());
            let s1 = ClientModel {
                sent_actions: s.sent_actions.insert(fresh_id, "Heartbeat"@),
                ..s
            };
            let rearm = if s.heartbeat_interval_ms > 0 {
                seq![
                    CommandModel::Arm {
                        timer: TimerId::Heartbeat,
                        delay_ms: s.heartbeat_interval_ms,
                    },
                ]
            } else {
                Seq::<CommandModel>::empty()
            };
            (s1, seq![CommandModel::Send { frame }] + rearm)
        },
        TimerId::StopTransaction => {
            match s.active_transaction {
                Some(t) => {
                    let frame = call_wire(
                        fresh_id,
                        "StopTransaction"@,
                        stop_transaction_payload_m(
                            s.station_id,
                            t,
                            "TAG-001"@,
                            DEFAULT_METER_STOP,
                            "Local"@,
                            ts,
                        ),
                    );
                    (
                        ClientModel {
                            active_transaction: None,
                            sent_actions: s.sent_actions.insert(fresh_id, "StopTransaction"@),
                            ..s
                        },
                        seq![CommandModel::Send { frame }],
                    )
                },
                None => (s, Seq::<CommandModel>::empty()),
            }
        },
    }
}

/// Transport close or error: the session is over; pending timers and
/// requests are abandoned.
pub open spec fn step_close(s: ClientModel) -> ClientModel {
    ClientModel { state: SessionState::Closed, ..s }
}

impl Client {
    /// A fresh session for one connection, before anything was sent.
    pub fn new(station_id: String) -> (r: Self)
        ensures
            r@ == (ClientModel {
                station_id: station_id@,
                heartbeat_interval_ms: 0,
                active_transaction: None,
                sent_actions: Map::<Seq<char>, Seq<char>>::empty(),
                state: SessionState::Connecting,
            }),
    {
        let r = Client {
            station_id,
            heartbeat_interval_ms: 0,
            active_transaction: None,
            sent_actions: CorrelationTracker::new(),
            state: SessionState::Connecting,
        };
        proof {
            assert(r@ =~= (ClientModel {
                station_id: r.station_id@,
                heartbeat_interval_ms: 0,
                active_transaction: None,
                sent_actions: Map::<Seq<char>, Seq<char>>::empty(),
                state: SessionState::Connecting,
            }));
        }
        r
    }

    /// Builds the request envelope for an action and registers the id as
    /// pending, returning the send command.
    fn send_and_track(&mut self, msg_id: String, action: &str, payload: Json) -> (c: Command)
        ensures
            final(self)@ == (ClientModel {
                sent_actions: old(self)@.sent_actions.insert(msg_id@, action@),
                ..old(self)@
            }),
            c@ == (CommandModel::Send {
                frame: call_wire(msg_id@, action@, jmodel(payload)),
            }),
    {
        let frame = wrap_call(msg_id.as_str(), action, payload);
        self.sent_actions.track(msg_id, action.to_owned());
        let c = Command::Send { frame };
        proof {
            assert(self@ =~= (ClientModel {
                sent_actions: old(self)@.sent_actions.insert(msg_id@, action@),
                ..old(self)@
            }));
        }
        c
    }

    /// Connection open: sends the boot request.
    pub fn handle_open(
        &mut self,
        boot_id: String,
        model: &str,
        vendor: &str,
        serial: Option<String>,
    ) -> (cmds: Vec<Command>)
        ensures
            final(self)@ == step_open(old(self)@, boot_id@, model@, vendor@, opt_view(serial)).0,
            cmds_m(cmds@) == step_open(old(self)@, boot_id@, model@, vendor@, opt_view(serial)).1,
    {
        let ghost pre = self@;
        let ghost serial_m = opt_view(serial);
        let payload = boot_notification_payload(
            "PowerUp",
            model,
            vendor,
            serial,
            self.station_id.as_str(),
        );
        let c = self.send_and_track(boot_id, "BootNotification", payload);
        self.state = SessionState::AwaitingBootResult;
        let mut cmds: Vec<Command> = Vec::new();
        cmds.push(c);
        proof {
            assert(self@ =~= step_open(pre, boot_id@, model@, vendor@, serial_m).0);
            assert(cmds_m(cmds@) =~= step_open(pre, boot_id@, model@, vendor@, serial_m).1);
        }
        cmds
    }

    /// A successful reply.
    fn handle_result(
        &mut self,
        msg_id: String,
        payload: Json,
        status_id: String,
        tx_id: String,
        start_id: String,
        ts: &str,
    ) -> (cmds: Vec<Command>)
        ensures
            final(self)@ == step_result(
                old(self)@,
                msg_id@,
                jmodel(payload),
                status_id@,
                tx_id@,
                start_id@,
                ts@,
            ).0,
            cmds_m(cmds@) == step_result(
                old(self)@,
                msg_id@,
                jmodel(payload),
                status_id@,
                tx_id@,
                start_id@,
                ts@,
            ).1,
    {
        let ghost pre = self@;
        let ghost pm = jmodel(payload);
        let resolved = self.sent_actions.resolve(msg_id.as_str());
        let action = match resolved {
            Some(a) => a,
            None => {
                let cmds: Vec<Command> = Vec::new();
                proof {
                    assert(cmds_m(cmds@) =~= Seq::<CommandModel>::empty());
                    assert(self@ =~= pre);
                }
                return cmds;
            },
        };
        let ghost s1 = ClientModel { sent_actions: pre.sent_actions.remove(msg_id@), ..pre };
        proof {
            assert(self@ =~= s1);
        }
        if crate::value::str_eq(action.as_str(), "BootNotification") {
            let accepted = match payload.get_field("status") {
                Some(v) => match v {
                    Json::Str(st) => crate::value::str_eq(st.as_str(), "Accepted"),
                    _ => false,
                },
                None => false,
            };
            proof {
                assert(accepted == boot_accepted(pm));
            }
            if !accepted {
                let cmds: Vec<Command> = Vec::new();
                proof {
                    assert(cmds_m(cmds@) =~= Seq::<CommandModel>::empty());
                }
                return cmds;
            }
            let interval_s: u64 = match payload.get_field("interval") {
                Some(v) => match v {
                    Json::Int(i) => if *i >= 0 {
                        *i as u64
                    } else {
                        30
                    },
                    _ => 30,
                },
                None => 30,
            };
            proof {
                assert(interval_s == boot_interval_s(pm));
            }
            let hb: u64 = if interval_s > u64::MAX / 1000 {
                u64::MAX
            } else {
                interval_s * 1000
            };
            self.heartbeat_interval_ms = hb;
            let mut cmds: Vec<Command> = Vec::new();
            if hb > 0 {
                cmds.push(Command::Arm { timer: TimerId::Heartbeat, delay_ms: hb });
            }
            let status_payload = status_notification_payload(
                self.station_id.as_str(),
                DEFAULT_CONNECTOR_ID,
                "Available",
                ts,
            );
            let c1 = self.send_and_track(status_id, "StatusNotification", status_payload);
            cmds.push(c1);
            self.active_transaction = Some(tx_id.clone());
            let start_payload = start_transaction_payload(
                self.station_id.as_str(),
                DEFAULT_CONNECTOR_ID,
                tx_id.as_str(),
                "TAG-001",
                DEFAULT_METER_START,
                ts,
            );
            let c2 = self.send_and_track(start_id, "StartTransaction", start_payload);
            cmds.push(c2);
            self.state = SessionState::Operating;
            proof {
                let post = step_result(pre, msg_id@, pm, status_id@, tx_id@, start_id@, ts@);
                assert(self@ =~= post.0);
                assert(cmds_m(cmds@) =~= post.1);
            }
            cmds
        } else if crate::value::str_eq(action.as_str(), "StartTransaction") {
            match payload.get_field("transactionId") {
                Some(v) => match v {
                    Json::Str(t) => {
                        self.active_transaction = Some(t.clone());
                    },
                    _ => (),
                },
                None => (),
            }
            let mut cmds: Vec<Command> = Vec::new();
            if self.active_transaction.is_some() {
                cmds.push(
                    Command::Arm {
                        timer: TimerId::StopTransaction,
                        delay_ms: DEFAULT_STOP_AFTER_MS,
                    },
                );
            }
            proof {
                let post = step_result(pre, msg_id@, pm, status_id@, tx_id@, start_id@, ts@);
                assert(self@ =~= post.0);
                assert(cmds_m(cmds@) =~= post.1);
            }
            cmds
        } else {
            let cmds: Vec<Command> = Vec::new();
            proof {
                assert(cmds_m(cmds@) =~= Seq::<CommandModel>::empty());
            }
            cmds
        }
    }

    /// One inbound frame, already decoded. The three id arguments and the
    /// timestamp are used only where the dispatch needs them: fresh ids
    /// for the requests a boot acceptance sends and for the transaction
    /// it opens.
    pub fn handle_frame(
        &mut self,
        frame: Frame,
        status_id: String,
        tx_id: String,
        start_id: String,
        ts: &str,
    ) -> (cmds: Vec<Command>)
        ensures
            final(self)@ == step_frame(old(self)@, frame@, status_id@, tx_id@, start_id@, ts@).0,
            cmds_m(cmds@) == step_frame(old(self)@, frame@, status_id@, tx_id@, start_id@, ts@).1,
    {
        match frame {
            Frame::CallResult { msg_id, payload } => self.handle_result(
                msg_id,
                payload,
                status_id,
                tx_id,
                start_id,
                ts,
            ),
            Frame::CallError { msg_id, code, description } => {
                let _ = self.sent_actions.resolve(msg_id.as_str());
                let mut cmds: Vec<Command> = Vec::new();
                cmds.push(Command::LogError { code, description });
                proof {
                    let post = step_frame(
                        old(self)@,
                        frame@,
                        status_id@,
                        tx_id@,
                        start_id@,
                        ts@,
                    );
                    assert(self@ =~= post.0);
                    assert(cmds_m(cmds@) =~= post.1);
                }
                cmds
            },
            Frame::Call { .. } => {
                let cmds: Vec<Command> = Vec::new();
                proof {
                    assert(cmds_m(cmds@) =~= Seq::<CommandModel>::empty());
                }
                cmds
            },
        }
    }

    /// A timer firing.
    pub fn handle_timeout(&mut self, timer: TimerId, fresh_id: String, ts: &str) -> (cmds: Vec<
        Command,
    >)
        ensures
            final(self)@ == step_timeout(old(self)@, timer, fresh_id@, ts@).0,
            cmds_m(cmds@) == step_timeout(old(self)@, timer, fresh_id@, ts@).1,
    {
        let ghost pre = self@;
        match timer {
            TimerId::Heartbeat => {
                let hb = self.heartbeat_interval_ms;
                let payload = heartbeat_payload();
                let c = self.send_and_track(fresh_id, "Heartbeat", payload);
                let mut cmds: Vec<Command> = Vec::new();
                cmds.push(c);
                if hb > 0 {
                    cmds.push(Command::Arm { timer: TimerId::Heartbeat, delay_ms: hb });
                }
                proof {
                    let post = step_timeout(pre, timer, fresh_id@, ts@);
                    assert(self@ =~= post.0);
                    assert(cmds_m(cmds@) =~= post.1);
                }
                cmds
            },
            TimerId::StopTransaction => {
                let tx = match &self.active_transaction {
                    Some(t) => t.clone(),
                    None => {
                        let cmds: Vec<Command> = Vec::new();
                        proof {
                            assert(cmds_m(cmds@) =~= Seq::<CommandModel>::empty());
                            assert(self@ =~= pre);
                        }
                        return cmds;
                    },
                };
                let payload = stop_transaction_payload(
                    self.station_id.as_str(),
                    tx.as_str(),
                    "TAG-001",
                    DEFAULT_METER_STOP,
                    "Local",
                    ts,
                );
                let c = self.send_and_track(fresh_id, "StopTransaction", payload);
                self.active_transaction = None;
                let mut cmds: Vec<Command> = Vec::new();
                cmds.push(c);
                proof {
                    let post = step_timeout(pre, timer, fresh_id@, ts@);
                    assert(self@ =~= post.0);
                    assert(cmds_m(cmds@) =~= post.1);
                }
                cmds
            },
        }
    }

    /// Transport close or error.
    pub fn handle_close(&mut self)
        ensures
            final(self)@ == step_close(old(self)@),
    {
        self.state = SessionState::Closed;
        proof {
            assert(self@ =~= step_close(old(self)@));
        }
    }

    /// The heartbeat interval in force, in milliseconds; 0 disables the
    /// heartbeat.
    pub fn heartbeat_interval_ms(&self) -> (r: u64)
        ensures
            r == self@.heartbeat_interval_ms,
    {
        self.heartbeat_interval_ms
    }

    /// The id of the transaction currently open, if any.
    pub fn active_transaction(&self) -> (r: Option<String>)
        ensures
            opt_view(r) == self@.active_transaction,
    {
        match &self.active_transaction {
            Some(t) => Some(t.clone()),
            None => None,
        }
    }

    /// The phase the session has reached.
    pub fn state(&self) -> (r: SessionState)
        ensures
            r == self@.state,
    {
        self.state
    }

    /// Whether a request id is still awaiting its reply.
    pub fn has_pending(&self, id: &str) -> (r: bool)
        ensures
            r == self@.sent_actions.contains_key(id@),
    {
        self.sent_actions.contains(id)
    }
}

} // verus!
