use vstd::prelude::*;

use crate::codec::{call_wire, FrameModel};
use crate::requests::stop_transaction_payload_m;
use crate::session::{
    boot_accepted, boot_interval_s, sat_ms_of_s, step_frame, step_open, step_result,
    step_timeout, tx_id_of, ClientModel, CommandModel, TimerId, DEFAULT_METER_STOP,
    DEFAULT_STOP_AFTER_MS,
};
use crate::value::JsonModel;

verus! {

/// The action names of the requests a command sequence sends, in order.
pub open spec fn send_actions(cmds: Seq<CommandModel>) -> Seq<Seq<char>>
    decreases cmds.len(),
{
    if cmds.len() == 0 {
        Seq::empty()
    } else {
        let rest = send_actions(cmds.subrange(1, cmds.len() as int));
        match cmds[0] {
            CommandModel::Send { frame } => seq![call_action(frame)] + rest,
            _ => rest,
        }
    }
}

/// The action field of a request envelope; empty for anything else.
pub open spec fn call_action(frame: JsonModel) -> Seq<char> {
    match frame {
        JsonModel::Arr(elems) => if elems.len() == 4 {
            match elems[2] {
                JsonModel::Str(a) => a,
                _ => Seq::empty(),
            }
        } else {
            Seq::empty()
        },
        _ => Seq::empty(),
    }
}

/// The delays of the heartbeat arms in a command sequence, in order.
pub open spec fn heartbeat_arm_delays(cmds: Seq<CommandModel>) -> Seq<u64>
    decreases cmds.len(),
{
    if cmds.len() == 0 {
        Seq::empty()
    } else {
        let rest = heartbeat_arm_delays(cmds.subrange(1, cmds.len() as int));
        match cmds[0] {
            CommandModel::Arm { timer: TimerId::Heartbeat, delay_ms } => seq![delay_ms] + rest,
            _ => rest,
        }
    }
}

proof fn lemma_send_actions_cons(c: CommandModel, rest: Seq<CommandModel>)
    ensures
        (c matches CommandModel::Send { frame } ==> send_actions(seq![c] + rest) == seq![
            call_action(frame),
        ] + send_actions(rest)),
        !(c is Send) ==> send_actions(seq![c] + rest) == send_actions(rest),
        (c matches CommandModel::Arm { timer: TimerId::Heartbeat, delay_ms } ==>
            heartbeat_arm_delays(seq![c] + rest) == seq![delay_ms] + heartbeat_arm_delays(rest)),
        !(c matches CommandModel::Arm { timer: TimerId::Heartbeat, .. }) ==> heartbeat_arm_delays(
            seq![c] + rest,
        ) == heartbeat_arm_delays(rest),
{
    let whole = seq![c] + rest;
    assert(whole.len() == 1 + rest.len());
    assert(whole[0] == c);
    assert(whole.subrange(1, whole.len() as int) =~= rest);
}

proof fn lemma_send_actions_empty()
    ensures
        send_actions(Seq::<CommandModel>::empty()) == Seq::<Seq<char>>::empty(),
        heartbeat_arm_delays(Seq::<CommandModel>::empty()) == Seq::<u64>::empty(),
{
}

/// Law: an accepted boot reply emits exactly one `StatusNotification`
/// and exactly one `StartTransaction` request, in that order, and
/// nothing else is sent by that step.
pub proof fn lemma_boot_acceptance_sends_status_then_start(
    s: ClientModel,
    msg_id: Seq<char>,
    payload: JsonModel,
    status_id: Seq<char>,
    tx_id: Seq<char>,
    start_id: Seq<char>,
    ts: Seq<char>,
)
    requires
        s.sent_actions.contains_key(msg_id),
        s.sent_actions[msg_id] == "BootNotification"@,
        boot_accepted(payload),
    ensures
        send_actions(step_result(s, msg_id, payload, status_id, tx_id, start_id, ts).1) == seq![
            "StatusNotification"@,
            "StartTransaction"@,
        ],
{
    let cmds = step_result(s, msg_id, payload, status_id, tx_id, start_id, ts).1;
    let hb = sat_ms_of_s(boot_interval_s(payload));
    let sf = cmds[cmds.len() - 2]->Send_frame;
    let stf = cmds[cmds.len() - 1]->Send_frame;
    let tail = seq![
        CommandModel::Send { frame: sf },
        CommandModel::Send { frame: stf },
    ];
    lemma_send_actions_empty();
    assert(tail.subrange(1, 2) =~= seq![CommandModel::Send { frame: stf }]);
    lemma_send_actions_cons(CommandModel::Send { frame: stf }, Seq::empty());
    assert(seq![CommandModel::Send { frame: stf }] + Seq::<CommandModel>::empty() =~= tail
        .subrange(1, 2));
    lemma_send_actions_cons(CommandModel::Send { frame: sf }, tail.subrange(1, 2));
    assert(seq![CommandModel::Send { frame: sf }] + tail.subrange(1, 2) =~= tail);
    assert(send_actions(tail) == seq![call_action(sf), call_action(stf)] + Seq::<
        Seq<char>,
    >::empty());
    assert(call_action(sf) == "StatusNotification"@);
    assert(call_action(stf) == "StartTransaction"@);
    if hb > 0 {
        let arm = CommandModel::Arm { timer: TimerId::Heartbeat, delay_ms: hb };
        assert(cmds =~= seq![arm] + tail);
        lemma_send_actions_cons(arm, tail);
        assert(send_actions(cmds) =~= seq!["StatusNotification"@, "StartTransaction"@]);
    } else {
        assert(cmds =~= tail);
        assert(send_actions(cmds) =~= seq!["StatusNotification"@, "StartTransaction"@]);
    }
}

/// Law: after an accepted boot reply the session stores the computed
/// interval, and the step arms the heartbeat exactly once for exactly
/// that interval when it is positive, and never when it is zero.
pub proof fn lemma_boot_acceptance_heartbeat_arming(
    s: ClientModel,
    msg_id: Seq<char>,
    payload: JsonModel,
    status_id: Seq<char>,
    tx_id: Seq<char>,
    start_id: Seq<char>,
    ts: Seq<char>,
)
    requires
        s.sent_actions.contains_key(msg_id),
        s.sent_actions[msg_id] == "BootNotification"@,
        boot_accepted(payload),
    ensures
        ({
            let (s2, cmds) = step_result(s, msg_id, payload, status_id, tx_id, start_id, ts);
            let hb = sat_ms_of_s(boot_interval_s(payload));
            s2.heartbeat_interval_ms == hb && heartbeat_arm_delays(cmds) == (if hb > 0 {
                seq![hb]
            } else {
                Seq::<u64>::empty()
            })
        }),
{
    let cmds = step_result(s, msg_id, payload, status_id, tx_id, start_id, ts).1;
    let hb = sat_ms_of_s(boot_interval_s(payload));
    let sf = cmds[cmds.len() - 2]->Send_frame;
    let stf = cmds[cmds.len() - 1]->Send_frame;
    let tail = seq![
        CommandModel::Send { frame: sf },
        CommandModel::Send { frame: stf },
    ];
    lemma_send_actions_empty();
    assert(tail.subrange(1, 2) =~= seq![CommandModel::Send { frame: stf }]);
    lemma_send_actions_cons(CommandModel::Send { frame: stf }, Seq::empty());
    assert(seq![CommandModel::Send { frame: stf }] + Seq::<CommandModel>::empty() =~= tail
        .subrange(1, 2));
    lemma_send_actions_cons(CommandModel::Send { frame: sf }, tail.subrange(1, 2));
    assert(seq![CommandModel::Send { frame: sf }] + tail.subrange(1, 2) =~= tail);
    assert(heartbeat_arm_delays(tail) == Seq::<u64>::empty());
    if hb > 0 {
        let arm = CommandModel::Arm { timer: TimerId::Heartbeat, delay_ms: hb };
        assert(cmds =~= seq![arm] + tail);
        lemma_send_actions_cons(arm, tail);
        assert(heartbeat_arm_delays(cmds) =~= seq![hb]);
    } else {
        assert(cmds =~= tail);
        assert(heartbeat_arm_delays(cmds) =~= Seq::<u64>::empty());
    }
}

/// Law: each heartbeat firing keeps the stored interval, and rearms the
/// heartbeat exactly once for exactly that interval while it is
/// positive - so a positive interval rearms forever at that exact
/// interval, and an interval of zero is never armed again.
pub proof fn lemma_heartbeat_rearms_at_stored_interval(
    s: ClientModel,
    fresh_id: Seq<char>,
    ts: Seq<char>,
)
    ensures
        ({
            let (s2, cmds) = step_timeout(s, TimerId::Heartbeat, fresh_id, ts);
            s2.heartbeat_interval_ms == s.heartbeat_interval_ms && heartbeat_arm_delays(cmds) == (
            if s.heartbeat_interval_ms > 0 {
                seq![s.heartbeat_interval_ms]
            } else {
                Seq::<u64>::empty()
            })
        }),
{
    let cmds = step_timeout(s, TimerId::Heartbeat, fresh_id, ts).1;
    let sf = cmds[0]->Send_frame;
    lemma_send_actions_empty();
    if s.heartbeat_interval_ms > 0 {
        let arm = CommandModel::Arm {
            timer: TimerId::Heartbeat,
            delay_ms: s.heartbeat_interval_ms,
        };
        assert(seq![arm] + Seq::<CommandModel>::empty() =~= seq![arm]);
        lemma_send_actions_cons(arm, Seq::empty());
        assert(heartbeat_arm_delays(seq![arm]) =~= seq![s.heartbeat_interval_ms]);
        assert(cmds =~= seq![CommandModel::Send { frame: sf }] + seq![arm]);
        lemma_send_actions_cons(CommandModel::Send { frame: sf }, seq![arm]);
        assert(heartbeat_arm_delays(cmds) =~= seq![s.heartbeat_interval_ms]);
    } else {
        assert(cmds =~= seq![CommandModel::Send { frame: sf }] + Seq::<CommandModel>::empty());
        lemma_send_actions_cons(CommandModel::Send { frame: sf }, Seq::empty());
        assert(heartbeat_arm_delays(cmds) =~= Seq::<u64>::empty());
    }
}

/// Law: no step other than a boot acceptance arms the heartbeat timer or
/// changes the stored interval; with the two lemmas above, a session
/// whose interval is zero after boot never sees the heartbeat armed.
pub proof fn lemma_only_boot_acceptance_arms_heartbeat(
    s: ClientModel,
    frame: FrameModel,
    status_id: Seq<char>,
    tx_id: Seq<char>,
    start_id: Seq<char>,
    ts: Seq<char>,
)
    requires
        !(frame matches FrameModel::CallResult { msg_id, payload } && s.sent_actions.contains_key(
            msg_id,
        ) && s.sent_actions[msg_id] == "BootNotification"@ && boot_accepted(payload)),
    ensures
        ({
            let (s2, cmds) = step_frame(s, frame, status_id, tx_id, start_id, ts);
            s2.heartbeat_interval_ms == s.heartbeat_interval_ms && heartbeat_arm_delays(cmds)
                == Seq::<u64>::empty()
        }),
{
    let cmds = step_frame(s, frame, status_id, tx_id, start_id, ts).1;
    lemma_send_actions_empty();
    match frame {
        FrameModel::CallResult { msg_id, payload } => {
            if s.sent_actions.contains_key(msg_id) {
                let action = s.sent_actions[msg_id];
                if action == "StartTransaction"@ {
                    if cmds.len() > 0 {
                        let arm = CommandModel::Arm {
                            timer: TimerId::StopTransaction,
                            delay_ms: DEFAULT_STOP_AFTER_MS,
                        };
                        assert(cmds =~= seq![arm] + Seq::<CommandModel>::empty());
                        lemma_send_actions_cons(arm, Seq::empty());
                    }
                }
            }
        },
        FrameModel::CallError { msg_id, code, description } => {
            let c = CommandModel::LogError { code, description };
            assert(cmds =~= seq![c] + Seq::<CommandModel>::empty());
            lemma_send_actions_cons(c, Seq::empty());
        },
        FrameModel::Call { .. } => {},
    }
}

/// Law: a `StartTransaction` reply that carries a transaction id makes
/// it the active transaction and arms the stop timer exactly once, for
/// the fixed delay; the stop timer firing then sends exactly one
/// `StopTransaction` request and clears the active transaction.
pub proof fn lemma_start_reply_adopts_id_and_arms_stop(
    s: ClientModel,
    msg_id: Seq<char>,
    payload: JsonModel,
    status_id: Seq<char>,
    tx_id: Seq<char>,
    start_id: Seq<char>,
    ts: Seq<char>,
)
    requires
        s.sent_actions.contains_key(msg_id),
        s.sent_actions[msg_id] == "StartTransaction"@,
        tx_id_of(payload) is Some,
    ensures
        ({
            let (s2, cmds) = step_result(s, msg_id, payload, status_id, tx_id, start_id, ts);
            s2.active_transaction == tx_id_of(payload) && cmds == seq![
                CommandModel::Arm {
                    timer: TimerId::StopTransaction,
                    delay_ms: DEFAULT_STOP_AFTER_MS,
                },
            ]
        }),
{
    reveal_strlit("BootNotification");
    reveal_strlit("StartTransaction");
    assert("StartTransaction"@[0] == 'S' && "BootNotification"@[0] == 'B');
    assert("StartTransaction"@ != "BootNotification"@);
}

/// Law: the stop timer firing on an open transaction sends exactly one
/// `StopTransaction` request and clears the active transaction; on a
/// session with no open transaction it does nothing.
pub proof fn lemma_stop_firing_closes_transaction(
    s: ClientModel,
    fresh_id: Seq<char>,
    ts: Seq<char>,
)
    ensures
        s.active_transaction matches Some(t) ==> ({
            let (s2, cmds) = step_timeout(s, TimerId::StopTransaction, fresh_id, ts);
            s2.active_transaction is None && send_actions(cmds) == seq!["StopTransaction"@]
                && heartbeat_arm_delays(cmds) == Seq::<u64>::empty() && cmds == seq![
                CommandModel::Send {
                    frame: call_wire(
                        fresh_id,
                        "StopTransaction"@,
                        stop_transaction_payload_m(
                            s.station_id,
                            t,
                            "TAG-001"@,
                            DEFAULT_METER_STOP,
                            "Local"@,
                            ts,
                        ),
                    ),
                },
            ]
        }),
        s.active_transaction is None ==> step_timeout(s, TimerId::StopTransaction, fresh_id, ts)
            == (s, Seq::<CommandModel>::empty()),
{
    lemma_send_actions_empty();
    if s.active_transaction is Some {
        let cmds = step_timeout(s, TimerId::StopTransaction, fresh_id, ts).1;
        let sf = cmds[0]->Send_frame;
        assert(cmds =~= seq![CommandModel::Send { frame: sf }] + Seq::<CommandModel>::empty());
        lemma_send_actions_cons(CommandModel::Send { frame: sf }, Seq::empty());
        assert(call_action(sf) == "StopTransaction"@);
        assert(send_actions(cmds) =~= seq!["StopTransaction"@]);
        assert(cmds =~= seq![CommandModel::Send { frame: sf }]);
    }
}

/// Law: a matching reply removes exactly one entry from the pending
/// table, and a second resolution of the same id finds nothing and
/// changes nothing.
pub proof fn lemma_reply_resolves_exactly_once(m: Map<Seq<char>, Seq<char>>, id: Seq<char>)
    requires
        m.dom().finite(),
        m.contains_key(id),
    ensures
        m.remove(id).dom().len() == m.dom().len() - 1,
        !m.remove(id).contains_key(id),
        m.remove(id).remove(id) == m.remove(id),
{
    m.lemma_remove_key_len(id);
    assert(m.remove(id).remove(id) =~= m.remove(id));
}

/// Law: opening the connection sends exactly one request, the boot
/// request, and arms nothing.
pub proof fn lemma_open_sends_only_boot(
    s: ClientModel,
    boot_id: Seq<char>,
    model: Seq<char>,
    vendor: Seq<char>,
    serial: Option<Seq<char>>,
)
    ensures
        ({
            let (s2, cmds) = step_open(s, boot_id, model, vendor, serial);
            send_actions(cmds) == seq!["BootNotification"@] && heartbeat_arm_delays(cmds)
                == Seq::<u64>::empty() && s2.heartbeat_interval_ms == s.heartbeat_interval_ms
        }),
{
    let cmds = step_open(s, boot_id, model, vendor, serial).1;
    let sf = cmds[0]->Send_frame;
    lemma_send_actions_empty();
    assert(cmds =~= seq![CommandModel::Send { frame: sf }] + Seq::<CommandModel>::empty());
    lemma_send_actions_cons(CommandModel::Send { frame: sf }, Seq::empty());
    assert(call_action(sf) == "BootNotification"@);
    assert(send_actions(cmds) =~= seq!["BootNotification"@]);
    assert(heartbeat_arm_delays(cmds) =~= Seq::<u64>::empty());
}

} // verus!
