use vstd::prelude::*;

use crate::value::{jmodel, jmodel_seq, lemma_jmodel_seq, Json, JsonModel};

verus! {

/// One wire message, after the envelope has been taken apart: a request
/// (`Call`), a successful reply (`CallResult`), or a failed reply
/// (`CallError`).
#[derive(Debug, PartialEq, Eq)]
pub enum Frame {
    Call { msg_id: String, action: String, payload: Json },
    CallResult { msg_id: String, payload: Json },
    CallError { msg_id: String, code: String, description: String },
}

/// The mathematical model of a frame.
#[verifier::ext_equal]
pub enum FrameModel {
    Call { msg_id: Seq<char>, action: Seq<char>, payload: JsonModel },
    CallResult { msg_id: Seq<char>, payload: JsonModel },
    CallError { msg_id: Seq<char>, code: Seq<char>, description: Seq<char> },
}

impl View for Frame {
    type V = FrameModel;

    open spec fn view(&self) -> FrameModel {
        match *self {
            Frame::Call { msg_id, action, payload } => FrameModel::Call {
                msg_id: msg_id@,
                action: action@,
                payload: jmodel(payload),
            },
            Frame::CallResult { msg_id, payload } => FrameModel::CallResult {
                msg_id: msg_id@,
                payload: jmodel(payload),
            },
            Frame::CallError { msg_id, code, description } => FrameModel::CallError {
                msg_id: msg_id@,
                code: code@,
                description: description@,
            },
        }
    }
}

/// Decoding failure: the value is not a well-formed envelope of any kind.
/// Any structural fault yields this one error; decoding never partially
/// succeeds.
#[derive(Debug, Clone, Copy, PartialEq, Eq, Structural)]
pub enum DecodeError {
    MalformedFrame,
}

/// The envelope of a request: `[2, msg_id, action, payload]`.
pub open spec fn call_wire(msg_id: Seq<char>, action: Seq<char>, payload: JsonModel) -> JsonModel {
    JsonModel::Arr(
        seq![
            JsonModel::Int(2),
            JsonModel::Str(msg_id),
            JsonModel::Str(action),
            payload,
        ],
    )
}

/// What a wire value decodes to: the frame, or `None` when the value is
/// not an array, its discriminant is absent or unrecognized, or the
/// element count or element kinds do not fit the discriminant.
pub open spec fn frame_of(j: JsonModel) -> Option<FrameModel> {
    match j {
        JsonModel::Arr(elems) => {
            if elems.len() == 4 && elems[0] == JsonModel::Int(2) && elems[1] is Str && elems[2]
                is Str {
                Some(
                    FrameModel::Call {
                        msg_id: elems[1]->Str_0,
                        action: elems[2]->Str_0,
                        payload: elems[3],
                    },
                )
            } else if elems.len() == 3 && elems[0] == JsonModel::Int(3) && elems[1] is Str {
                Some(FrameModel::CallResult { msg_id: elems[1]->Str_0, payload: elems[2] })
            } else if elems.len() == 4 && elems[0] == JsonModel::Int(4) && elems[1] is Str
                && elems[2] is Str && elems[3] is Str {
                Some(
                    FrameModel::CallError {
                        msg_id: elems[1]->Str_0,
                        code: elems[2]->Str_0,
                        description: elems[3]->Str_0,
                    },
                )
            } else {
                None
            }
        },
        _ => None,
    }
}

/// Builds the wire value of a request envelope.
pub fn wrap_call(msg_id: &str, action: &str, payload: Json) -> (r: Json)
    ensures
        r@ == call_wire(msg_id@, action@, jmodel(payload)),
{
    let mut items: Vec<Json> = Vec::new();
    items.push(Json::Int(2));
    items.push(Json::Str(msg_id.to_owned()));
    items.push(Json::Str(action.to_owned()));
    items.push(payload);
    let r = Json::Arr(items);
    proof {
        lemma_jmodel_seq(r->Arr_0@);
        assert(jmodel_seq(r->Arr_0@) =~= call_wire(msg_id@, action@, jmodel(payload))->Arr_0);
        assert(r@ =~= call_wire(msg_id@, action@, jmodel(payload)));
    }
    r
}

/// Takes a wire value apart into a frame, or reports it malformed.
pub fn decode(v: Json) -> (r: Result<Frame, DecodeError>)
    ensures
        match r {
            Ok(f) => frame_of(jmodel(v)) == Some(f@),
            Err(e) => frame_of(jmodel(v)) is None && e == DecodeError::MalformedFrame,
        },
{
    let mut elems = match v {
        Json::Arr(e) => e,
        _ => { return Err(DecodeError::MalformedFrame) },
    };
    proof {
        lemma_jmodel_seq(elems@);
    }
    let n = elems.len();
    let kind: i64 = if n > 0 {
        match &elems[0] {
            Json::Int(k) => *k,
            _ => { return Err(DecodeError::MalformedFrame) },
        }
    } else {
        return Err(DecodeError::MalformedFrame);
    };
    if kind == 2 && n == 4 {
        let payload = elems.pop().unwrap();
        let action_v = elems.pop().unwrap();
        let id_v = elems.pop().unwrap();
        match (id_v, action_v) {
            (Json::Str(msg_id), Json::Str(action)) => Ok(Frame::Call { msg_id, action, payload }),
            _ => Err(DecodeError::MalformedFrame),
        }
    } else if kind == 3 && n == 3 {
        let payload = elems.pop().unwrap();
        let id_v = elems.pop().unwrap();
        match id_v {
            Json::Str(msg_id) => Ok(Frame::CallResult { msg_id, payload }),
            _ => Err(DecodeError::MalformedFrame),
        }
    } else if kind == 4 && n == 4 {
        let desc_v = elems.pop().unwrap();
        let code_v = elems.pop().unwrap();
        let id_v = elems.pop().unwrap();
        match (id_v, code_v, desc_v) {
            (Json::Str(msg_id), Json::Str(code), Json::Str(description)) => Ok(
                Frame::CallError { msg_id, code, description },
            ),
            _ => Err(DecodeError::MalformedFrame),
        }
    } else {
        Err(DecodeError::MalformedFrame)
    }
}

/// Decoding inverts encoding: the envelope built for a request decodes
/// back to a request frame with the same id, action and payload.
pub proof fn lemma_decode_inverts_encode(msg_id: Seq<char>, action: Seq<char>, payload: JsonModel)
    ensures
        frame_of(call_wire(msg_id, action, payload)) == Some(
            FrameModel::Call { msg_id, action, payload },
        ),
{
}

} // verus!
