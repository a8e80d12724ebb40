use vstd::prelude::*;

use crate::value::{jmodel, jmodel_fields, lemma_jmodel_fields, Json, JsonModel};

verus! {

/// The character sequence of an optional string.
pub open spec fn opt_view(o: Option<String>) -> Option<Seq<char>> {
    match o {
        Some(s) => Some(s@),
        None => None,
    }
}

/// The boot payload: reason, the charging station's model, vendor name
/// and optional serial number, and the station id.
pub open spec fn boot_notification_payload_m(
    reason: Seq<char>,
    model: Seq<char>,
    vendor_name: Seq<char>,
    serial_number: Option<Seq<char>>,
    station_id: Seq<char>,
) -> JsonModel {
    let station = match serial_number {
        Some(sn) => JsonModel::Obj(
            seq![
                ("model"@, JsonModel::Str(model)),
                ("vendorName"@, JsonModel::Str(vendor_name)),
                ("serialNumber"@, JsonModel::Str(sn)),
            ],
        ),
        None => JsonModel::Obj(
            seq![
                ("model"@, JsonModel::Str(model)),
                ("vendorName"@, JsonModel::Str(vendor_name)),
            ],
        ),
    };
    JsonModel::Obj(
        seq![
            ("reason"@, JsonModel::Str(reason)),
            ("chargingStation"@, station),
            ("stationId"@, JsonModel::Str(station_id)),
        ],
    )
}

/// Builds the payload of a `BootNotification` request.
pub fn boot_notification_payload(
    reason: &str,
    model: &str,
    vendor_name: &str,
    serial_number: Option<String>,
    station_id: &str,
) -> (r: Json)
    ensures
        r@ == boot_notification_payload_m(
            reason@,
            model@,
            vendor_name@,
            opt_view(serial_number),
            station_id@,
        ),
{
    let ghost sn_m = opt_view(serial_number);
    let mut station: Vec<(String, Json)> = Vec::new();
    station.push(("model".to_owned(), Json::Str(model.to_owned())));
    station.push(("vendorName".to_owned(), Json::Str(vendor_name.to_owned())));
    match serial_number {
        Some(sn) => station.push(("serialNumber".to_owned(), Json::Str(sn))),
        None => (),
    }
    let station_v = Json::Obj(station);
    let ghost sv_m = jmodel(station_v);
    let ghost target = boot_notification_payload_m(
        reason@,
        model@,
        vendor_name@,
        sn_m,
        station_id@,
    );
    proof {
        let sfs = station_v->Obj_0@;
        lemma_jmodel_fields(sfs);
        assert(jmodel_fields(sfs)[0] == ("model"@, JsonModel::Str(model@)));
        assert(jmodel_fields(sfs)[1] == ("vendorName"@, JsonModel::Str(vendor_name@)));
        match sn_m {
            Some(snq) => {
                assert(jmodel_fields(sfs)[2] == ("serialNumber"@, JsonModel::Str(snq)));
                assert(jmodel_fields(sfs) =~~= target->Obj_0[1].1->Obj_0);
            },
            None => {
                assert(jmodel_fields(sfs) =~~= target->Obj_0[1].1->Obj_0);
            },
        }
        assert(sv_m =~~= target->Obj_0[1].1);
    }
    let mut fields: Vec<(String, Json)> = Vec::new();
    fields.push(("reason".to_owned(), Json::Str(reason.to_owned())));
    fields.push(("chargingStation".to_owned(), station_v));
    fields.push(("stationId".to_owned(), Json::Str(station_id.to_owned())));
    let r = Json::Obj(fields);
    proof {
        lemma_jmodel_fields(r->Obj_0@);
        assert(jmodel_fields(r->Obj_0@)[0] == ("reason"@, JsonModel::Str(reason@)));
        assert(jmodel_fields(r->Obj_0@)[1] == ("chargingStation"@, sv_m));
        assert(jmodel_fields(r->Obj_0@)[2] == ("stationId"@, JsonModel::Str(station_id@)));
        assert(jmodel_fields(r->Obj_0@) =~~= target->Obj_0);
        assert(r@ =~~= target);
    }
    r
}

/// The status payload: timestamp, connector status, connector id and
/// station id.
pub open spec fn status_notification_payload_m(
    station_id: Seq<char>,
    connector_id: u8,
    status: Seq<char>,
    timestamp: Seq<char>,
) -> JsonModel {
    JsonModel::Obj(
        seq![
            ("timestamp"@, JsonModel::Str(timestamp)),
            ("connectorStatus"@, JsonModel::Str(status)),
            ("connectorId"@, JsonModel::Int(connector_id as int)),
            ("stationId"@, JsonModel::Str(station_id)),
        ],
    )
}

/// Builds the payload of a `StatusNotification` request.
pub fn status_notification_payload(
    station_id: &str,
    connector_id: u8,
    status: &str,
    timestamp: &str,
) -> (r: Json)
    ensures
        r@ == status_notification_payload_m(station_id@, connector_id, status@, timestamp@),
{
    let mut fields: Vec<(String, Json)> = Vec::new();
    fields.push(("timestamp".to_owned(), Json::Str(timestamp.to_owned())));
    fields.push(("connectorStatus".to_owned(), Json::Str(status.to_owned())));
    fields.push(("connectorId".to_owned(), Json::Int(connector_id as i64)));
    fields.push(("stationId".to_owned(), Json::Str(station_id.to_owned())));
    let r = Json::Obj(fields);
    proof {
        lemma_jmodel_fields(r->Obj_0@);
        assert(jmodel_fields(r->Obj_0@)[0] == ("timestamp"@, JsonModel::Str(timestamp@)));
        assert(jmodel_fields(r->Obj_0@)[1] == ("connectorStatus"@, JsonModel::Str(status@)));
        assert(jmodel_fields(r->Obj_0@)[2] == ("connectorId"@, JsonModel::Int(connector_id as int)));
        assert(jmodel_fields(r->Obj_0@)[3] == ("stationId"@, JsonModel::Str(station_id@)));
        assert(jmodel_fields(r->Obj_0@) =~~= status_notification_payload_m(
            station_id@,
            connector_id,
            status@,
            timestamp@,
        )->Obj_0);
        assert(r@ =~~= status_notification_payload_m(
            station_id@,
            connector_id,
            status@,
            timestamp@,
        ));
    }
    r
}

/// The heartbeat payload: an empty object.
pub open spec fn heartbeat_payload_m() -> JsonModel {
    JsonModel::Obj(Seq::empty())
}

/// Builds the payload of a `Heartbeat` request.
pub fn heartbeat_payload() -> (r: Json)
    ensures
        r@ == heartbeat_payload_m(),
{
    let fields: Vec<(String, Json)> = Vec::new();
    let r = Json::Obj(fields);
    proof {
        lemma_jmodel_fields(r->Obj_0@);
        assert(r@ =~~= heartbeat_payload_m());
    }
    r
}

/// The start payload: station id, connector id, transaction id, identity
/// tag, starting meter value and timestamp.
pub open spec fn start_transaction_payload_m(
    station_id: Seq<char>,
    connector_id: u8,
    transaction_id: Seq<char>,
    id_tag: Seq<char>,
    meter_start: i64,
    timestamp: Seq<char>,
) -> JsonModel {
    JsonModel::Obj(
        seq![
            ("stationId"@, JsonModel::Str(station_id)),
            ("connectorId"@, JsonModel::Int(connector_id as int)),
            ("transactionId"@, JsonModel::Str(transaction_id)),
            ("idTag"@, JsonModel::Str(id_tag)),
            ("meterStart"@, JsonModel::Int(meter_start as int)),
            ("timestamp"@, JsonModel::Str(timestamp)),
        ],
    )
}

/// Builds the payload of a `StartTransaction` request.
pub fn start_transaction_payload(
    station_id: &str,
    connector_id: u8,
    transaction_id: &str,
    id_tag: &str,
    meter_start: i64,
    timestamp: &str,
) -> (r: Json)
    ensures
        r@ == start_transaction_payload_m(
            station_id@,
            connector_id,
            transaction_id@,
            id_tag@,
            meter_start,
            timestamp@,
        ),
{
    let mut fields: Vec<(String, Json)> = Vec::new();
    fields.push(("stationId".to_owned(), Json::Str(station_id.to_owned())));
    fields.push(("connectorId".to_owned(), Json::Int(connector_id as i64)));
    fields.push(("transactionId".to_owned(), Json::Str(transaction_id.to_owned())));
    fields.push(("idTag".to_owned(), Json::Str(id_tag.to_owned())));
    fields.push(("meterStart".to_owned(), Json::Int(meter_start)));
    fields.push(("timestamp".to_owned(), Json::Str(timestamp.to_owned())));
    let r = Json::Obj(fields);
    proof {
        let ghost target = start_transaction_payload_m(
            station_id@,
            connector_id,
            transaction_id@,
            id_tag@,
            meter_start,
            timestamp@,
        );
        lemma_jmodel_fields(r->Obj_0@);
        assert(jmodel_fields(r->Obj_0@)[0] == ("stationId"@, JsonModel::Str(station_id@)));
        assert(jmodel_fields(r->Obj_0@)[1] == (
            "connectorId"@,
            JsonModel::Int(connector_id as int),
        ));
        assert(jmodel_fields(r->Obj_0@)[2] == (
            "transactionId"@,
            JsonModel::Str(transaction_id@),
        ));
        assert(jmodel_fields(r->Obj_0@)[3] == ("idTag"@, JsonModel::Str(id_tag@)));
        assert(jmodel_fields(r->Obj_0@)[4] == ("meterStart"@, JsonModel::Int(meter_start as int)));
        assert(jmodel_fields(r->Obj_0@)[5] == ("timestamp"@, JsonModel::Str(timestamp@)));
        assert(jmodel_fields(r->Obj_0@) =~~= target->Obj_0);
        assert(r@ =~~= target);
    }
    r
}

/// The stop payload: station id, transaction id, identity tag, final
/// meter value, timestamp and stop reason.
pub open spec fn stop_transaction_payload_m(
    station_id: Seq<char>,
    transaction_id: Seq<char>,
    id_tag: Seq<char>,
    meter_stop: i64,
    reason: Seq<char>,
    timestamp: Seq<char>,
) -> JsonModel {
    JsonModel::Obj(
        seq![
            ("stationId"@, JsonModel::Str(station_id)),
            ("transactionId"@, JsonModel::Str(transaction_id)),
            ("idTag"@, JsonModel::Str(id_tag)),
            ("meterStop"@, JsonModel::Int(meter_stop as int)),
            ("timestamp"@, JsonModel::Str(timestamp)),
            ("reason"@, JsonModel::Str(reason)),
        ],
    )
}

/// Builds the payload of a `StopTransaction` request.
pub fn stop_transaction_payload(
    station_id: &str,
    transaction_id: &str,
    id_tag: &str,
    meter_stop: i64,
    reason: &str,
    timestamp: &str,
) -> (r: Json)
    ensures
        r@ == stop_transaction_payload_m(
            station_id@,
            transaction_id@,
            id_tag@,
            meter_stop,
            reason@,
            timestamp@,
        ),
{
    let mut fields: Vec<(String, Json)> = Vec::new();
    fields.push(("stationId".to_owned(), Json::Str(station_id.to_owned())));
    fields.push(("transactionId".to_owned(), Json::Str(transaction_id.to_owned())));
    fields.push(("idTag".to_owned(), Json::Str(id_tag.to_owned())));
    fields.push(("meterStop".to_owned(), Json::Int(meter_stop)));
    fields.push(("timestamp".to_owned(), Json::Str(timestamp.to_owned())));
    fields.push(("reason".to_owned(), Json::Str(reason.to_owned())));
    let r = Json::Obj(fields);
    proof {
        let ghost target = stop_transaction_payload_m(
            station_id@,
            transaction_id@,
            id_tag@,
            meter_stop,
            reason@,
            timestamp@,
        );
        lemma_jmodel_fields(r->Obj_0@);
        assert(jmodel_fields(r->Obj_0@)[0] == ("stationId"@, JsonModel::Str(station_id@)));
        assert(jmodel_fields(r->Obj_0@)[1] == (
            "transactionId"@,
            JsonModel::Str(transaction_id@),
        ));
        assert(jmodel_fields(r->Obj_0@)[2] == ("idTag"@, JsonModel::Str(id_tag@)));
        assert(jmodel_fields(r->Obj_0@)[3] == ("meterStop"@, JsonModel::Int(meter_stop as int)));
        assert(jmodel_fields(r->Obj_0@)[4] == ("timestamp"@, JsonModel::Str(timestamp@)));
        assert(jmodel_fields(r->Obj_0@)[5] == ("reason"@, JsonModel::Str(reason@)));
        assert(jmodel_fields(r->Obj_0@) =~~= target->Obj_0);
        assert(r@ =~~= target);
    }
    r
}

} // verus!
