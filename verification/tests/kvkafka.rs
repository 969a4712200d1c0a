use chrono::{TimeZone, Utc};
use lard::kvkafka::{
    messages_of, optional_float, optional_int, optional_text, timeseries_for, xml_payload,
    zero_to_none, Error, KvalobsId, Kvdata, Msg, ObstimeGroup, SensorData,
};

fn kvdata(paramid: i32) -> Kvdata {
    Kvdata {
        paramid,
        original: Some("10".to_string()),
        corrected: Some("10.5".to_string()),
        controlinfo: Some("1000000000000000".to_string()),
        useinfo: None,
        cfailed: None,
    }
}

#[test]
fn payload_is_what_follows_the_declaration() {
    assert_eq!(
        xml_payload("  \n<?xml version=\"1.0\" encoding=\"UTF-8\"?>\n<KvalobsData>\\n<station val=\"1\"/>\n</KvalobsData>\n "),
        Ok("<KvalobsData>n<station val=\"1\"/></KvalobsData>".to_string())
    );
    assert_eq!(xml_payload("<?xml?>"), Ok("".to_string()));
}

#[test]
fn payload_must_start_with_the_declaration() {
    assert_eq!(
        xml_payload("<KvalobsData/>"),
        Err(Error::IssueParsingXML(
            "kv2kvdata must be xml starting with '<?xml'".to_string()
        ))
    );
    assert_eq!(
        xml_payload("<?xm"),
        Err(Error::IssueParsingXML(
            "kv2kvdata must be xml starting with '<?xml'".to_string()
        ))
    );
    assert_eq!(
        xml_payload("<?xml version=\"1.0\" <KvalobsData/>"),
        Err(Error::IssueParsingXML(
            "couldn't find end of xml tag '?>'".to_string()
        ))
    );
}

#[test]
fn zero_sensor_is_a_missing_sensor() {
    assert_eq!(zero_to_none(Some("0")), Ok(None));
    assert_eq!(zero_to_none(Some("")), Ok(None));
    assert_eq!(zero_to_none(None), Ok(None));
    assert_eq!(zero_to_none(Some("3")), Ok(Some(3)));
    assert_eq!(zero_to_none(Some("00")), Ok(Some(0)));
    assert_eq!(
        zero_to_none(Some("x")),
        Err(Error::Deserialize("x".to_string()))
    );
}

#[test]
fn empty_fields_are_missing_fields() {
    assert_eq!(optional_int(Some("")), Ok(None));
    assert_eq!(optional_int(None), Ok(None));
    assert_eq!(optional_int(Some("0")), Ok(Some(0)));
    assert_eq!(
        optional_int(Some("1.5")),
        Err(Error::Deserialize("1.5".to_string()))
    );
    assert_eq!(optional_float(Some("")), Ok(None));
    assert_eq!(optional_float(Some("-1.5")), Ok(Some("-1.5".to_string())));
    assert_eq!(
        optional_float(Some("abc")),
        Err(Error::Deserialize("abc".to_string()))
    );
    assert_eq!(optional_text(Some("")), None);
    assert_eq!(optional_text(None), None);
    assert_eq!(optional_text(Some("0111")), Some("0111".to_string()));
}

#[test]
fn groups_become_messages_in_order() {
    let groups = vec![
        ObstimeGroup {
            station: 20001,
            typeid: 501,
            obstime: "2024-06-05 12:00:00".to_string(),
            data: vec![
                SensorData {
                    sensor: None,
                    level: None,
                    kvdata: kvdata(106),
                },
                SensorData {
                    sensor: Some(1),
                    level: Some(2),
                    kvdata: kvdata(211),
                },
            ],
        },
        ObstimeGroup {
            station: 20002,
            typeid: 508,
            obstime: "2024-06-05 13:00:00".to_string(),
            data: vec![SensorData {
                sensor: None,
                level: None,
                kvdata: kvdata(104),
            }],
        },
    ];
    let (msgs, failure) = messages_of(&groups);
    assert_eq!(failure, None);
    let noon = Utc.with_ymd_and_hms(2024, 6, 5, 12, 0, 0).unwrap().timestamp();
    assert_eq!(
        msgs,
        vec![
            Msg {
                kvid: KvalobsId {
                    station: 20001,
                    paramid: 106,
                    typeid: 501,
                    sensor: None,
                    level: None
                },
                obstime: noon,
                kvdata: kvdata(106),
            },
            Msg {
                kvid: KvalobsId {
                    station: 20001,
                    paramid: 211,
                    typeid: 501,
                    sensor: Some(1),
                    level: Some(2)
                },
                obstime: noon,
                kvdata: kvdata(211),
            },
            Msg {
                kvid: KvalobsId {
                    station: 20002,
                    paramid: 104,
                    typeid: 508,
                    sensor: None,
                    level: None
                },
                obstime: noon + 3600,
                kvdata: kvdata(104),
            },
        ]
    );
}

#[test]
fn unreadable_obstime_ends_the_reading() {
    let groups = vec![
        ObstimeGroup {
            station: 1,
            typeid: 2,
            obstime: "2024-06-05 12:00:00".to_string(),
            data: vec![SensorData {
                sensor: None,
                level: None,
                kvdata: kvdata(106),
            }],
        },
        ObstimeGroup {
            station: 1,
            typeid: 2,
            obstime: "yesterday".to_string(),
            data: vec![SensorData {
                sensor: None,
                level: None,
                kvdata: kvdata(107),
            }],
        },
        ObstimeGroup {
            station: 1,
            typeid: 2,
            obstime: "2024-06-05 14:00:00".to_string(),
            data: vec![SensorData {
                sensor: None,
                level: None,
                kvdata: kvdata(108),
            }],
        },
    ];
    let (msgs, failure) = messages_of(&groups);
    assert_eq!(msgs.len(), 1);
    assert_eq!(msgs[0].kvdata.paramid, 106);
    let refusal = chrono::NaiveDateTime::parse_from_str("yesterday", "%Y-%m-%d %H:%M:%S")
        .unwrap_err()
        .to_string();
    assert_eq!(failure, Some(Error::IssueParsingTime(refusal)));
}

#[test]
fn first_found_timeseries_is_taken() {
    let kvid = KvalobsId {
        station: 20001,
        paramid: 106,
        typeid: 501,
        sensor: None,
        level: None,
    };
    assert_eq!(timeseries_for(&vec![8, 9], &kvid), Ok(8));
    assert_eq!(
        timeseries_for(&vec![], &kvid),
        Err(Error::TimeseriesMissing {
            station: 20001,
            param: 106
        })
    );
}
