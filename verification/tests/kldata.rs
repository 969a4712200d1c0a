use chrono::{TimeZone, Utc};
use lard::kldata::{
    parse_columns, parse_kldata, parse_obs, type_id_to_time_resolution, ObsType, ObsinnChunk,
    ObsinnHeader, ObsinnId, ObsinnObs,
};
use lard::time::TimeResolution;
use lard::{Error, ParamConversions, ReferenceParam};

fn conversions() -> ParamConversions {
    let mut table = ParamConversions::new();
    let rows = [
        (211, "TA", "air_temperature", true),
        (15, "CI", "cloud_base_height", true),
        (198, "IR", "integral_of_duration_of_sunshine", true),
        (104, "RR_1", "sum(precipitation_amount PT1H)", true),
        (1021, "KLOBS", "observation_time", false),
    ];
    for (id, code, element_id, is_scalar) in rows {
        table.insert(
            code.to_string(),
            ReferenceParam {
                id,
                element_id: element_id.to_string(),
                is_scalar,
            },
        );
    }
    table
}

fn id(code: &str, sensor_and_level: Option<(i32, i32)>) -> ObsinnId {
    ObsinnId {
        param_code: code.to_string(),
        sensor_and_level,
    }
}

#[derive(Debug, PartialEq)]
enum Value {
    Scalar(f32),
    NonScalar(String),
}

fn value_of(value: &ObsType) -> Value {
    match value {
        ObsType::Scalar(text) => Value::Scalar(text.parse::<f32>().unwrap()),
        ObsType::NonScalar(text) => Value::NonScalar(text.clone()),
    }
}

type PlainChunk = (Vec<(ObsinnId, Value)>, i32, i32, i64);

fn plain(chunks: Vec<ObsinnChunk>) -> Vec<PlainChunk> {
    chunks
        .into_iter()
        .map(|chunk| {
            (
                chunk
                    .observations
                    .iter()
                    .map(|obs: &ObsinnObs| (obs.id.clone(), value_of(&obs.value)))
                    .collect(),
                chunk.station_id,
                chunk.type_id,
                chunk.timestamp,
            )
        })
        .collect()
}

#[test]
fn test_parse_meta() {
    let cases = vec![
        (
            "Test message that fails.",
            Err(Error::Parse(
                "kldata indicator missing or out of order".to_string(),
            )),
            "missing kldata indicator",
        ),
        (
            "kldata/nationalnr=100/type=504",
            Ok((100, 504, 0)),
            "valid header 1",
        ),
        (
            "kldata/type=504/nationalnr=100/messageid=25",
            Ok((100, 504, 25)),
            "valid header 2",
        ),
        (
            "kldata/messageid=23/nationalnr=99993/type=508/add",
            Ok((99993, 508, 23)),
            "valid header 3",
        ),
        (
            "kldata/received_time=\"2024-07-05 08:27:40+00\"/nationalnr=297000/type=70051",
            Ok((297000, 70051, 0)),
            "valid header 4",
        ),
        (
            "kldata/nationalnr=93140/type=501/unexpected",
            Err(Error::Parse(
                "unexpected field in kldata header format: unexpected".to_string(),
            )),
            "unexpected field",
        ),
        (
            "kldata/messageid=10/type=501",
            Err(Error::Parse(
                "missing field `nationalnr` in kldata header".to_string(),
            )),
            "missing nationlnr",
        ),
        (
            "kldata/messageid=10/nationalnr=93140",
            Err(Error::Parse(
                "missing field `type` in kldata header".to_string(),
            )),
            "missing type",
        ),
    ];
    for (msg, expected, case_description) in cases {
        let output = ObsinnHeader::parse(msg)
            .map(|header| (header.station_id, header.type_id, header.message_id));
        assert_eq!(output, expected, "{}", case_description);
    }
}

#[test]
fn test_parse_columns() {
    let cases = vec![
        (
            "KLOBS,QSI_01(0,0)",
            Ok(vec![id("KLOBS", None), id("QSI_01", Some((0, 0)))]),
            "match 1",
        ),
        (
            "param_1,param_2,QSI_01(0,0)",
            Ok(vec![
                id("param_1", None),
                id("param_2", None),
                id("QSI_01", Some((0, 0))),
            ]),
            "match 2",
        ),
        (
            "param_1(0,0),param_2,param_3(0,0)",
            Ok(vec![
                id("param_1", Some((0, 0))),
                id("param_2", None),
                id("param_3", Some((0, 0))),
            ]),
            "match 3",
        ),
    ];

    for (cols, expected, case_description) in cases {
        let output = parse_columns(cols);
        assert_eq!(output, expected, "{}", case_description);
    }
}

#[test]
fn test_parse_obs() {
    let header = ObsinnHeader {
        station_id: 18700,
        type_id: 511,
        message_id: 1,
    };
    let cases: Vec<(&str, Vec<ObsinnId>, ObsinnHeader, Result<Vec<PlainChunk>, Error>, &str)> = vec![
        (
            "20160201054100,-1.1,0,2.80",
            vec![id("TA", None), id("CI", None), id("IR", None)],
            header,
            Ok(vec![(
                vec![
                    (id("TA", None), Value::Scalar(-1.1)),
                    (id("CI", None), Value::Scalar(0.0)),
                    (id("IR", None), Value::Scalar(2.8)),
                ],
                18700,
                511,
                Utc.with_ymd_and_hms(2016, 2, 1, 5, 41, 0).unwrap().timestamp(),
            )]),
            "single line",
        ),
        (
            "20160201054100,-1.1,0,2.80\n20160201055100,-1.5,1,2.90",
            vec![id("TA", None), id("CI", None), id("IR", None)],
            header,
            Ok(vec![
                (
                    vec![
                        (id("TA", None), Value::Scalar(-1.1)),
                        (id("CI", None), Value::Scalar(0.0)),
                        (id("IR", None), Value::Scalar(2.8)),
                    ],
                    18700,
                    511,
                    Utc.with_ymd_and_hms(2016, 2, 1, 5, 41, 0).unwrap().timestamp(),
                ),
                (
                    vec![
                        (id("TA", None), Value::Scalar(-1.5)),
                        (id("CI", None), Value::Scalar(1.0)),
                        (id("IR", None), Value::Scalar(2.9)),
                    ],
                    18700,
                    511,
                    Utc.with_ymd_and_hms(2016, 2, 1, 5, 51, 0).unwrap().timestamp(),
                ),
            ]),
            "multiple lines",
        ),
        (
            "20240910000000,20240910000000,10.1",
            vec![id("KLOBS", None), id("TA", None)],
            header,
            Ok(vec![(
                vec![
                    (
                        id("KLOBS", None),
                        Value::NonScalar("20240910000000".to_string()),
                    ),
                    (id("TA", None), Value::Scalar(10.1)),
                ],
                18700,
                511,
                Utc.with_ymd_and_hms(2024, 9, 10, 0, 0, 0).unwrap().timestamp(),
            )]),
            "non scalar parameter",
        ),
        (
            "20240910000000,20240910000000,10.1",
            vec![id("unknown", None), id("TA", None)],
            header,
            Ok(vec![(
                vec![
                    (
                        id("unknown", None),
                        Value::NonScalar("20240910000000".to_string()),
                    ),
                    (id("TA", None), Value::Scalar(10.1)),
                ],
                18700,
                511,
                Utc.with_ymd_and_hms(2024, 9, 10, 0, 0, 0).unwrap().timestamp(),
            )]),
            "unrecognised param code",
        ),
    ];

    let param_conversions = conversions();
    for (data, cols, header, expected, case_description) in cases {
        let rows: Vec<&str> = data.lines().collect();
        let output = parse_obs(&rows, &cols, &param_conversions, header).map(plain);
        assert_eq!(output, expected, "{}", case_description);
    }
}

#[test]
fn test_parse_kldata() {
    let cases = vec![
        (
            "",
            Err(Error::Parse(
                "kldata message contained too few lines".to_string(),
            )),
            "empty line",
        ),
        (
            "kldata/nationalnr=99993/type=508/messageid=23",
            Err(Error::Parse(
                "kldata message contained too few lines".to_string(),
            )),
            "header only",
        ),
        (
            "kldata/nationalnr=93140/type=501/messageid=23
        DD(0,0),FF(0,0),DG_1(0,0),FG_1(0,0),KLFG_1(0,0),FX_1(0,0)",
            Err(Error::Parse("empty row in kldata csv".to_string())),
            "missing data",
        ),
    ];
    let param_conversions = conversions();

    for (body, expected, case_description) in cases {
        let output = parse_kldata(body, &param_conversions);
        assert_eq!(output, expected, "{}", case_description);
    }
}

#[test]
fn columns_with_and_without_sensor_and_level() {
    assert_eq!(
        parse_columns("A,B(1,2)"),
        Ok(vec![id("A", None), id("B", Some((1, 2)))])
    );
}

#[test]
fn columns_keep_missing_apart_from_zero() {
    let columns = parse_columns("TA,TA(0,0)").unwrap();
    assert_eq!(columns[0].sensor_and_level, None);
    assert_eq!(columns[1].sensor_and_level, Some((0, 0)));
    assert_ne!(columns[0], columns[1]);
}

#[test]
fn columns_read_a_broken_block_as_codes() {
    assert_eq!(
        parse_columns("param(0.1,0)"),
        Ok(vec![id("param", None), id("0.1", None), id("0", None)])
    );
    assert_eq!(parse_columns("()"), Ok(vec![]));
    assert_eq!(parse_columns(""), Ok(vec![]));
    assert_eq!(
        parse_columns("a(1,2)b"),
        Ok(vec![id("a", Some((1, 2))), id("b", None)])
    );
}

#[test]
fn columns_refuse_a_sensor_that_does_not_fit() {
    assert_eq!(
        parse_columns("TA(99999999999,0)"),
        Err(Error::Parse(
            "sensor or level out of range in kldata columns".to_string()
        ))
    );
    assert_eq!(
        parse_columns("TA(2147483647,0)"),
        Ok(vec![id("TA", Some((2147483647, 0)))])
    );
}

#[test]
fn header_value_that_is_no_number_names_value_and_key() {
    assert_eq!(
        ObsinnHeader::parse("kldata/nationalnr=abc/type=1"),
        Err(Error::Parse(
            "invalid value abc in kldata header for key nationalnr".to_string()
        ))
    );
    assert_eq!(
        ObsinnHeader::parse("kldata/nationalnr=1/type=2147483648"),
        Err(Error::Parse(
            "invalid value 2147483648 in kldata header for key type".to_string()
        ))
    );
    assert_eq!(
        ObsinnHeader::parse("kldata/nationalnr=1/type=2/messageid=-3"),
        Err(Error::Parse(
            "invalid value -3 in kldata header for key messageid".to_string()
        ))
    );
    assert_eq!(
        lard::kldata::parse_value("type", "-2147483648"),
        Ok(-2147483648)
    );
    assert_eq!(lard::kldata::parse_value("type", "+17"), Ok(17));
    assert_eq!(lard::kldata::parse_count("messageid", "007"), Ok(7));
    assert!(lard::kldata::parse_value("type", "").is_err());
    assert!(lard::kldata::parse_value("type", "-").is_err());
    assert!(lard::kldata::parse_value("type", "1 ").is_err());
}

#[test]
fn header_takes_the_last_of_repeated_fields() {
    let header = ObsinnHeader::parse("kldata/nationalnr=1/type=2/nationalnr=3").unwrap();
    assert_eq!(header.station_id, 3);
    assert_eq!(header.type_id, 2);
    assert_eq!(header.message_id, 0);
}

#[test]
fn header_field_with_unknown_key_is_unexpected() {
    assert_eq!(
        ObsinnHeader::parse("kldata/nationalnr=1/type=2/colour=red"),
        Err(Error::Parse(
            "unexpected field in kldata header format: colour=red".to_string()
        ))
    );
}

#[test]
fn written_header_decodes_to_itself() {
    for header in [
        ObsinnHeader {
            station_id: 18700,
            type_id: 511,
            message_id: 23,
        },
        ObsinnHeader {
            station_id: -2147483648,
            type_id: 2147483647,
            message_id: 0,
        },
        ObsinnHeader {
            station_id: 0,
            type_id: -1,
            message_id: usize::MAX,
        },
    ] {
        let line = header.to_line();
        assert_eq!(ObsinnHeader::parse(&line), Ok(header));
    }
    assert_eq!(
        ObsinnHeader {
            station_id: 99993,
            type_id: 508,
            message_id: 23
        }
        .to_line(),
        "kldata/nationalnr=99993/type=508/messageid=23"
    );
}

#[test]
fn row_with_only_an_instant_is_empty() {
    let header = ObsinnHeader {
        station_id: 1,
        type_id: 2,
        message_id: 3,
    };
    let rows = vec!["20240910000000"];
    assert_eq!(
        parse_obs(&rows, &vec![id("TA", None)], &conversions(), header),
        Err(Error::Parse("empty row in kldata csv".to_string()))
    );
}

#[test]
fn row_with_more_values_than_columns_fails() {
    let header = ObsinnHeader {
        station_id: 1,
        type_id: 2,
        message_id: 3,
    };
    let rows = vec!["20240910000000,1.0,2.0"];
    assert_eq!(
        parse_obs(&rows, &vec![id("TA", None)], &conversions(), header),
        Err(Error::Parse(
            "more values than columns in kldata csv row".to_string()
        ))
    );
}

#[test]
fn scalar_value_must_be_a_decimal_literal() {
    let header = ObsinnHeader {
        station_id: 1,
        type_id: 2,
        message_id: 3,
    };
    let rows = vec!["20240910000000,warm"];
    assert_eq!(
        parse_obs(&rows, &vec![id("TA", None)], &conversions(), header),
        Err(Error::Parse(
            "value warm could not be parsed as float".to_string()
        ))
    );
}

#[test]
fn decimal_literals_are_what_float_parsing_takes() {
    let cases = [
        "0", "-1.1", "2.80", "+.5", "5.", "1e5", "1E-5", "1.5e+10", "inf", "-Infinity", "NaN",
        "", ".", "e5", "1e", "1e+", "+", "-", "1.2.3", " 1", "1 ", "0x10", "infinit", "nan0",
        "1_0", "١", "5.e3", ".e5", "1.e", "+inf", "-nan", "iNf", "INFINITY", "+-1", "--1",
        "1e5.0", "1e1e1", "00.00", "-.0e-0", "infinity ", "n a n",
    ];
    for text in cases {
        assert_eq!(
            lard::text::is_float(text),
            text.parse::<f32>().is_ok(),
            "{:?}",
            text
        );
    }
}

#[test]
fn row_with_a_bad_instant_fails_with_the_refusal() {
    let header = ObsinnHeader {
        station_id: 1,
        type_id: 2,
        message_id: 3,
    };
    let rows = vec!["2024091000,1.0"];
    let refusal = chrono::NaiveDateTime::parse_from_str("2024091000", "%Y%m%d%H%M%S")
        .unwrap_err()
        .to_string();
    assert_eq!(
        parse_obs(&rows, &vec![id("TA", None)], &conversions(), header),
        Err(Error::Parse(refusal))
    );
}

#[test]
fn decode_row_takes_the_instant_it_is_given() {
    let header = ObsinnHeader {
        station_id: 7,
        type_id: 8,
        message_id: 9,
    };
    let fields = vec!["ignored", "1.5", "text"];
    let columns = vec![id("TA", Some((1, 2))), id("KLOBS", None)];
    let chunk =
        lard::kldata::decode_row(&fields, Ok(1234), &columns, &conversions(), &header).unwrap();
    assert_eq!(chunk.timestamp, 1234);
    assert_eq!(chunk.station_id, 7);
    assert_eq!(chunk.type_id, 8);
    assert_eq!(
        chunk.observations,
        vec![
            ObsinnObs {
                id: id("TA", Some((1, 2))),
                value: ObsType::Scalar("1.5".to_string())
            },
            ObsinnObs {
                id: id("KLOBS", None),
                value: ObsType::NonScalar("text".to_string())
            },
        ]
    );
    assert_eq!(
        lard::kldata::decode_row(
            &fields,
            Err("no instant".to_string()),
            &columns,
            &conversions(),
            &header
        ),
        Err(Error::Parse("no instant".to_string()))
    );
}

#[test]
fn message_decodes_to_its_id_and_one_chunk_per_row() {
    let msg = "kldata/nationalnr=18700/type=511/messageid=42\r\nTA,KLOBS(0,0)\r\n20160201054100,-1.1,x\n20160201055100,3,y\n";
    let (message_id, chunks) = parse_kldata(msg, &conversions()).unwrap();
    assert_eq!(message_id, 42);
    assert_eq!(
        plain(chunks),
        vec![
            (
                vec![
                    (id("TA", None), Value::Scalar(-1.1)),
                    (id("KLOBS", Some((0, 0))), Value::NonScalar("x".to_string())),
                ],
                18700,
                511,
                Utc.with_ymd_and_hms(2016, 2, 1, 5, 41, 0).unwrap().timestamp(),
            ),
            (
                vec![
                    (id("TA", None), Value::Scalar(3.0)),
                    (id("KLOBS", Some((0, 0))), Value::NonScalar("y".to_string())),
                ],
                18700,
                511,
                Utc.with_ymd_and_hms(2016, 2, 1, 5, 51, 0).unwrap().timestamp(),
            ),
        ]
    );
}

#[test]
fn lines_are_cut_as_the_standard_library_cuts_them() {
    for text in ["", "a", "a\n", "a\nb", "a\r\nb\r\n", "a\r", "\n", "\n\n", "a\n\r\nb\r"] {
        let expected: Vec<&str> = text.lines().collect();
        assert_eq!(lard::text::split_lines(text), expected, "{:?}", text);
    }
    assert_eq!(lard::text::split_text("a,,b,", ','), vec!["a", "", "b", ""]);
    assert_eq!(lard::text::split_text("", ','), vec![""]);
}

#[test]
fn message_types_map_to_their_resolution() {
    assert_eq!(
        type_id_to_time_resolution(514),
        Some(TimeResolution {
            months: 0,
            seconds: 60
        })
    );
    assert_eq!(
        type_id_to_time_resolution(509),
        Some(TimeResolution {
            months: 0,
            seconds: 600
        })
    );
    assert_eq!(
        type_id_to_time_resolution(501),
        Some(TimeResolution {
            months: 0,
            seconds: 3600
        })
    );
    assert_eq!(
        type_id_to_time_resolution(522),
        Some(TimeResolution {
            months: 0,
            seconds: 86400
        })
    );
    assert_eq!(
        type_id_to_time_resolution(399),
        Some(TimeResolution {
            months: 12,
            seconds: 0
        })
    );
    assert_eq!(type_id_to_time_resolution(508), None);
}

#[test]
fn header_fields_come_in_any_order() {
    let expected = ObsinnHeader {
        station_id: 18700,
        type_id: 511,
        message_id: 7,
    };
    for line in [
        "kldata/nationalnr=18700/type=511/messageid=7",
        "kldata/nationalnr=18700/messageid=7/type=511",
        "kldata/type=511/nationalnr=18700/messageid=7",
        "kldata/type=511/messageid=7/nationalnr=18700",
        "kldata/messageid=7/nationalnr=18700/type=511",
        "kldata/messageid=7/type=511/nationalnr=18700",
        "kldata/add/messageid=7/add/type=511/nationalnr=18700/add",
    ] {
        assert_eq!(ObsinnHeader::parse(line), Ok(expected), "{}", line);
    }
}

/// The columns that the pattern of the wire format finds in a line: codes
/// that hold none of `(`, `)` and `,`, each with an optional block of two
/// numbers behind it.
fn columns_by_pattern(pattern: &regex::Regex, line: &str) -> Vec<ObsinnId> {
    pattern
        .captures_iter(line)
        .map(|caps| ObsinnId {
            param_code: caps.get(1).unwrap().as_str().to_owned(),
            sensor_and_level: caps.get(2).map(|_| {
                (
                    caps.get(3).unwrap().as_str().parse().unwrap(),
                    caps.get(4).unwrap().as_str().parse().unwrap(),
                )
            }),
        })
        .collect()
}

fn column_pattern() -> regex::Regex {
    regex::Regex::new(r"([^(),]+)(\(([0-9]+),([0-9]+)\))?").unwrap()
}

#[test]
fn columns_agree_with_the_pattern_on_every_short_line() {
    let pattern = column_pattern();
    let alphabet = ['a', '1', '(', ')', ',', '.'];
    let mut lines = vec![String::new()];
    let mut from = 0;
    for _ in 0..5 {
        let upto = lines.len();
        for at in from..upto {
            for c in alphabet {
                let mut longer = lines[at].clone();
                longer.push(c);
                lines.push(longer);
            }
        }
        from = upto;
    }
    assert_eq!(lines.len(), 9331);
    for line in &lines {
        assert_eq!(
            parse_columns(line),
            Ok(columns_by_pattern(&pattern, line)),
            "{:?}",
            line
        );
    }
}

#[test]
fn columns_agree_with_the_pattern_on_longer_lines() {
    let pattern = column_pattern();
    for line in [
        "KLOBS,QSI_01(0,0)",
        "param_1(0,0),param_2,param_3(0,0)",
        "DD(0,0),FF(0,0),DG_1(0,0),FG_1(0,0),KLFG_1(0,0),FX_1(0,0)",
        "        DD(0,0),FF(0,0)",
        "TA(12,34),TA(012,0034),TA(1,),TA(,1),TA(1,2,3),TA((1,2)),TA(1,2)(3,4)",
        "æøå(1,2),\u{660}(\u{661},\u{662}),x y\t(7,8)\n(9,10)",
        ",,,(),(,),a,,b(2147483647,0),",
    ] {
        assert_eq!(
            parse_columns(line),
            Ok(columns_by_pattern(&pattern, line)),
            "{:?}",
            line
        );
    }
}
