use std::collections::HashMap;

use lard::permissions::{timeseries_is_open, ParamPermit, ParamPermitTable, StationPermitTable};

fn mock_permit_tables() -> (ParamPermitTable, StationPermitTable) {
    let param_permit = HashMap::from([
        // station_id -> (type_id, param_id, permit_id)
        (10000, vec![ParamPermit::new(0, 0, 0)]),
        (10001, vec![ParamPermit::new(0, 0, 1)]), // open
    ]);

    let station_permit = HashMap::from([
        // station_id -> permit_id
        (10000, 1), // overridden by param_permit
        (10001, 0), // overridden by param_permit
        (20000, 0),
        (20001, 1), // open
        (20002, 1), // open
    ]);

    (param_permit, station_permit)
}

#[test]
fn test_timeseries_is_open() {
    let cases = vec![
        (0, 0, 0, false, "stationid not in permit_tables"),
        (
            10000,
            0,
            0,
            false,
            "stationid in ParamPermitTable, timeseries closed",
        ),
        (
            10001,
            0,
            0,
            true,
            "stationid in ParamPermitTable, timeseries open",
        ),
        (
            20000,
            0,
            0,
            false,
            "stationid in StationPermitTable, timeseries closed",
        ),
        (
            20001,
            0,
            1,
            true,
            "stationid in StationPermitTable, timeseries open",
        ),
    ];

    let (param_permits, station_permits) = mock_permit_tables();
    for case in cases {
        let station_id = case.0;
        let type_id = case.1;
        let permit_id = case.2;
        let expected = case.3;
        let test_case = case.4;

        let output =
            timeseries_is_open(&param_permits, &station_permits, station_id, type_id, permit_id);
        assert_eq!(output, expected, "{}", test_case);
    }
}

#[test]
fn param_permit_that_does_not_match_leaves_the_station_permit_in_charge() {
    let (param_permits, station_permits) = mock_permit_tables();
    assert!(timeseries_is_open(&param_permits, &station_permits, 10000, 1, 0));
    assert!(!timeseries_is_open(&param_permits, &station_permits, 10001, 0, 7));
}

#[test]
fn first_matching_param_permit_decides() {
    let param_permits: ParamPermitTable = HashMap::from([(
        7,
        vec![
            ParamPermit::new(1, 1, 0),
            ParamPermit::new(2, 3, 1),
            ParamPermit::new(2, 3, 0),
        ],
    )]);
    let station_permits: StationPermitTable = HashMap::new();
    assert!(timeseries_is_open(&param_permits, &station_permits, 7, 2, 3));
    assert!(!timeseries_is_open(&param_permits, &station_permits, 7, 1, 1));
    assert!(!timeseries_is_open(&param_permits, &station_permits, 7, 9, 9));
}
