use lard::kldata::ObsType;
use lard::labels::{DataChunk, Datum};
use lard::qc::{
    combine_usable, find_pipeline, qc_jobs, CheckFlag, CheckOutcome, PipelineWindow, QcJob,
    QcResult,
};
use lard::time::TimeResolution;

const HOUR: TimeResolution = TimeResolution {
    months: 0,
    seconds: 3600,
};
const MINUTE: TimeResolution = TimeResolution {
    months: 0,
    seconds: 60,
};

fn outcome(check: &str, first_flag: Option<CheckFlag>) -> CheckOutcome {
    CheckOutcome {
        check: check.to_string(),
        first_flag,
    }
}

#[test]
fn first_failing_check_decides_the_verdict() {
    let outcomes = vec![
        outcome("special_values_check", Some(CheckFlag::Pass)),
        outcome("range_check", Some(CheckFlag::Fail)),
        outcome("step_check", Some(CheckFlag::Fail)),
    ];
    let verdict = QcResult::fresh(12, 3600, &outcomes);
    assert_eq!(
        verdict,
        QcResult {
            timeseries_id: 12,
            timestamp: 3600,
            pipeline: "fresh".to_string(),
            flag: 1,
            fail_condition: Some("range_check".to_string()),
        }
    );
    assert!(!verdict.usable());
}

#[test]
fn no_failing_check_passes() {
    let outcomes = vec![
        outcome("a", Some(CheckFlag::Pass)),
        outcome("b", None),
        outcome("c", Some(CheckFlag::Warn)),
        outcome("d", Some(CheckFlag::DataMissing)),
    ];
    let verdict = QcResult::fresh(1, 2, &outcomes);
    assert_eq!(verdict.flag, 0);
    assert_eq!(verdict.fail_condition, None);
    assert!(verdict.usable());
    assert!(QcResult::fresh(1, 2, &vec![]).usable());
}

#[test]
fn unusable_is_never_overridden() {
    assert!(combine_usable(None, true));
    assert!(!combine_usable(None, false));
    assert!(combine_usable(Some(true), true));
    assert!(!combine_usable(Some(true), false));
    assert!(!combine_usable(Some(false), true));
    assert!(!combine_usable(Some(false), false));

    let mut stored = None;
    for verdict in [true, false, true, true] {
        stored = Some(combine_usable(stored, verdict));
    }
    assert_eq!(stored, Some(false));
}

#[test]
fn jobs_are_the_values_with_a_pipeline() {
    let pipelines = vec![
        PipelineWindow {
            param_id: 211,
            time_resolution: MINUTE,
            num_leading_required: 9,
            num_trailing_required: 9,
        },
        PipelineWindow {
            param_id: 211,
            time_resolution: HOUR,
            num_leading_required: 2,
            num_trailing_required: 1,
        },
    ];
    let data = vec![
        Datum {
            timeseries_id: 5,
            param_id: 104,
            value: ObsType::Scalar("0".to_string()),
        },
        Datum {
            timeseries_id: 6,
            param_id: 211,
            value: ObsType::Scalar("1".to_string()),
        },
    ];
    let chunk = DataChunk {
        timestamp: 7200,
        time_resolution: Some(HOUR),
        data: data.clone(),
    };
    assert_eq!(
        qc_jobs(&chunk, &pipelines),
        vec![QcJob {
            datum: 1,
            pipeline: 1,
            timeseries_id: 6,
            timestamp: 7200,
            time_resolution: HOUR,
            num_leading_required: 2,
            num_trailing_required: 1,
        }]
    );
    let unknown = DataChunk {
        timestamp: 7200,
        time_resolution: None,
        data,
    };
    assert_eq!(qc_jobs(&unknown, &pipelines), vec![]);
    assert_eq!(find_pipeline(&pipelines, 211, MINUTE), Some(0));
    assert_eq!(find_pipeline(&pipelines, 104, HOUR), None);
}
