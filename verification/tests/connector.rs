use chrono::{TimeZone, Utc};
use lard::connector::{
    advance, context_window, extract_time_spec, grid_len, interval_name, regularize, shift,
    Error,
};
use lard::time::TimeResolution;

const HOUR: TimeResolution = TimeResolution {
    months: 0,
    seconds: 3600,
};

fn at(y: i32, m: u32, d: u32, h: u32) -> i64 {
    Utc.with_ymd_and_hms(y, m, d, h, 0, 0).unwrap().timestamp()
}

#[test]
fn gap_between_two_values_is_a_missing_slot() {
    let start = at(2024, 1, 1, 0);
    let obses: Vec<(i64, f32)> = vec![(start, 1.5), (start + 2 * 3600, 2.5)];
    assert_eq!(
        regularize(&obses, start, start + 2 * 3600, HOUR, 3),
        Some(vec![Some(1.5), None, Some(2.5)])
    );
}

#[test]
fn misaligned_value_takes_no_slot() {
    let start = at(2024, 1, 1, 0);
    let obses: Vec<(i64, f32)> = vec![(start, 1.5), (start + 1800, 9.0), (start + 2 * 3600, 2.5)];
    assert_eq!(
        regularize(&obses, start, start + 2 * 3600, HOUR, 3),
        Some(vec![Some(1.5), None, Some(2.5)])
    );
}

#[test]
fn grid_without_values_is_all_missing() {
    let obses: Vec<(i64, f32)> = vec![];
    assert_eq!(
        regularize(&obses, 0, 7200, HOUR, 0),
        Some(vec![None, None, None])
    );
    assert_eq!(regularize(&obses, 10, 9, HOUR, 0), Some(vec![]));
    assert_eq!(grid_len(0, 7200, HOUR), Some(3));
    assert_eq!(grid_len(0, 7199, HOUR), Some(2));
    assert_eq!(grid_len(10, 9, HOUR), Some(0));
}

#[test]
fn values_before_the_grid_are_left_out() {
    let obses: Vec<(i64, i32)> = vec![(-3600, 1), (0, 2), (3600, 3)];
    assert_eq!(
        regularize(&obses, 0, 3600, HOUR, 2),
        Some(vec![Some(2), Some(3)])
    );
}

#[test]
fn values_after_the_end_still_get_their_slot() {
    let obses: Vec<(i64, i32)> = vec![(7200, 5)];
    assert_eq!(
        regularize(&obses, 0, 3600, HOUR, 2),
        Some(vec![None, None, Some(5)])
    );
}

#[test]
fn grid_that_does_not_move_forward_is_refused() {
    let obses: Vec<(i64, i32)> = vec![];
    let still = TimeResolution {
        months: 0,
        seconds: 0,
    };
    let back = TimeResolution {
        months: 0,
        seconds: -60,
    };
    assert_eq!(regularize(&obses, 0, 10, still, 0), None);
    assert_eq!(regularize(&obses, 0, 10, back, 0), None);
    assert_eq!(grid_len(0, 10, still), None);
    assert_eq!(advance(i64::MAX - 10, HOUR), None);
    assert_eq!(advance(100, HOUR), Some(3700));
}

#[test]
fn calendar_months_step_by_the_calendar() {
    let month = TimeResolution {
        months: 1,
        seconds: 0,
    };
    let year = TimeResolution {
        months: 12,
        seconds: 0,
    };
    assert_eq!(advance(at(2024, 1, 31, 6), month), Some(at(2024, 2, 29, 6)));
    assert_eq!(advance(at(2023, 12, 15, 0), month), Some(at(2024, 1, 15, 0)));
    assert_eq!(advance(at(2024, 2, 29, 0), year), Some(at(2025, 2, 28, 0)));
    assert_eq!(shift(at(2024, 3, 31, 0), -1, 60), Some(at(2024, 2, 29, 0) + 60));
    assert_eq!(shift(at(2024, 3, 31, 0), 0, -60), Some(at(2024, 3, 31, 0) - 60));
    assert_eq!(shift(i64::MAX, 1, 0), None);

    let obses: Vec<(i64, i32)> = vec![(at(2024, 2, 1, 0), 7)];
    assert_eq!(
        regularize(&obses, at(2024, 1, 1, 0), at(2024, 3, 1, 0), month, 3),
        Some(vec![None, Some(7), None])
    );
}

#[test]
fn window_reaches_back_and_forth_by_whole_steps() {
    assert_eq!(
        extract_time_spec(100_000, 200_000, HOUR, 2, 1),
        Some((100_000 - 7200, 200_000 + 3600))
    );
    assert_eq!(
        extract_time_spec(100_000, 200_000, HOUR, 0, 0),
        Some((100_000, 200_000))
    );
    assert_eq!(extract_time_spec(i64::MIN + 10, 0, HOUR, 1, 0), None);
    let month = TimeResolution {
        months: 1,
        seconds: 0,
    };
    assert_eq!(
        extract_time_spec(at(2024, 3, 31, 0), at(2024, 3, 31, 0), month, 1, 2),
        Some((at(2024, 2, 29, 0), at(2024, 5, 31, 0)))
    );
}

#[test]
fn context_ends_one_step_before_the_fresh_value() {
    assert_eq!(
        context_window(100_000, HOUR, 3),
        Some((100_000 - 3 * 3600, 100_000 - 3600))
    );
}

#[test]
fn storage_names_three_resolutions() {
    assert_eq!(
        interval_name(TimeResolution {
            months: 0,
            seconds: 60
        }),
        Ok("1 minute")
    );
    assert_eq!(interval_name(HOUR), Ok("1 hour"));
    assert_eq!(
        interval_name(TimeResolution {
            months: 0,
            seconds: 86400
        }),
        Ok("1 day")
    );
    let ten = TimeResolution {
        months: 0,
        seconds: 600,
    };
    assert_eq!(
        interval_name(ten),
        Err(Error::UnhandledTimeResolution(ten))
    );
    let year = TimeResolution {
        months: 12,
        seconds: 0,
    };
    assert_eq!(
        interval_name(year),
        Err(Error::UnhandledTimeResolution(year))
    );
}

#[test]
fn fresh_value_without_leading_points_needs_no_history() {
    assert_eq!(lard::connector::context_query(100_000, HOUR, 0), Ok(None));
    let ten = TimeResolution {
        months: 0,
        seconds: 600,
    };
    assert_eq!(lard::connector::context_query(100_000, ten, 0), Ok(None));
    assert_eq!(
        lard::connector::context_query(100_000, ten, 1),
        Err(Error::UnhandledTimeResolution(ten))
    );
    let query = lard::connector::context_query(100_000, HOUR, 2)
        .unwrap()
        .unwrap();
    assert_eq!(
        (query.start_time, query.end_time, query.interval),
        (100_000 - 7200, 100_000 - 3600, "1 hour")
    );
    assert_eq!(
        lard::connector::context_query(i64::MIN + 5, HOUR, 2),
        Err(Error::WindowOutOfRange)
    );
}

#[test]
fn position_needs_all_three_coordinates() {
    let whole = lard::connector::Location {
        lat: Some(59.9f32),
        lon: Some(10.7f32),
        hamsl: Some(94.0f32),
    };
    assert_eq!(
        lard::connector::position(&Some(whole)),
        Some((59.9, 10.7, 94.0))
    );
    let flat = lard::connector::Location {
        lat: Some(59.9f32),
        lon: Some(10.7f32),
        hamsl: None,
    };
    assert_eq!(lard::connector::position(&Some(flat)), None);
    assert_eq!(lard::connector::position::<f32>(&None), None);
}

#[test]
fn request_names_a_timeseries_or_a_parameter() {
    let one = lard::connector::SpaceSpec::One("42".to_string());
    let bad = lard::connector::SpaceSpec::One("forty-two".to_string());
    let all = lard::connector::SpaceSpec::All;
    assert_eq!(
        lard::connector::fetch_target(&one, None),
        Ok(lard::connector::FetchTarget::Timeseries(42))
    );
    assert_eq!(
        lard::connector::fetch_target(&bad, Some("211")),
        Err(lard::connector::FetchRefusal::InvalidSeriesId(
            "forty-two".to_string()
        ))
    );
    assert_eq!(
        lard::connector::fetch_target(&all, Some("211")),
        Ok(lard::connector::FetchTarget::Parameter(211))
    );
    assert_eq!(
        lard::connector::fetch_target(&all, Some("TA")),
        Err(lard::connector::FetchRefusal::InvalidExtraSpec(Some(
            "TA".to_string()
        )))
    );
    assert_eq!(
        lard::connector::fetch_target(&all, None),
        Err(lard::connector::FetchRefusal::InvalidExtraSpec(None))
    );
}
