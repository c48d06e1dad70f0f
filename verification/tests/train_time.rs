use chrono::DateTime;
use forest_hills_departure::errors::SourceError;
use forest_hills_departure::time::Timestamp;
use forest_hills_departure::train_time::{
    departure_of_reading, get_rout_times, merge_times, parse_departure, prediction_address,
    schedule_address, times_of_rows, train_times,
};

fn at(seconds: i64) -> Timestamp {
    Timestamp::new(seconds, 0, 0)
}

fn trip(name: &str, seconds: i64) -> (String, Timestamp) {
    (name.to_string(), at(seconds))
}

fn entry(time: Option<&str>, name: Option<&str>) -> String {
    let attributes = match time {
        Some(time) => format!("{{\"departure_time\":\"{}\",\"stop_sequence\":3}}", time),
        None => String::from("{\"departure_time\":null}"),
    };
    let relationships = match name {
        Some(name) => format!("{{\"trip\":{{\"data\":{{\"id\":\"{}\",\"type\":\"trip\"}}}}}}", name),
        None => String::from("{\"trip\":{\"data\":null}}"),
    };
    format!("{{\"attributes\":{},\"relationships\":{}}}", attributes, relationships)
}

fn body(entries: &[String]) -> String {
    format!("{{\"data\":[{}],\"jsonapi\":{{\"version\":\"1.0\"}}}}", entries.join(","))
}

#[test]
fn departure_time_is_read_with_its_offset() {
    assert_eq!(
        parse_departure("2020-05-01T12:34:00-04:00"),
        Ok(Timestamp::new(1_588_350_840, 0, -14_400))
    );
    assert_eq!(
        parse_departure("2020-05-01T16:34:00.250Z"),
        Ok(Timestamp::new(1_588_350_840, 250_000_000, 0))
    );
    assert_eq!(
        parse_departure("1969-12-31T23:59:59+00:00"),
        Ok(Timestamp::new(-1, 0, 0))
    );
    let texts = ["2021-11-07T01:30:00-05:00", "2024-02-29T23:59:59+05:30"];
    for text in texts {
        let moment = DateTime::parse_from_rfc3339(text).unwrap();
        let read = parse_departure(text).unwrap();
        assert_eq!(read.seconds, moment.timestamp());
        assert_eq!(read.utc_offset, moment.offset().local_minus_utc());
        assert_eq!(read.clock_face(), moment.format("%H:%M").to_string());
    }
}

#[test]
fn unreadable_departure_time_is_an_error() {
    for text in ["", "12:34", "2020-05-01", "2020-05-01T12:34:00", "2020-13-01T12:34:00Z", "soon"] {
        assert_eq!(parse_departure(text), Err(SourceError::Timestamp), "{:?}", text);
    }
    assert_eq!(parse_departure("2016-12-31T23:60:00Z"), Err(SourceError::Timestamp));
}

#[test]
fn leap_second_is_kept() {
    // 2016-12-31T23:59:59Z is 1_483_228_799; the leap second is read as that
    // second with a thousand million nanoseconds more.
    let leap = Timestamp::new(1_483_228_799, 1_000_000_000, 0);
    assert_eq!(parse_departure("2016-12-31T23:59:60Z"), Ok(leap));
    assert_eq!(
        parse_departure("2016-12-31T18:59:60.250-05:00"),
        Ok(Timestamp::new(1_483_228_799, 1_250_000_000, -18_000))
    );
    let moment = DateTime::parse_from_rfc3339("2016-12-31T23:59:60Z").unwrap();
    assert_eq!(leap.clock_face(), moment.format("%H:%M").to_string());
    assert!(leap.is_after(&Timestamp::new(1_483_228_799, 999_999_999, 0)));
    assert!(Timestamp::new(1_483_228_801, 0, 0).is_after(&leap));

    // One such trip does not fail the answer.
    let answer = body(&[
        entry(Some("2016-12-31T23:59:60Z"), Some("CR-1")),
        entry(Some("2017-01-01T00:10:00Z"), Some("CR-2")),
    ]);
    assert_eq!(
        get_rout_times(&answer),
        Ok(Some(vec![
            ("CR-1".to_string(), leap),
            ("CR-2".to_string(), Timestamp::new(1_483_229_400, 0, 0)),
        ]))
    );
    assert_eq!(
        train_times("{}", &answer, &Timestamp::new(1_483_228_000, 0, 0)),
        Ok(Some(vec![leap, Timestamp::new(1_483_229_400, 0, 0)]))
    );
}

#[test]
fn reading_becomes_departure() {
    assert_eq!(departure_of_reading(Some((5, 6, 7))), Ok(Timestamp::new(5, 6, 7)));
    assert_eq!(departure_of_reading(Some((5, 999_999_999, -7))), Ok(Timestamp::new(5, 999_999_999, -7)));
    assert_eq!(
        departure_of_reading(Some((5, 1_000_000_000, 0))),
        Ok(Timestamp::new(5, 1_000_000_000, 0))
    );
    assert_eq!(departure_of_reading(None), Err(SourceError::Timestamp));
}

#[test]
fn rows_without_name_or_time_are_left_out() {
    let rows = vec![
        (Some("2020-05-01T12:34:00-04:00".to_string()), Some("CR-1".to_string())),
        (None, Some("CR-2".to_string())),
        (Some("2020-05-01T12:35:00-04:00".to_string()), None),
        (Some("garbage".to_string()), None),
        (None, None),
        (Some("2020-05-01T12:36:00-04:00".to_string()), Some("CR-3".to_string())),
    ];
    assert_eq!(
        times_of_rows(&rows),
        Ok(vec![
            ("CR-1".to_string(), Timestamp::new(1_588_350_840, 0, -14_400)),
            ("CR-3".to_string(), Timestamp::new(1_588_350_960, 0, -14_400)),
        ])
    );
    let bad = vec![
        (Some("2020-05-01T12:34:00-04:00".to_string()), Some("CR-1".to_string())),
        (Some("garbage".to_string()), Some("CR-2".to_string())),
    ];
    assert_eq!(times_of_rows(&bad), Err(SourceError::Timestamp));
    assert_eq!(times_of_rows(&vec![]), Ok(vec![]));
}

#[test]
fn answer_is_read_trip_by_trip() {
    let answer = body(&[
        entry(Some("2020-05-01T12:34:00-04:00"), Some("CR-1")),
        entry(None, Some("CR-2")),
        entry(Some("2020-05-01T13:35:00-04:00"), None),
        entry(Some("2020-05-01T13:35:00-04:00"), Some("CR-4")),
    ]);
    assert_eq!(
        get_rout_times(&answer),
        Ok(Some(vec![
            ("CR-1".to_string(), Timestamp::new(1_588_350_840, 0, -14_400)),
            ("CR-4".to_string(), Timestamp::new(1_588_354_500, 0, -14_400)),
        ]))
    );
    assert_eq!(get_rout_times(&body(&[])), Ok(Some(vec![])));
}

#[test]
fn answer_without_list_holds_nothing() {
    assert_eq!(get_rout_times("{}"), Ok(None));
    assert_eq!(get_rout_times("{\"errors\":[{\"status\":\"403\"}]}"), Ok(None));
    assert_eq!(get_rout_times("{\"data\":{\"a\":1}}"), Ok(None));
    assert_eq!(get_rout_times("[1,2]"), Ok(None));
    assert_eq!(get_rout_times("{\"data\":[1,\"x\",null]}"), Ok(Some(vec![])));
}

#[test]
fn answer_that_is_not_json_is_an_error() {
    assert_eq!(get_rout_times(""), Err(SourceError::Unreachable));
    assert_eq!(get_rout_times("<html>busy</html>"), Err(SourceError::Unreachable));
    assert_eq!(get_rout_times("{\"data\":["), Err(SourceError::Unreachable));
    let answer = body(&[entry(Some("noon"), Some("CR-1"))]);
    assert_eq!(get_rout_times(&answer), Err(SourceError::Timestamp));
}

#[test]
fn predictions_replace_scheduled_times() {
    let scheduled = vec![trip("a", 1_000), trip("b", 2_000), trip("c", 3_000)];
    let predicted = vec![trip("b", 2_500), trip("d", 500)];
    assert_eq!(
        merge_times(scheduled, predicted, &at(0)),
        Some(vec![at(500), at(1_000), at(2_500), at(3_000)])
    );
}

#[test]
fn past_departures_are_dropped_and_the_rest_sorted() {
    let scheduled = vec![trip("a", 3_000), trip("b", 1_000), trip("c", 2_000), trip("d", 1_500)];
    assert_eq!(
        merge_times(scheduled.clone(), vec![], &at(1_000)),
        Some(vec![at(1_500), at(2_000), at(3_000)])
    );
    assert_eq!(merge_times(scheduled.clone(), vec![], &at(3_000)), None);
    assert_eq!(merge_times(vec![], vec![], &at(0)), None);
    // A prediction in the past takes its trip off the list.
    assert_eq!(
        merge_times(scheduled, vec![trip("a", 900)], &at(1_000)),
        Some(vec![at(1_500), at(2_000)])
    );
}

#[test]
fn last_entry_of_a_trip_counts() {
    let scheduled = vec![trip("a", 1_000), trip("a", 4_000), trip("b", 2_000), trip("c", 2_000)];
    assert_eq!(
        merge_times(scheduled, vec![], &at(0)),
        Some(vec![at(2_000), at(2_000), at(4_000)])
    );
}

#[test]
fn train_times_merges_both_answers() {
    let schedules = body(&[
        entry(Some("2020-05-01T13:35:00-04:00"), Some("CR-2")),
        entry(Some("2020-05-01T12:34:00-04:00"), Some("CR-1")),
        entry(Some("2020-05-01T11:00:00-04:00"), Some("CR-0")),
    ]);
    let predictions = body(&[entry(Some("2020-05-01T12:40:30-04:00"), Some("CR-1"))]);
    let now = Timestamp::new(1_588_350_000, 0, -14_400);
    assert_eq!(
        train_times(&predictions, &schedules, &now),
        Ok(Some(vec![
            Timestamp::new(1_588_351_230, 0, -14_400),
            Timestamp::new(1_588_354_500, 0, -14_400),
        ]))
    );
    assert_eq!(train_times("{}", &schedules, &Timestamp::new(1_588_360_000, 0, 0)), Ok(None));
    assert_eq!(train_times("{}", "{}", &now), Ok(None));
    assert_eq!(
        train_times(&predictions, "{}", &now),
        Ok(Some(vec![Timestamp::new(1_588_351_230, 0, -14_400)]))
    );
}

#[test]
fn train_times_reports_the_first_unreadable_answer() {
    let good = body(&[entry(Some("2020-05-01T12:34:00-04:00"), Some("CR-1"))]);
    let bad_time = body(&[entry(Some("noon"), Some("CR-1"))]);
    let now = at(0);
    assert_eq!(train_times("oops", &bad_time, &now), Err(SourceError::Unreachable));
    assert_eq!(train_times(&bad_time, "oops", &now), Err(SourceError::Timestamp));
    assert_eq!(train_times(&good, "oops", &now), Err(SourceError::Unreachable));
    assert_eq!(train_times(&good, &bad_time, &now), Err(SourceError::Timestamp));
}

#[test]
fn addresses_of_the_service() {
    assert_eq!(
        prediction_address("forhl", "1", "CR-Needham"),
        "https://api-v3.mbta.com/predictions?filter[stop]=forhl&filter[direction_id]=1&include=stop&filter[route]=CR-Needham"
    );
    let now = Timestamp::new(1_588_350_840, 0, -14_400);
    assert_eq!(
        schedule_address(&now, "forhl", "CR-Needham", "1"),
        "https://api-v3.mbta.com/schedules?include=route,trip,stop&filter[min_time]=12%3A34&filter[stop]=forhl&filter[route]=CR-Needham&filter[direction_id]=1"
    );
    let early = Timestamp::new(9 * 3_600 + 5 * 60, 0, 0);
    assert_eq!(
        schedule_address(&early, "s", "r", "0"),
        "https://api-v3.mbta.com/schedules?include=route,trip,stop&filter[min_time]=9%3A5&filter[stop]=s&filter[route]=r&filter[direction_id]=0"
    );
}
