//! The departures of a station, from what the schedule service answers.
//!
//! The service is asked twice: for the predictions, which are few and
//! accurate, and for the schedule. Both answers list trips with their
//! departure times; a prediction replaces the scheduled time of its trip.

use vstd::prelude::*;
use vstd::seq_lib::to_multiset_insert;
use vstd::string::StringExecFns;
use crate::errors::SourceError;
use crate::sequences::lemma_filter_push;
use crate::text::{decimal, decimal_text, same_text};
use crate::time::{Departure, Timestamp};

verus! {

#[verifier::external_type_specification]
#[verifier::external_body]
pub struct ExParseError(chrono::ParseError);

#[verifier::external_type_specification]
#[verifier::external_body]
pub struct ExJsonError(serde_json::Error);

/// Where the list of trips stands in an answer of the service.
pub const DATA_POINTER: &'static str = "/data";

/// Where the departure time stands in a trip of that list.
pub const TIME_POINTER: &'static str = "/attributes/departure_time";

/// Where the name of the trip stands in a trip of that list.
pub const TRIP_POINTER: &'static str = "/relationships/trip/data/id";

/// The pattern of a date and time with a UTC offset, as the service writes
/// them.
pub const TIME_PATTERN: &'static str = "%+";

/// The address of the predictions, up to the station.
pub const PREDICTIONS_ADDRESS: &'static str = "https://api-v3.mbta.com/predictions?filter[stop]=";

/// The address of the schedule, up to the hour.
pub const SCHEDULES_ADDRESS: &'static str =
    "https://api-v3.mbta.com/schedules?include=route,trip,stop&filter[min_time]=";

/// What stands between hour and minute in an address.
pub const COLON_ESCAPE: &'static str = "%3A";

/// What stands before the station in the address of the schedule.
pub const STOP_FILTER: &'static str = "&filter[stop]=";

/// What stands before the direction in the address of the predictions.
pub const DIRECTION_FILTER: &'static str = "&filter[direction_id]=";

/// What stands before the route in the address of the predictions.
pub const STOP_ROUTE_FILTER: &'static str = "&include=stop&filter[route]=";

/// What stands before the route in the address of the schedule.
pub const ROUTE_FILTER: &'static str = "&filter[route]=";

/// A trip as read from an answer: its departure time and its name, each if
/// present and a text.
pub type Row = (Option<String>, Option<String>);

/// A trip with its texts as sequences of characters.
pub type RowText = (Option<Seq<char>>, Option<Seq<char>>);

/// What `chrono` reads from `text` by the pattern `pattern`: the seconds
/// since 1970-01-01 00:00:00 UTC, the nanoseconds past them, and the seconds
/// by which the clock of the text is ahead of UTC. None where the text does
/// not follow the pattern.
pub uninterp spec fn parsed_datetime(text: Seq<char>, pattern: Seq<char>) -> Option<(i64, u32, i32)>;

/// What `serde_json` reads from `body`: of each element of the array at the
/// JSON pointer `list`, in its order, the texts at the pointers `first` and
/// `second`, as far as they are there and are texts. The inner None where
/// there is no array at `list`, the outer where `body` is not JSON.
pub uninterp spec fn json_rows(
    body: Seq<char>,
    list: Seq<char>,
    first: Seq<char>,
    second: Seq<char>,
) -> Option<Option<Seq<(Option<Seq<char>>, Option<Seq<char>>)>>>;

/// `chrono::DateTime::parse_from_str`, with `DateTime::timestamp`,
/// `DateTime::timestamp_subsec_nanos` and `FixedOffset::local_minus_utc` to
/// take the date and time apart: the result is the one named
/// `parsed_datetime`, and nothing more is claimed of it.
#[verifier::external_body]
fn parse_datetime(text: &str, pattern: &str) -> (reading: Result<
    (i64, u32, i32),
    chrono::ParseError,
>)
    ensures
        reading.is_ok() == parsed_datetime(text@, pattern@).is_some(),
        reading matches Ok(parts) ==> parsed_datetime(text@, pattern@) == Some(parts),
{
    let moment = chrono::DateTime::parse_from_str(text, pattern)?;
    Ok((moment.timestamp(), moment.timestamp_subsec_nanos(), moment.offset().local_minus_utc()))
}

/// `serde_json::from_str`, then `serde_json::Value::pointer`, `as_array` and
/// `as_str` to take the value apart: the result is the one named
/// `json_rows`, and nothing more is claimed of it.
#[verifier::external_body]
fn read_rows(body: &str, list: &str, first: &str, second: &str) -> (rows: Result<
    Option<Vec<Row>>,
    serde_json::Error,
>)
    ensures
        rows.is_ok() == json_rows(body@, list@, first@, second@).is_some(),
        rows matches Ok(found) ==> json_rows(body@, list@, first@, second@) == Some(
            found.deep_view(),
        ),
{
    let value: serde_json::Value = serde_json::from_str(body)?;
    let text_at = |row: &serde_json::Value, pointer: &str| {
        row.pointer(pointer).and_then(|found| found.as_str()).map(String::from)
    };
    let trips = value.pointer(list).and_then(|data| data.as_array());
    Ok(trips.map(|data| data.iter().map(|row| (text_at(row, first), text_at(row, second))).collect()))
}

/// The departure that a reading stands for: its three parts as they are.
/// A leap second is read as a second with 1,000,000,000 nanoseconds or more,
/// and kept so.
pub open spec fn reading_departure(reading: Option<(i64, u32, i32)>) -> Option<Departure> {
    match reading {
        Some(parts) => Some(
            Timestamp { seconds: parts.0, nanos: parts.1, utc_offset: parts.2 },
        ),
        None => None,
    }
}

/// The departure that a text of the service stands for.
pub open spec fn text_departure(text: Seq<char>) -> Option<Departure> {
    reading_departure(parsed_datetime(text, TIME_PATTERN@))
}

/// Whether a trip has both its departure time and its name.
pub open spec fn timed(row: RowText) -> bool {
    row.0.is_some() && row.1.is_some()
}

/// Whether the departure time of a trip, if it counts, can be read.
pub open spec fn readable(row: RowText) -> bool {
    timed(row) ==> text_departure(row.0.unwrap()).is_some()
}

/// A trip that counts, as its name and its departure.
pub open spec fn trip_of(row: RowText) -> (Seq<char>, Departure) {
    (row.1.unwrap(), text_departure(row.0.unwrap()).unwrap())
}

/// The trips of an answer with their departures, in their order. A trip
/// without a departure time or without a name is left out. None where a
/// departure time that counts cannot be read.
pub open spec fn route_times(rows: Seq<RowText>) -> Option<Seq<(Seq<char>, Departure)>> {
    if forall|i: int| 0 <= i < rows.len() ==> readable(#[trigger] rows[i]) {
        Some(rows.filter(|row: RowText| timed(row)).map_values(|row: RowText| trip_of(row)))
    } else {
        None
    }
}

/// What an answer of the service holds: its trips with their departures,
/// or nothing where it has no list of trips.
pub open spec fn body_times(body: Seq<char>) -> Result<
    Option<Seq<(Seq<char>, Departure)>>,
    SourceError,
> {
    match json_rows(body, DATA_POINTER@, TIME_POINTER@, TRIP_POINTER@) {
        None => Err(SourceError::Unreachable),
        Some(None) => Ok(None),
        Some(Some(rows)) => match route_times(rows) {
            Some(times) => Ok(Some(times)),
            None => Err(SourceError::Timestamp),
        },
    }
}

/// Whether a later entry has the name of the entry at `place`.
pub open spec fn superseded(entries: Seq<(Seq<char>, Departure)>, place: int) -> bool {
    exists|later: int| place < later < entries.len() && (#[trigger] entries[later]).0 == entries[place].0
}

/// The departures of the first `upto` entries that no later entry
/// supersedes, in their order.
pub open spec fn current_upto(entries: Seq<(Seq<char>, Departure)>, upto: int) -> Seq<Departure>
    decreases upto,
{
    if upto <= 0 {
        Seq::empty()
    } else if superseded(entries, upto - 1) {
        current_upto(entries, upto - 1)
    } else {
        current_upto(entries, upto - 1).push(entries[upto - 1].1)
    }
}

/// One departure for each trip: that of its last entry.
pub open spec fn current(entries: Seq<(Seq<char>, Departure)>) -> Seq<Departure> {
    current_upto(entries, entries.len() as int)
}

/// The test "this departure lies after `now`".
pub open spec fn is_ahead_of(now: Timestamp) -> spec_fn(Departure) -> bool {
    |departure: Departure| departure.instant() > now.instant()
}

/// The departures that lie after `now`.
pub open spec fn departing_after(departures: Seq<Departure>, now: Timestamp) -> Seq<Departure> {
    departures.filter(is_ahead_of(now))
}

/// Departures in the order of time, the earliest first.
pub open spec fn in_time_order(departures: Seq<Departure>) -> bool {
    forall|i: int, j: int|
        0 <= i < j < departures.len() ==> departures[i].instant() <= departures[j].instant()
}

/// Whether `board` is the list of departures to show for `entries` at
/// `now`: the departure of each trip that still lies ahead, each once, in
/// the order of time; no list at all where none lies ahead.
pub open spec fn is_board(
    board: Option<Seq<Departure>>,
    entries: Seq<(Seq<char>, Departure)>,
    now: Timestamp,
) -> bool {
    let due = departing_after(current(entries), now);
    match board {
        None => due.len() == 0,
        Some(departures) => departures.len() > 0 && in_time_order(departures)
            && departures.to_multiset() == due.to_multiset(),
    }
}

/// The entries of a list that may be missing.
pub open spec fn entries_of(times: Option<Seq<(Seq<char>, Departure)>>) -> Seq<(Seq<char>, Departure)> {
    match times {
        Some(entries) => entries,
        None => Seq::empty(),
    }
}

/// The address that answers with the predictions for a station, a
/// direction and a route.
pub open spec fn prediction_address_text(
    station: Seq<char>,
    dir_code: Seq<char>,
    route_code: Seq<char>,
) -> Seq<char> {
    PREDICTIONS_ADDRESS@ + station + DIRECTION_FILTER@ + dir_code + STOP_ROUTE_FILTER@
        + route_code
}

/// The address that answers with the schedule from `hour:minute` on, for a
/// station, a route and a direction.
pub open spec fn schedule_address_text(
    hour: u8,
    minute: u8,
    station: Seq<char>,
    route_code: Seq<char>,
    dir_code: Seq<char>,
) -> Seq<char> {
    SCHEDULES_ADDRESS@ + decimal_text(hour) + COLON_ESCAPE@ + decimal_text(minute) + STOP_FILTER@
        + station + ROUTE_FILTER@ + route_code + DIRECTION_FILTER@ + dir_code
}

/// The address that answers with the predictions.
pub fn prediction_address(station: &str, dir_code: &str, route_code: &str) -> (address: String)
    ensures
        address@ == prediction_address_text(station@, dir_code@, route_code@),
{
    let mut address = String::from_str(PREDICTIONS_ADDRESS);
    address.append(station);
    address.append(DIRECTION_FILTER);
    address.append(dir_code);
    address.append(STOP_ROUTE_FILTER);
    address.append(route_code);
    address
}

/// The address that answers with the schedule from the time of day of `now`
/// on, hour and minute without leading zeros.
pub fn schedule_address(now: &Timestamp, station: &str, route_code: &str, dir_code: &str) -> (address:
    String)
    ensures
        address@ == schedule_address_text(
            now.local_hour() as u8,
            now.local_minute() as u8,
            station@,
            route_code@,
            dir_code@,
        ),
{
    let hour: String = decimal(now.hour());
    let minute: String = decimal(now.minute());
    let mut address = String::from_str(SCHEDULES_ADDRESS);
    address.append(hour.as_str());
    address.append(COLON_ESCAPE);
    address.append(minute.as_str());
    address.append(STOP_FILTER);
    address.append(station);
    address.append(ROUTE_FILTER);
    address.append(route_code);
    address.append(DIRECTION_FILTER);
    address.append(dir_code);
    address
}

/// The departure that a reading of a date and time stands for.
pub fn departure_of_reading(reading: Option<(i64, u32, i32)>) -> (departure: Result<
    Departure,
    SourceError,
>)
    ensures
        departure.is_ok() == reading.is_some(),
        departure matches Ok(found) ==> reading_departure(reading) == Some(found),
        departure matches Err(error) ==> error == SourceError::Timestamp && reading_departure(
            reading,
        ).is_none(),
{
    match reading {
        Some(parts) => Ok(Timestamp::new(parts.0, parts.1, parts.2)),
        None => Err(SourceError::Timestamp),
    }
}

/// Reads a departure time as the service writes it.
pub fn parse_departure(text: &str) -> (departure: Result<Departure, SourceError>)
    ensures
        departure matches Ok(found) ==> text_departure(text@) == Some(found),
        departure matches Err(error) ==> error == SourceError::Timestamp && text_departure(
            text@,
        ).is_none(),
{
    match parse_datetime(text, TIME_PATTERN) {
        Ok(parts) => departure_of_reading(Some(parts)),
        Err(_) => departure_of_reading(None),
    }
}

/// The trips of an answer with their departures.
pub fn times_of_rows(rows: &Vec<Row>) -> (times: Result<Vec<(String, Departure)>, SourceError>)
    ensures
        times matches Ok(list) ==> route_times(rows.deep_view()) == Some(list.deep_view()),
        times matches Err(error) ==> error == SourceError::Timestamp && route_times(
            rows.deep_view(),
        ).is_none(),
{
    let mut list: Vec<(String, Departure)> = Vec::new();
    let mut i: usize = 0;
    let ghost texts = rows.deep_view();
    let ghost counts = |row: RowText| timed(row);
    let ghost trip = |row: RowText| trip_of(row);
    proof {
        reveal(Seq::filter);
        assert(texts.take(0) =~= Seq::<RowText>::empty());
        assert(list.deep_view() =~= texts.take(0).filter(counts).map_values(trip));
    }
    while i < rows.len()
        invariant
            i <= rows.len(),
            texts == rows.deep_view(),
            counts == |row: RowText| timed(row),
            trip == |row: RowText| trip_of(row),
            forall|k: int| 0 <= k < i ==> readable(#[trigger] texts[k]),
            list.deep_view() == texts.take(i as int).filter(counts).map_values(trip),
        decreases rows.len() - i,
    {
        let row: &Row = &rows[i];
        assert(texts[i as int] == row.deep_view());
        proof {
            lemma_filter_push(texts.take(i as int), texts[i as int], counts);
            assert(texts.take(i as int).push(texts[i as int]) =~= texts.take(i as int + 1));
        }
        match (&row.0, &row.1) {
            (Some(departure_time), Some(trip_id)) => {
                let ghost before = list.deep_view();
                match parse_departure(departure_time.as_str()) {
                    Ok(departure) => {
                        list.push((trip_id.clone(), departure));
                        assert(list.deep_view() =~= before.push(trip_of(texts[i as int])));
                        assert(list.deep_view() =~= texts.take(i as int + 1).filter(
                            counts,
                        ).map_values(trip));
                    },
                    Err(error) => {
                        assert(!readable(texts[i as int]));
                        return Err(error);
                    },
                }
            },
            _ => {
                assert(!timed(texts[i as int]));
            },
        }
        i += 1;
    }
    assert(texts.take(i as int) =~= texts);
    Ok(list)
}

/// Reads an answer of the service: each trip that has a name and a
/// departure time, with its departure; nothing where the answer has no list
/// of trips.
pub fn get_rout_times(body: &str) -> (times: Result<Option<Vec<(String, Departure)>>, SourceError>)
    ensures
        times matches Ok(found) ==> body_times(body@) == Ok::<
            Option<Seq<(Seq<char>, Departure)>>,
            SourceError,
        >(found.deep_view()),
        times matches Err(error) ==> body_times(body@) == Err::<
            Option<Seq<(Seq<char>, Departure)>>,
            SourceError,
        >(error),
{
    match read_rows(body, DATA_POINTER, TIME_POINTER, TRIP_POINTER) {
        Err(_) => Err(SourceError::Unreachable),
        Ok(None) => Ok(None),
        Ok(Some(rows)) => match times_of_rows(&rows) {
            Ok(list) => Ok(Some(list)),
            Err(error) => Err(error),
        },
    }
}

/// Whether a later entry has the name of the entry at `place`.
fn is_superseded(entries: &Vec<(String, Departure)>, place: usize) -> (found: bool)
    requires
        place < entries.len(),
    ensures
        found == superseded(entries.deep_view(), place as int),
{
    let ghost texts = entries.deep_view();
    let name: &String = &entries[place].0;
    assert(texts[place as int] == entries@[place as int].deep_view());
    let mut later: usize = place + 1;
    while later < entries.len()
        invariant
            place < later <= entries.len(),
            texts == entries.deep_view(),
            name@ == texts[place as int].0,
            forall|k: int| place < k < later ==> (#[trigger] texts[k]).0 != texts[place as int].0,
        decreases entries.len() - later,
    {
        let other: &String = &entries[later].0;
        assert(texts[later as int] == entries@[later as int].deep_view());
        if same_text(other.as_str(), name.as_str()) {
            return true;
        }
        later += 1;
    }
    false
}

/// Puts `departure` into a list that is in the order of time, behind the
/// departures that are not later than it.
fn insert_in_order(board: &mut Vec<Departure>, departure: Departure)
    requires
        in_time_order(old(board)@),
    ensures
        in_time_order(final(board)@),
        final(board)@.to_multiset() == old(board)@.to_multiset().insert(departure),
{
    let mut place: usize = 0;
    while place < board.len() && !board[place].is_after(&departure)
        invariant
            place <= board.len(),
            forall|k: int| 0 <= k < place ==> board@[k].instant() <= departure.instant(),
        decreases board.len() - place,
    {
        place += 1;
    }
    proof {
        to_multiset_insert(board@, place as int, departure);
    }
    let ghost before = board@;
    board.insert(place, departure);
    assert forall|i: int, j: int| 0 <= i < j < board@.len() implies board@[i].instant()
        <= board@[j].instant() by {
        if j < place {
            assert(board@[i] == before[i] && board@[j] == before[j]);
        } else if j == place {
            assert(board@[i] == before[i]);
        } else if i < place {
            assert(board@[i] == before[i] && board@[j] == before[j - 1]);
            assert(place < before.len() ==> before[place as int].instant() > departure.instant());
        } else if i == place {
            assert(board@[j] == before[j - 1]);
        } else {
            assert(board@[i] == before[i - 1] && board@[j] == before[j - 1]);
        }
    }
}

/// The list of departures to show: of every trip in `scheduled` and
/// `predicted` one departure, the predicted one where there is one and of
/// several entries of one list the last; of these the ones after `now`, the
/// earliest first.
pub fn merge_times(
    scheduled: Vec<(String, Departure)>,
    predicted: Vec<(String, Departure)>,
    now: &Timestamp,
) -> (board: Option<Vec<Departure>>)
    ensures
        is_board(board.deep_view(), scheduled.deep_view() + predicted.deep_view(), *now),
{
    let mut scheduled_times = scheduled;
    let mut pred_times = predicted;
    let ghost entries = scheduled.deep_view() + predicted.deep_view();
    scheduled_times.append(&mut pred_times);
    assert(scheduled_times.deep_view() =~= entries);
    let mut all_times: Vec<Departure> = Vec::new();
    let mut i: usize = 0;
    proof {
        reveal(Seq::filter);
        assert(departing_after(current_upto(entries, 0), *now) =~= Seq::<Departure>::empty());
    }
    while i < scheduled_times.len()
        invariant
            i <= scheduled_times.len(),
            entries == scheduled_times.deep_view(),
            in_time_order(all_times@),
            all_times@.to_multiset() == departing_after(
                current_upto(entries, i as int),
                *now,
            ).to_multiset(),
        decreases scheduled_times.len() - i,
    {
        let date: Departure = scheduled_times[i].1;
        assert(entries[i as int] == scheduled_times@[i as int].deep_view());
        proof {
            lemma_filter_push(current_upto(entries, i as int), date, is_ahead_of(*now));
            vstd::seq_lib::to_multiset_build(
                departing_after(current_upto(entries, i as int), *now),
                date,
            );
        }
        if !is_superseded(&scheduled_times, i) && date.is_after(now) {
            insert_in_order(&mut all_times, date);
        }
        i += 1;
    }
    proof {
        assert(all_times.deep_view() =~= all_times@);
        departing_after(current(entries), *now).to_multiset_ensures();
        all_times@.to_multiset_ensures();
    }
    if all_times.len() == 0 {
        None
    } else {
        Some(all_times)
    }
}

/// The departures of a station that lie after `now`, the earliest first,
/// from the two answers of the service. Nothing where no departure lies
/// ahead.
///
/// An answer that cannot be read is an error, that with the predictions
/// before that with the schedule.
pub fn train_times(predictions_body: &str, schedules_body: &str, now: &Timestamp) -> (board: Result<
    Option<Vec<Departure>>,
    SourceError,
>)
    ensures
        board.is_ok() == (body_times(predictions_body@).is_ok() && body_times(
            schedules_body@,
        ).is_ok()),
        board matches Ok(found) ==> is_board(
            found.deep_view(),
            entries_of(body_times(schedules_body@).unwrap()) + entries_of(
                body_times(predictions_body@).unwrap(),
            ),
            *now,
        ),
        board matches Err(error) ==> body_times(predictions_body@) == Err::<
            Option<Seq<(Seq<char>, Departure)>>,
            SourceError,
        >(error) || (body_times(predictions_body@).is_ok() && body_times(schedules_body@) == Err::<
            Option<Seq<(Seq<char>, Departure)>>,
            SourceError,
        >(error)),
{
    let prediction_times: Option<Vec<(String, Departure)>> = match get_rout_times(
        predictions_body,
    ) {
        Ok(found) => found,
        Err(error) => {
            return Err(error);
        },
    };
    let scheduled_times: Option<Vec<(String, Departure)>> = match get_rout_times(schedules_body) {
        Ok(found) => found,
        Err(error) => {
            return Err(error);
        },
    };
    let scheduled: Vec<(String, Departure)> = match scheduled_times {
        Some(entries) => entries,
        None => Vec::new(),
    };
    let predicted: Vec<(String, Departure)> = match prediction_times {
        Some(entries) => entries,
        None => Vec::new(),
    };
    assert(scheduled.deep_view() =~= entries_of(body_times(schedules_body@).unwrap()));
    assert(predicted.deep_view() =~= entries_of(body_times(predictions_body@).unwrap()));
    Ok(merge_times(scheduled, predicted, now))
}

} // verus!
