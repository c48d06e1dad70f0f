use forest_hills_departure::cli::{
    arguments, direction_code_of, DEFAULT_BRIGHTNESS, GREATEST_BRIGHTNESS,
};
use forest_hills_departure::errors::{ConfigError, SourceError};
use forest_hills_departure::stations::{
    get_stations, station_hasmap, stations_of_buttons, StationTable,
};

fn pair(name: &str, code: &str) -> (String, String) {
    (name.to_string(), code.to_string())
}

fn page(buttons: &[(&str, &str)]) -> String {
    let mut html = String::from("<html><body><h1>Stops</h1><a class=\"btn\" href=\"/x\">x</a>");
    for (name, link) in buttons {
        html.push_str(&format!(
            "<div><a class=\"btn button stop-btn m-detailed-stop\" data-name=\"{}\" href=\"{}\">{}</a></div>",
            name, link, name
        ));
    }
    html.push_str("</body></html>");
    html
}

#[test]
fn stations_are_read_from_the_buttons_of_a_page() {
    let html = page(&[
        ("Forest Hills", "/stop/place-forhl"),
        ("South Station", "https://www.mbta.com/stop/place-sstat"),
        ("Fisherman's Wharf", "/stops/wharf"),
    ]);
    assert_eq!(
        get_stations(&html),
        Ok(vec![
            pair("Forest_Hills", "place-forhl"),
            pair("South_Station", "place-sstat"),
            pair("Fishermans_Wharf", "/stops/wharf"),
        ])
    );
}

#[test]
fn page_without_buttons_has_no_stations() {
    assert_eq!(get_stations("<html><body><a href=\"/stop/x\">x</a></body></html>"), Ok(vec![]));
    assert_eq!(get_stations(""), Ok(vec![]));
}

#[test]
fn button_without_name_or_link_is_an_error() {
    let html = "<a class=\"btn button stop-btn m-detailed-stop\" href=\"/stop/a\">a</a>";
    assert_eq!(get_stations(html), Err(SourceError::Station));
    let html = "<a class=\"btn button stop-btn m-detailed-stop\" data-name=\"A\">a</a>";
    assert_eq!(get_stations(html), Err(SourceError::Station));
}

#[test]
fn stations_of_buttons_keeps_the_order() {
    let buttons = vec![
        (Some("B C".to_string()), Some("/stop/2".to_string())),
        (Some("A".to_string()), Some("stop/1".to_string())),
    ];
    assert_eq!(stations_of_buttons(&buttons), Ok(vec![pair("B_C", "2"), pair("A", "1")]));
    let lacking = vec![(Some("A".to_string()), None)];
    assert_eq!(stations_of_buttons(&lacking), Err(SourceError::Station));
    assert_eq!(stations_of_buttons(&vec![]), Ok(vec![]));
}

#[test]
fn later_pages_replace_earlier_stations() {
    let subway = page(&[("Forest Hills", "/stop/place-forhl"), ("Park Street", "/stop/pktrm")]);
    let commuter = page(&[("Forest Hills", "/stop/forhl-cr"), ("Needham Heights", "/stop/nh")]);
    let ferry = page(&[("Long Wharf", "/stop/Boat-Long")]);
    let table = station_hasmap(&subway, &commuter, &ferry).unwrap();
    assert_eq!(table.get("Forest_Hills"), Some("forhl-cr".to_string()));
    assert_eq!(table.get("Park_Street"), Some("pktrm".to_string()));
    assert_eq!(table.get("Needham_Heights"), Some("nh".to_string()));
    assert_eq!(table.get("Long_Wharf"), Some("Boat-Long".to_string()));
    assert_eq!(table.get("Forest Hills"), None);
    assert_eq!(table.get(""), None);
    assert_eq!(
        table.names(),
        vec!["Forest_Hills", "Park_Street", "Forest_Hills", "Needham_Heights", "Long_Wharf"]
    );
}

#[test]
fn bad_page_fails_the_whole_table() {
    let good = page(&[("A", "/stop/a")]);
    let bad = "<a class=\"btn button stop-btn m-detailed-stop\" data-name=\"A\">a</a>";
    assert!(station_hasmap(&good, &good, &good).is_ok());
    assert_eq!(station_hasmap(bad, &good, &good).err(), Some(SourceError::Station));
    assert_eq!(station_hasmap(&good, bad, &good).err(), Some(SourceError::Station));
    assert_eq!(station_hasmap(&good, &good, bad).err(), Some(SourceError::Station));
}

#[test]
fn table_extend_and_get() {
    let mut table = StationTable::new();
    assert_eq!(table.get("a"), None);
    assert_eq!(table.names(), Vec::<String>::new());
    table.extend(vec![pair("a", "1"), pair("b", "2")]);
    table.extend(vec![pair("a", "3")]);
    assert_eq!(table.get("a"), Some("3".to_string()));
    assert_eq!(table.get("b"), Some("2".to_string()));
    assert_eq!(table.get("c"), None);
}

fn table() -> StationTable {
    let mut table = StationTable::new();
    table.extend(vec![pair("Forest_Hills", "forhl"), pair("South_Station", "sstat")]);
    table
}

#[test]
fn direction_codes() {
    assert_eq!(direction_code_of("inbound"), Some("1".to_string()));
    assert_eq!(direction_code_of("outbound"), Some("0".to_string()));
    assert_eq!(direction_code_of("Inbound"), None);
    assert_eq!(direction_code_of(""), None);
}

#[test]
fn arguments_with_default_brightness() {
    assert_eq!(DEFAULT_BRIGHTNESS, 7);
    assert_eq!(GREATEST_BRIGHTNESS, 9);
    assert_eq!(
        arguments(Some("inbound"), Some("Forest_Hills"), None, &table()),
        Ok(("1".to_string(), "forhl".to_string(), 7))
    );
    assert_eq!(
        arguments(Some("outbound"), Some("South_Station"), Some("3"), &table()),
        Ok(("0".to_string(), "sstat".to_string(), 3))
    );
    assert_eq!(
        arguments(Some("outbound"), Some("South_Station"), Some("+9"), &table()),
        Ok(("0".to_string(), "sstat".to_string(), 9))
    );
    assert_eq!(
        arguments(Some("outbound"), Some("South_Station"), Some("0"), &table()),
        Ok(("0".to_string(), "sstat".to_string(), 0))
    );
}

#[test]
fn arguments_report_the_first_bad_setting() {
    let stations = table();
    assert_eq!(
        arguments(Some("sideways"), Some("Nowhere"), Some("x"), &stations),
        Err(ConfigError::UnknownDirection)
    );
    assert_eq!(
        arguments(None, Some("Forest_Hills"), None, &stations),
        Err(ConfigError::UnknownDirection)
    );
    assert_eq!(
        arguments(Some("inbound"), Some("Nowhere"), Some("x"), &stations),
        Err(ConfigError::UnknownStation)
    );
    assert_eq!(arguments(Some("inbound"), None, None, &stations), Err(ConfigError::UnknownStation));
    assert_eq!(
        arguments(Some("inbound"), Some("Forest_Hills"), Some("bright"), &stations),
        Err(ConfigError::Brightness)
    );
    assert_eq!(
        arguments(Some("inbound"), Some("Forest_Hills"), Some("256"), &stations),
        Err(ConfigError::Brightness)
    );
    assert_eq!(
        arguments(Some("inbound"), Some("Forest_Hills"), Some("10"), &stations),
        Err(ConfigError::Brightness)
    );
    assert_eq!(
        arguments(Some("inbound"), Some("Forest_Hills"), Some(""), &stations),
        Err(ConfigError::Brightness)
    );
}
