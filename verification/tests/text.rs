use forest_hills_departure::text::{
    decimal, parse_u8, same_text, station_key_of, text_after_last,
};

#[test]
fn same_text_compares_characters() {
    assert!(same_text("", ""));
    assert!(same_text("inbound", "inbound"));
    assert!(!same_text("inbound", "inbounds"));
    assert!(!same_text("inbound", "outbound"));
    assert!(same_text("Grüße", "Grüße"));
    assert!(!same_text("Grüße", "Grusse"));
}

#[test]
fn parse_u8_agrees_with_std() {
    let texts = [
        "", "+", "-", "0", "7", "+7", "007", "12", "255", "256", "0256", "999", "1000000",
        "+255", "++1", "-1", "1 ", " 1", "1a", "a", "१२", "+0", "25５",
    ];
    for text in texts {
        assert_eq!(parse_u8(text), text.parse::<u8>().ok(), "{:?}", text);
    }
    assert_eq!(parse_u8("15"), Some(15));
    assert_eq!(parse_u8("256"), None);
}

#[test]
fn decimal_writes_without_leading_zeros() {
    for number in 0..=255u8 {
        assert_eq!(decimal(number), format!("{}", number));
    }
}

#[test]
fn station_key_replaces_spaces_and_drops_apostrophes() {
    assert_eq!(station_key_of("Forest Hills"), "Forest_Hills");
    assert_eq!(station_key_of("Fisherman's Wharf  North"), "Fishermans_Wharf__North");
    assert_eq!(station_key_of("''"), "");
    assert_eq!(station_key_of(""), "");
    let names = ["South Station", "O'Neil ' s", " a b ", "Gare d'Évry"];
    for name in names {
        assert_eq!(station_key_of(name), name.replace(" ", "_").replace("'", ""));
    }
}

#[test]
fn text_after_last_agrees_with_split() {
    let texts = [
        "/stop/place-forhl",
        "https://www.mbta.com/stop/place-sstat",
        "/stops/place-sstat",
        "stop/",
        "stop/stop/",
        "a/stop/b/stop/c",
        "",
        "stop",
        "top/",
        "/stop/é/stop/ü",
    ];
    for text in texts {
        assert_eq!(text_after_last(text, "stop/"), text.split("stop/").last().unwrap());
    }
    assert_eq!(text_after_last("/stop/place-forhl", "stop/"), "place-forhl");
    assert_eq!(text_after_last("/stops/place-sstat", "stop/"), "/stops/place-sstat");
    assert_eq!(text_after_last("abc", ""), "");
    assert_eq!(text_after_last("ab", "abc"), "ab");
}
