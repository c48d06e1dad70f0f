use forest_hills_departure::errors::{ConfigError, LedRefused};
use forest_hills_departure::ht16k33_clock::{ClockDisplay, ClockState, Digits};
use forest_hills_departure::led_driver::{has_led, takes_brightness, BRIGHTEST, COMMONS, ROWS};
use forest_hills_departure::renderer::{
    display_colon, render_slot, switch_leds, ClockCommand, COLON, MINUTES_SINGLE, MINUTES_TEN,
    SECONDS_SINGLE, SECONDS_TEN,
};
use forest_hills_departure::segments::segments_for;
use forest_hills_departure::selector::SelectorResult;
use forest_hills_departure::time::{Remaining, Timestamp};

fn on(location: u8, led: u8) -> ClockCommand {
    ClockCommand::SetLed { location, led, on: true }
}

fn off(location: u8, led: u8) -> ClockCommand {
    ClockCommand::SetLed { location, led, on: false }
}

fn perform(lights: &mut Vec<(u8, u8)>, commands: &[ClockCommand]) {
    for command in commands {
        match *command {
            ClockCommand::SetLed { location, led, on } => {
                lights.retain(|light| *light != (location, led));
                if on {
                    lights.push((location, led));
                }
            }
            ClockCommand::Clear => lights.clear(),
        }
    }
    lights.sort();
}

fn at(seconds: i64) -> Timestamp {
    Timestamp::new(seconds, 0, 0)
}

#[test]
fn segment_table_matches_the_wiring() {
    assert_eq!(segments_for(0), vec![0, 1, 2, 3, 4, 5]);
    assert_eq!(segments_for(1), vec![1, 2]);
    assert_eq!(segments_for(2), vec![0, 1, 3, 4, 6]);
    assert_eq!(segments_for(3), vec![0, 1, 2, 3, 6]);
    assert_eq!(segments_for(4), vec![1, 2, 5, 6]);
    assert_eq!(segments_for(5), vec![0, 2, 3, 5, 6]);
    assert_eq!(segments_for(6), vec![0, 2, 3, 4, 5, 6]);
    assert_eq!(segments_for(7), vec![0, 1, 2]);
    assert_eq!(segments_for(8), vec![0, 1, 2, 3, 4, 5, 6]);
    assert_eq!(segments_for(9), vec![0, 1, 2, 3, 5, 6]);
}

#[test]
fn segment_sets_are_distinct() {
    for a in 0..10u8 {
        for b in 0..10u8 {
            if a != b {
                assert_ne!(segments_for(a), segments_for(b));
            }
        }
    }
}

#[test]
fn same_digit_issues_no_writes() {
    for digit in 0..10u8 {
        for location in [MINUTES_TEN, MINUTES_SINGLE, SECONDS_TEN, SECONDS_SINGLE] {
            assert_eq!(render_slot(Some(digit), digit, location), vec![]);
        }
    }
}

#[test]
fn unlit_slot_is_painted_in_full() {
    assert_eq!(
        render_slot(None, 7, SECONDS_TEN),
        vec![on(SECONDS_TEN, 0), on(SECONDS_TEN, 1), on(SECONDS_TEN, 2)]
    );
}

#[test]
fn changed_digit_switches_off_before_on() {
    assert_eq!(
        render_slot(Some(1), 2, MINUTES_SINGLE),
        vec![
            off(MINUTES_SINGLE, 2),
            on(MINUTES_SINGLE, 0),
            on(MINUTES_SINGLE, 3),
            on(MINUTES_SINGLE, 4),
            on(MINUTES_SINGLE, 6),
        ]
    );
    assert_eq!(render_slot(Some(8), 0, MINUTES_TEN), vec![off(MINUTES_TEN, 6)]);
    assert_eq!(render_slot(Some(0), 8, MINUTES_TEN), vec![on(MINUTES_TEN, 6)]);
}

#[test]
fn writes_are_the_symmetric_difference() {
    for old in 0..10u8 {
        for new in 0..10u8 {
            let before = segments_for(old);
            let after = segments_for(new);
            let commands = render_slot(Some(old), new, SECONDS_SINGLE);
            let mut offs = vec![];
            let mut ons = vec![];
            let mut seen_on = false;
            for command in &commands {
                match *command {
                    ClockCommand::SetLed { location, led, on } => {
                        assert_eq!(location, SECONDS_SINGLE);
                        if on {
                            seen_on = true;
                            ons.push(led);
                        } else {
                            assert!(!seen_on);
                            offs.push(led);
                        }
                    }
                    ClockCommand::Clear => panic!("a digit change never clears"),
                }
            }
            for led in 0..7u8 {
                let changed = before.contains(&led) != after.contains(&led);
                assert_eq!(offs.contains(&led) || ons.contains(&led), changed);
                assert!(!(offs.contains(&led) && ons.contains(&led)));
                assert_eq!(offs.contains(&led), before.contains(&led) && !after.contains(&led));
                assert_eq!(ons.contains(&led), after.contains(&led) && !before.contains(&led));
            }
            assert_eq!(commands.len(), offs.len() + ons.len());
            if old != new {
                assert!(!commands.is_empty());
            }
        }
    }
}

#[test]
fn switch_leds_keeps_the_order() {
    assert_eq!(switch_leds(&vec![5, 1, 3], 6, false), Ok(vec![off(6, 5), off(6, 1), off(6, 3)]));
    assert_eq!(switch_leds(&vec![], 6, true), Ok(vec![]));
    assert_eq!(switch_leds(&vec![7], 15, true), Ok(vec![on(15, 7)]));
}

#[test]
fn switch_leds_refuses_what_the_driver_lacks() {
    assert_eq!(
        switch_leds(&vec![1, 8, 9], 6, true),
        Err(LedRefused { location: 6, led: 8 })
    );
    assert_eq!(
        switch_leds(&vec![3, 2], 16, false),
        Err(LedRefused { location: 16, led: 3 })
    );
    assert_eq!(switch_leds(&vec![], 16, false), Ok(vec![]));
}

#[test]
fn driver_has_sixteen_rows_of_eight_leds() {
    assert_eq!((ROWS, COMMONS), (16, 8));
    for location in 0..=255u8 {
        for led in [0u8, 1, 6, 7, 8, 9, 200, 255] {
            assert_eq!(has_led(location, led), location < 16 && led < 8);
        }
    }
    for level in 0..=255u8 {
        assert_eq!(takes_brightness(level), level <= 15);
    }
}

#[test]
fn colon_is_two_leds_at_location_four() {
    assert_eq!(display_colon(true), vec![on(COLON, 0), on(COLON, 1)]);
    assert_eq!(display_colon(false), vec![off(COLON, 0), off(COLON, 1)]);
    assert_eq!(COLON, 4);
    assert_eq!(
        [MINUTES_TEN, MINUTES_SINGLE, SECONDS_TEN, SECONDS_SINGLE],
        [0, 2, 6, 8]
    );
}

#[test]
fn new_clock_takes_driver_brightness() {
    for level in 0..=15u8 {
        let clock = ClockDisplay::new(level).unwrap();
        assert_eq!(clock.brightness(), level);
        assert_eq!(clock.state(), ClockState::Uninitialized);
        assert_eq!(clock.minutes_ten(), None);
    }
    assert_eq!(BRIGHTEST, 15);
    assert_eq!(ClockDisplay::new(16).err(), Some(ConfigError::Brightness));
    assert_eq!(ClockDisplay::new(255).err(), Some(ConfigError::Brightness));
}

#[test]
fn thirty_seven_minutes_five_seconds_round_trip() {
    let mut clock = ClockDisplay::new(7).unwrap();
    let now = at(1_000);
    let snapshot = vec![at(1_000 + 37 * 60 + 5)];
    let commands = clock.display_time_until(&snapshot, &now, &5);
    assert_eq!(
        clock.state(),
        ClockState::Showing(Digits {
            minutes_ten: 3,
            minutes_single: 7,
            seconds_ten: 0,
            seconds_single: 5
        })
    );
    assert_eq!(clock.minutes_ten(), Some(3));
    assert_eq!(clock.minutes_single(), Some(7));
    assert_eq!(clock.seconds_ten(), Some(0));
    assert_eq!(clock.seconds_single(), Some(5));
    let mut expected = vec![];
    for led in [0, 1, 2, 3, 6] {
        expected.push(on(0, led));
    }
    for led in [0, 1, 2] {
        expected.push(on(2, led));
    }
    for led in [0, 1, 2, 3, 4, 5] {
        expected.push(on(6, led));
    }
    for led in [0, 2, 3, 5, 6] {
        expected.push(on(8, led));
    }
    expected.push(on(4, 0));
    expected.push(on(4, 1));
    assert_eq!(commands, expected);

    // Reaching the same digits by differences lights the same LEDs.
    let mut painted = vec![];
    perform(&mut painted, &commands);
    let mut other = ClockDisplay::new(7).unwrap();
    let mut diffed = vec![];
    let first = other.display_time_until(&vec![at(1_000 + 12 * 60 + 48)], &now, &5);
    perform(&mut diffed, &first);
    let second = other.display_time_until(&snapshot, &now, &5);
    assert!(second.iter().all(|command| *command != ClockCommand::Clear));
    perform(&mut diffed, &second);
    assert_eq!(diffed, painted);
    assert_eq!(other.state(), clock.state());
}

#[test]
fn tick_changes_only_the_digits_that_differ() {
    let mut clock = ClockDisplay::new(7).unwrap();
    let snapshot = vec![at(10_000)];
    clock.display_time_until(&snapshot, &at(10_000 - (12 * 60 + 30)), &5);
    let commands = clock.display_time_until(&snapshot, &at(10_000 - (12 * 60 + 29)), &5);
    // 12:30 -> 12:29: seconds tens 3 -> 2, seconds units 0 -> 9.
    assert_eq!(
        commands,
        vec![off(6, 2), on(6, 4), off(8, 4), on(8, 6)]
    );
    assert_eq!(
        clock.state(),
        ClockState::Showing(Digits {
            minutes_ten: 1,
            minutes_single: 2,
            seconds_ten: 2,
            seconds_single: 9
        })
    );
}

#[test]
fn empty_snapshot_clears_clock_once() {
    let mut clock = ClockDisplay::new(7).unwrap();
    assert_eq!(clock.display_time_until(&vec![], &at(0), &5), vec![ClockCommand::Clear]);
    assert_eq!(clock.state(), ClockState::Cleared);
    assert_eq!(clock.display_time_until(&vec![], &at(1), &5), vec![]);
    assert_eq!(clock.state(), ClockState::Cleared);

    let mut shown = ClockDisplay::new(7).unwrap();
    shown.display_time_until(&vec![at(600)], &at(0), &5);
    assert_eq!(shown.display_time_until(&vec![], &at(0), &5), vec![ClockCommand::Clear]);
    assert_eq!(shown.state(), ClockState::Cleared);
    assert_eq!(shown.minutes_ten(), None);
    assert_eq!(shown.minutes_single(), None);
    assert_eq!(shown.seconds_ten(), None);
    assert_eq!(shown.seconds_single(), None);
}

#[test]
fn clearing_needs_no_lead_time() {
    for lead in [-1_000i64, -5, -1, 0, 5, 99, 100, 1_000] {
        let mut clock = ClockDisplay::new(7).unwrap();
        clock.display_time_until(&vec![at(600)], &at(0), &5);
        assert_eq!(clock.display_time_until(&vec![], &at(0), &lead), vec![ClockCommand::Clear]);
        assert_eq!(clock.state(), ClockState::Cleared);
        assert_eq!(clock.display_time_until(&vec![], &at(0), &lead), vec![]);

        let mut far = ClockDisplay::new(7).unwrap();
        far.display_time_until(&vec![at(600)], &at(0), &5);
        let commands = far.display_time_until(&vec![at(100 * 60), at(200 * 60)], &at(0), &lead);
        assert_eq!(commands, vec![ClockCommand::Clear]);
        assert_eq!(far.state(), ClockState::Cleared);
        assert_eq!(far.minutes_ten(), None);
    }
}

#[test]
fn cleared_clock_is_painted_in_full_again() {
    let mut clock = ClockDisplay::new(7).unwrap();
    let first = clock.display_time_until(&vec![at(600)], &at(0), &5);
    clock.display_time_until(&vec![], &at(0), &5);
    let again = clock.display_time_until(&vec![at(600)], &at(0), &5);
    assert_eq!(first, again);
    assert_eq!(again.len(), 2 + 6 + 6 + 6 + 2);
}

#[test]
fn unchanged_time_issues_no_clock_writes() {
    let mut clock = ClockDisplay::new(7).unwrap();
    let snapshot = vec![at(2_000), at(4_000)];
    let now = Timestamp::new(1_000, 100_000_000, 0);
    let later = Timestamp::new(1_000, 900_000_000, 0);
    assert!(!clock.display_time_until(&snapshot, &now, &5).is_empty());
    let before = clock.state();
    assert_eq!(clock.display_time_until(&snapshot, &later, &5), vec![]);
    assert_eq!(clock.state(), before);
}

#[test]
fn clear_display_always_clears() {
    let mut clock = ClockDisplay::new(3).unwrap();
    assert_eq!(clock.clear_display(), vec![ClockCommand::Clear]);
    assert_eq!(clock.clear_display(), vec![ClockCommand::Clear]);
    assert_eq!(clock.state(), ClockState::Cleared);
    assert_eq!(clock.brightness(), 3);
}

#[test]
fn show_and_helpers_agree_with_the_tick() {
    let mut clock = ClockDisplay::new(7).unwrap();
    assert_eq!(clock.display_nums(), display_colon(true));
    assert_eq!(clock.change_number(MINUTES_TEN, &1), render_slot(None, 1, MINUTES_TEN));
    let painted = clock.show(SelectorResult::Show(Remaining { minutes: 9, seconds: 59 }));
    assert_eq!(painted, clock.display_nums());
    assert_eq!(clock.change_number(SECONDS_TEN, &4), render_slot(Some(5), 4, SECONDS_TEN));
    assert_eq!(clock.change_number(MINUTES_TEN, &0), vec![]);
    assert_eq!(clock.show(SelectorResult::Empty), vec![ClockCommand::Clear]);
}
