//! The four-digit clock that counts down to the next departure.

use vstd::prelude::*;
use crate::errors::ConfigError;
use crate::led_driver::{takes_brightness, BRIGHTEST};
use crate::lights::{
    after_commands, colon_lights, digit_lights, lemma_after_both, lemma_after_colon,
    lemma_after_digit_change, lemma_after_first_paint, shows_digit, with_digit,
};
use crate::renderer::{
    colon_commands, display_colon, is_digit_location, lemma_same_digit_no_commands, render_slot,
    slot_commands, ClockCommand, MINUTES_SINGLE, MINUTES_TEN, SECONDS_SINGLE, SECONDS_TEN,
};
use crate::selector::{candidate, select, selection, SelectorResult, MINUTES_LIMIT};
use crate::time::{lemma_remaining_parts, remaining_until, Departure, Remaining, Timestamp};

verus! {

/// The four digits of a countdown.
#[derive(Clone, Copy, Debug, PartialEq, Eq, Structural)]
pub struct Digits {
    /// Tens of the minutes.
    pub minutes_ten: u8,
    /// Units of the minutes.
    pub minutes_single: u8,
    /// Tens of the seconds.
    pub seconds_ten: u8,
    /// Units of the seconds.
    pub seconds_single: u8,
}

/// What the clock has been made to show.
#[derive(Clone, Copy, Debug, PartialEq, Eq, Structural)]
pub enum ClockState {
    /// Nothing was sent to the clock yet.
    Uninitialized,
    /// The four digits and the colon are lit.
    Showing(Digits),
    /// The clock was switched off as a whole.
    Cleared,
}

impl Digits {
    /// Whether every digit is a decimal digit.
    pub open spec fn valid(self) -> bool {
        self.minutes_ten <= 9 && self.minutes_single <= 9 && self.seconds_ten <= 9
            && self.seconds_single <= 9
    }
}

impl ClockState {
    /// Whether the digits shown, if any, are decimal digits.
    pub open spec fn valid(self) -> bool {
        self matches ClockState::Showing(digits) ==> digits.valid()
    }

    /// The digit kept for the position `location`, if one is shown there.
    pub open spec fn slot(self, location: u8) -> Option<u8> {
        match self {
            ClockState::Showing(digits) => if location == MINUTES_TEN {
                Some(digits.minutes_ten)
            } else if location == MINUTES_SINGLE {
                Some(digits.minutes_single)
            } else if location == SECONDS_TEN {
                Some(digits.seconds_ten)
            } else if location == SECONDS_SINGLE {
                Some(digits.seconds_single)
            } else {
                None
            },
            _ => None,
        }
    }
}

/// Whether a time left fits the clock: below a hundred minutes and not
/// negative.
pub open spec fn fits_clock(left: Remaining) -> bool {
    0 <= left.minutes < 100 && 0 <= left.seconds < 60
}

/// Whether the clock can draw what the selector chose.
pub open spec fn drawable(result: SelectorResult) -> bool {
    result matches SelectorResult::Show(left) ==> fits_clock(left)
}

/// The digits of a time left: tens and units of its minutes, then of its
/// seconds.
pub open spec fn digits_of(left: Remaining) -> Digits {
    Digits {
        minutes_ten: (left.minutes / 10) as u8,
        minutes_single: (left.minutes % 10) as u8,
        seconds_ten: (left.seconds / 10) as u8,
        seconds_single: (left.seconds % 10) as u8,
    }
}

/// Lighting all four digits on a dark clock, then the colon.
pub open spec fn full_paint(digits: Digits) -> Seq<ClockCommand> {
    slot_commands(None, digits.minutes_ten, MINUTES_TEN) + slot_commands(
        None,
        digits.minutes_single,
        MINUTES_SINGLE,
    ) + slot_commands(None, digits.seconds_ten, SECONDS_TEN) + slot_commands(
        None,
        digits.seconds_single,
        SECONDS_SINGLE,
    ) + colon_commands(true)
}

/// Changing the digits shown: position by position, the switches between
/// the old digit and the new one. The colon stays as it is.
pub open spec fn repaint(old: Digits, new: Digits) -> Seq<ClockCommand> {
    slot_commands(Some(old.minutes_ten), new.minutes_ten, MINUTES_TEN) + slot_commands(
        Some(old.minutes_single),
        new.minutes_single,
        MINUTES_SINGLE,
    ) + slot_commands(Some(old.seconds_ten), new.seconds_ten, SECONDS_TEN) + slot_commands(
        Some(old.seconds_single),
        new.seconds_single,
        SECONDS_SINGLE,
    )
}

/// The commands of one tick.
///
/// With nothing to show the clock is switched off, unless it was already.
/// With a time to show, a clock that shows digits is changed by their
/// difference, and any other clock is painted in full.
pub open spec fn tick_commands(state: ClockState, result: SelectorResult) -> Seq<ClockCommand> {
    match result {
        SelectorResult::Empty => if state == ClockState::Cleared {
            Seq::empty()
        } else {
            seq![ClockCommand::Clear]
        },
        SelectorResult::Show(left) => match state {
            ClockState::Showing(shown) => repaint(shown, digits_of(left)),
            _ => full_paint(digits_of(left)),
        },
    }
}

/// The state after one tick.
pub open spec fn next_state(state: ClockState, result: SelectorResult) -> ClockState {
    match result {
        SelectorResult::Empty => ClockState::Cleared,
        SelectorResult::Show(left) => ClockState::Showing(digits_of(left)),
    }
}

/// The LEDs that are on when the clock is in `state`.
pub open spec fn face(state: ClockState) -> Set<(u8, u8)> {
    match state {
        ClockState::Showing(digits) => digit_lights(digits.minutes_ten, MINUTES_TEN).union(
            digit_lights(digits.minutes_single, MINUTES_SINGLE),
        ).union(digit_lights(digits.seconds_ten, SECONDS_TEN)).union(
            digit_lights(digits.seconds_single, SECONDS_SINGLE),
        ).union(colon_lights()),
        _ => Set::empty(),
    }
}

/// The clock: what it shows, and how bright.
pub struct ClockDisplay {
    state: ClockState,
    brightness: u8,
}

impl View for ClockDisplay {
    type V = ClockState;

    closed spec fn view(&self) -> ClockState {
        self.state
    }
}

impl ClockDisplay {
    #[verifier::type_invariant]
    spec fn well_formed(self) -> bool {
        self.state.valid() && self.brightness <= BRIGHTEST
    }

    /// The brightness that the clock was made with.
    pub closed spec fn brightness_level(self) -> u8 {
        self.brightness
    }

    /// A clock that shows nothing yet, for a brightness that the LED driver
    /// takes.
    pub fn new(clock_brightness: u8) -> (made: Result<ClockDisplay, ConfigError>)
        ensures
            made.is_ok() == (clock_brightness <= BRIGHTEST),
            made matches Ok(clock) ==> clock@ == ClockState::Uninitialized
                && clock.brightness_level() == clock_brightness,
            made matches Err(error) ==> error == ConfigError::Brightness,
    {
        if takes_brightness(clock_brightness) {
            Ok(ClockDisplay { state: ClockState::Uninitialized, brightness: clock_brightness })
        } else {
            Err(ConfigError::Brightness)
        }
    }

    /// What the clock shows.
    pub fn state(&self) -> (state: ClockState)
        ensures
            state == self@,
            state.valid(),
    {
        proof {
            use_type_invariant(self);
        }
        self.state
    }

    /// The brightness, from 0 to 15.
    pub fn brightness(&self) -> (level: u8)
        ensures
            level == self.brightness_level(),
            level <= BRIGHTEST,
    {
        proof {
            use_type_invariant(self);
        }
        self.brightness
    }

    /// The digit kept for the tens of the minutes.
    pub fn minutes_ten(&self) -> (digit: Option<u8>)
        ensures
            digit == self@.slot(MINUTES_TEN),
    {
        match self.state {
            ClockState::Showing(digits) => Some(digits.minutes_ten),
            _ => None,
        }
    }

    /// The digit kept for the units of the minutes.
    pub fn minutes_single(&self) -> (digit: Option<u8>)
        ensures
            digit == self@.slot(MINUTES_SINGLE),
    {
        match self.state {
            ClockState::Showing(digits) => Some(digits.minutes_single),
            _ => None,
        }
    }

    /// The digit kept for the tens of the seconds.
    pub fn seconds_ten(&self) -> (digit: Option<u8>)
        ensures
            digit == self@.slot(SECONDS_TEN),
    {
        match self.state {
            ClockState::Showing(digits) => Some(digits.seconds_ten),
            _ => None,
        }
    }

    /// The digit kept for the units of the seconds.
    pub fn seconds_single(&self) -> (digit: Option<u8>)
        ensures
            digit == self@.slot(SECONDS_SINGLE),
    {
        match self.state {
            ClockState::Showing(digits) => Some(digits.seconds_single),
            _ => None,
        }
    }

    /// Shows the minutes and seconds until the next departure that is far
    /// enough away, or switches the clock off where there is none.
    ///
    /// Returns the commands for the LED driver, in the order in which they
    /// are to be performed.
    ///
    /// The choice of the selector has to be one that the clock can draw; with
    /// a lead time of 0 or more it always is.
    pub fn display_time_until(
        &mut self,
        train_times: &Vec<Departure>,
        now: &Timestamp,
        minimum_display_min: &i64,
    ) -> (commands: Vec<ClockCommand>)
        requires
            drawable(selection(train_times@, *now, *minimum_display_min)),
        ensures
            final(self)@ == next_state(
                old(self)@,
                selection(train_times@, *now, *minimum_display_min),
            ),
            train_times@.len() == 0 ==> final(self)@ == ClockState::Cleared,
            candidate(train_times@, *now, *minimum_display_min) matches Some(left) && left.minutes
                >= MINUTES_LIMIT ==> final(self)@ == ClockState::Cleared,
            commands@ == tick_commands(
                old(self)@,
                selection(train_times@, *now, *minimum_display_min),
            ),
            final(self).brightness_level() == old(self).brightness_level(),
    {
        let result: SelectorResult = select(train_times, now, *minimum_display_min);
        self.show(result)
    }

    /// One tick of the clock on what the selector chose.
    pub fn show(&mut self, result: SelectorResult) -> (commands: Vec<ClockCommand>)
        requires
            drawable(result),
        ensures
            final(self)@ == next_state(old(self)@, result),
            commands@ == tick_commands(old(self)@, result),
            final(self).brightness_level() == old(self).brightness_level(),
    {
        proof {
            use_type_invariant(&*self);
        }
        match result {
            SelectorResult::Empty => {
                if self.state == ClockState::Cleared {
                    Vec::new()
                } else {
                    self.clear_display()
                }
            },
            SelectorResult::Show(left) => {
                let new = Digits {
                    minutes_ten: (left.minutes / 10) as u8,
                    minutes_single: (left.minutes % 10) as u8,
                    seconds_ten: (left.seconds / 10) as u8,
                    seconds_single: (left.seconds % 10) as u8,
                };
                assert(new == digits_of(left));
                match self.state {
                    ClockState::Showing(shown) => {
                        let mut commands: Vec<ClockCommand> = Vec::new();
                        proof {
                            lemma_same_digit_no_commands(new.minutes_ten, MINUTES_TEN);
                            lemma_same_digit_no_commands(new.minutes_single, MINUTES_SINGLE);
                            lemma_same_digit_no_commands(new.seconds_ten, SECONDS_TEN);
                            lemma_same_digit_no_commands(new.seconds_single, SECONDS_SINGLE);
                        }
                        if new.minutes_ten != shown.minutes_ten {
                            let mut changes = self.change_number(MINUTES_TEN, &new.minutes_ten);
                            commands.append(&mut changes);
                        }
                        assert(commands@ =~= slot_commands(
                            Some(shown.minutes_ten),
                            new.minutes_ten,
                            MINUTES_TEN,
                        ));
                        if new.minutes_single != shown.minutes_single {
                            let mut changes = self.change_number(
                                MINUTES_SINGLE,
                                &new.minutes_single,
                            );
                            commands.append(&mut changes);
                        }
                        assert(commands@ =~= slot_commands(
                            Some(shown.minutes_ten),
                            new.minutes_ten,
                            MINUTES_TEN,
                        ) + slot_commands(
                            Some(shown.minutes_single),
                            new.minutes_single,
                            MINUTES_SINGLE,
                        ));
                        if new.seconds_ten != shown.seconds_ten {
                            let mut changes = self.change_number(SECONDS_TEN, &new.seconds_ten);
                            commands.append(&mut changes);
                        }
                        assert(commands@ =~= slot_commands(
                            Some(shown.minutes_ten),
                            new.minutes_ten,
                            MINUTES_TEN,
                        ) + slot_commands(
                            Some(shown.minutes_single),
                            new.minutes_single,
                            MINUTES_SINGLE,
                        ) + slot_commands(Some(shown.seconds_ten), new.seconds_ten, SECONDS_TEN));
                        if new.seconds_single != shown.seconds_single {
                            let mut changes = self.change_number(
                                SECONDS_SINGLE,
                                &new.seconds_single,
                            );
                            commands.append(&mut changes);
                        }
                        assert(commands@ =~= repaint(shown, new));
                        self.state = ClockState::Showing(new);
                        commands
                    },
                    _ => {
                        self.state = ClockState::Showing(new);
                        self.display_nums()
                    },
                }
            },
        }
    }

    /// Switches the whole clock off and forgets the digits.
    pub fn clear_display(&mut self) -> (commands: Vec<ClockCommand>)
        ensures
            final(self)@ == ClockState::Cleared,
            commands@ == seq![ClockCommand::Clear],
            final(self).brightness_level() == old(self).brightness_level(),
    {
        proof {
            use_type_invariant(&*self);
        }
        self.state = ClockState::Cleared;
        let mut commands: Vec<ClockCommand> = Vec::new();
        commands.push(ClockCommand::Clear);
        assert(commands@ =~= seq![ClockCommand::Clear]);
        commands
    }

    /// Lights all four digits that are kept, then the colon. Without digits
    /// only the colon is lit.
    pub fn display_nums(&self) -> (commands: Vec<ClockCommand>)
        ensures
            self@ matches ClockState::Showing(digits) ==> commands@ == full_paint(digits),
            !(self@ is Showing) ==> commands@ == colon_commands(true),
    {
        proof {
            use_type_invariant(self);
        }
        let mut commands: Vec<ClockCommand> = Vec::new();
        if let ClockState::Showing(digits) = self.state {
            let mut first = render_slot(None, digits.minutes_ten, MINUTES_TEN);
            let mut second = render_slot(None, digits.minutes_single, MINUTES_SINGLE);
            let mut third = render_slot(None, digits.seconds_ten, SECONDS_TEN);
            let mut fourth = render_slot(None, digits.seconds_single, SECONDS_SINGLE);
            commands.append(&mut first);
            commands.append(&mut second);
            commands.append(&mut third);
            commands.append(&mut fourth);
        }
        let mut colon = display_colon(true);
        commands.append(&mut colon);
        proof {
            if let ClockState::Showing(digits) = self@ {
                assert(commands@ =~= full_paint(digits));
            } else {
                assert(commands@ =~= colon_commands(true));
            }
        }
        commands
    }

    /// The switches that change the digit kept for `location` into
    /// `new_number`; where none is kept, the switches that light it.
    pub fn change_number(&self, location: u8, new_number: &u8) -> (commands: Vec<ClockCommand>)
        requires
            is_digit_location(location),
            *new_number <= 9,
        ensures
            commands@ == slot_commands(self@.slot(location), *new_number, location),
    {
        proof {
            use_type_invariant(self);
        }
        let old_number: Option<u8> = if location == MINUTES_TEN {
            self.minutes_ten()
        } else if location == MINUTES_SINGLE {
            self.minutes_single()
        } else if location == SECONDS_TEN {
            self.seconds_ten()
        } else {
            self.seconds_single()
        };
        render_slot(old_number, *new_number, location)
    }
}

/// With a lead time of 0 or more, the clock can draw whatever the selector
/// chooses: a time left that is shown has from 1 to 99 whole minutes and
/// from 0 to 59 seconds beyond them.
pub proof fn lemma_lead_time_is_drawable(
    train_times: Seq<Departure>,
    now: Timestamp,
    minimum_display_min: i64,
)
    requires
        minimum_display_min >= 0,
    ensures
        drawable(selection(train_times, now, minimum_display_min)),
{
    if train_times.len() > 0 {
        lemma_remaining_parts(train_times[0], now);
    }
    if train_times.len() > 1 {
        lemma_remaining_parts(train_times[1], now);
    }
}

/// Whatever the lead time, a departure that is looked at and lies a hundred
/// whole minutes or more ahead is not drawn: the clock ends switched off
/// with no digit kept, and no LED is switched on.
pub proof fn lemma_far_departure_clears_clock(
    state: ClockState,
    train_times: Seq<Departure>,
    now: Timestamp,
    minimum_display_min: i64,
)
    requires
        candidate(train_times, now, minimum_display_min) matches Some(left) && left.minutes
            >= MINUTES_LIMIT,
    ensures
        selection(train_times, now, minimum_display_min) == SelectorResult::Empty,
        drawable(selection(train_times, now, minimum_display_min)),
        next_state(state, selection(train_times, now, minimum_display_min))
            == ClockState::Cleared,
        forall|location: u8|
            next_state(state, selection(train_times, now, minimum_display_min)).slot(
                location,
            ).is_none(),
        after_commands(
            face(state),
            tick_commands(state, selection(train_times, now, minimum_display_min)),
        ) == Set::<(u8, u8)>::empty(),
{
    lemma_empty_clears(state);
}

/// Whatever the lead time and the hour, an empty list of departures can be
/// drawn: the clock ends switched off with no digit kept and every LED dark.
pub proof fn lemma_empty_list_clears_clock(
    state: ClockState,
    train_times: Seq<Departure>,
    now: Timestamp,
    minimum_display_min: i64,
)
    requires
        train_times.len() == 0,
    ensures
        selection(train_times, now, minimum_display_min) == SelectorResult::Empty,
        drawable(selection(train_times, now, minimum_display_min)),
        next_state(state, selection(train_times, now, minimum_display_min))
            == ClockState::Cleared,
        forall|location: u8|
            next_state(state, selection(train_times, now, minimum_display_min)).slot(
                location,
            ).is_none(),
        after_commands(
            face(state),
            tick_commands(state, selection(train_times, now, minimum_display_min)),
        ) == Set::<(u8, u8)>::empty(),
{
    lemma_empty_clears(state);
}

/// A tick on the choice that the clock already shows sends nothing and
/// changes nothing.
pub proof fn lemma_repeated_tick_is_silent(state: ClockState, result: SelectorResult)
    ensures
        tick_commands(next_state(state, result), result).len() == 0,
        next_state(next_state(state, result), result) == next_state(state, result),
{
    if let SelectorResult::Show(left) = result {
        let digits = digits_of(left);
        lemma_same_digit_no_commands(digits.minutes_ten, MINUTES_TEN);
        lemma_same_digit_no_commands(digits.minutes_single, MINUTES_SINGLE);
        lemma_same_digit_no_commands(digits.seconds_ten, SECONDS_TEN);
        lemma_same_digit_no_commands(digits.seconds_single, SECONDS_SINGLE);
    }
}

/// A tick at a later time that leaves the same whole minutes and seconds, on
/// the same two departures, sends nothing and changes nothing, whatever the
/// lead time; the clock can draw the later choice where it could draw the
/// earlier one.
pub proof fn lemma_unchanged_time_is_silent(
    state: ClockState,
    train_times: Seq<Departure>,
    now: Timestamp,
    later: Timestamp,
    minimum_display_min: i64,
)
    requires
        forall|i: int|
            0 <= i < train_times.len() && i < 2 ==> remaining_until(train_times[i], later)
                == remaining_until(train_times[i], now),
    ensures
        selection(train_times, later, minimum_display_min) == selection(
            train_times,
            now,
            minimum_display_min,
        ),
        drawable(selection(train_times, later, minimum_display_min)) == drawable(
            selection(train_times, now, minimum_display_min),
        ),
        tick_commands(
            next_state(state, selection(train_times, now, minimum_display_min)),
            selection(train_times, later, minimum_display_min),
        ).len() == 0,
        next_state(
            next_state(state, selection(train_times, now, minimum_display_min)),
            selection(train_times, later, minimum_display_min),
        ) == next_state(state, selection(train_times, now, minimum_display_min)),
{
    lemma_repeated_tick_is_silent(state, selection(train_times, now, minimum_display_min));
}

/// With nothing to show, the clock ends switched off with no digit kept.
pub proof fn lemma_empty_clears(state: ClockState)
    ensures
        next_state(state, SelectorResult::Empty) == ClockState::Cleared,
        state != ClockState::Cleared ==> tick_commands(state, SelectorResult::Empty) == seq![
            ClockCommand::Clear,
        ],
        forall|location: u8| next_state(state, SelectorResult::Empty).slot(location).is_none(),
        after_commands(face(state), tick_commands(state, SelectorResult::Empty)) == Set::<
            (u8, u8),
        >::empty(),
{
    reveal_with_fuel(after_commands, 2);
    if state == ClockState::Cleared {
    } else {
        let commands = seq![ClockCommand::Clear];
        assert(commands.drop_last() =~= Seq::<ClockCommand>::empty());
    }
}

/// A full paint on a dark clock shows exactly the face of its digits.
pub proof fn lemma_full_paint_shows_face(digits: Digits)
    ensures
        after_commands(Set::empty(), full_paint(digits)) == face(ClockState::Showing(digits)),
{
    let dark = Set::<(u8, u8)>::empty();
    let c1 = slot_commands(None, digits.minutes_ten, MINUTES_TEN);
    let c2 = slot_commands(None, digits.minutes_single, MINUTES_SINGLE);
    let c3 = slot_commands(None, digits.seconds_ten, SECONDS_TEN);
    let c4 = slot_commands(None, digits.seconds_single, SECONDS_SINGLE);
    let l1 = with_digit(dark, digits.minutes_ten, MINUTES_TEN);
    let l2 = with_digit(l1, digits.minutes_single, MINUTES_SINGLE);
    let l3 = with_digit(l2, digits.seconds_ten, SECONDS_TEN);
    let l4 = with_digit(l3, digits.seconds_single, SECONDS_SINGLE);
    lemma_after_first_paint(dark, digits.minutes_ten, MINUTES_TEN);
    lemma_after_first_paint(l1, digits.minutes_single, MINUTES_SINGLE);
    lemma_after_first_paint(l2, digits.seconds_ten, SECONDS_TEN);
    lemma_after_first_paint(l3, digits.seconds_single, SECONDS_SINGLE);
    lemma_after_both(dark, c1, c2);
    lemma_after_both(dark, c1 + c2, c3);
    lemma_after_both(dark, c1 + c2 + c3, c4);
    lemma_after_both(dark, c1 + c2 + c3 + c4, colon_commands(true));
    lemma_after_colon(l4);
    assert(l4.union(colon_lights()) =~= face(ClockState::Showing(digits)));
}

/// Changing the digits by their differences shows exactly what a full
/// paint of the new digits shows.
pub proof fn lemma_repaint_shows_face(old: Digits, new: Digits)
    ensures
        after_commands(face(ClockState::Showing(old)), repaint(old, new)) == face(
            ClockState::Showing(new),
        ),
        after_commands(face(ClockState::Showing(old)), repaint(old, new)) == after_commands(
            Set::empty(),
            full_paint(new),
        ),
{
    let l0 = face(ClockState::Showing(old));
    let c1 = slot_commands(Some(old.minutes_ten), new.minutes_ten, MINUTES_TEN);
    let c2 = slot_commands(Some(old.minutes_single), new.minutes_single, MINUTES_SINGLE);
    let c3 = slot_commands(Some(old.seconds_ten), new.seconds_ten, SECONDS_TEN);
    let c4 = slot_commands(Some(old.seconds_single), new.seconds_single, SECONDS_SINGLE);
    let l1 = with_digit(l0, new.minutes_ten, MINUTES_TEN);
    let l2 = with_digit(l1, new.minutes_single, MINUTES_SINGLE);
    let l3 = with_digit(l2, new.seconds_ten, SECONDS_TEN);
    let l4 = with_digit(l3, new.seconds_single, SECONDS_SINGLE);
    assert(shows_digit(l0, old.minutes_ten, MINUTES_TEN));
    lemma_after_digit_change(l0, old.minutes_ten, new.minutes_ten, MINUTES_TEN);
    assert(shows_digit(l1, old.minutes_single, MINUTES_SINGLE));
    lemma_after_digit_change(l1, old.minutes_single, new.minutes_single, MINUTES_SINGLE);
    assert(shows_digit(l2, old.seconds_ten, SECONDS_TEN));
    lemma_after_digit_change(l2, old.seconds_ten, new.seconds_ten, SECONDS_TEN);
    assert(shows_digit(l3, old.seconds_single, SECONDS_SINGLE));
    lemma_after_digit_change(l3, old.seconds_single, new.seconds_single, SECONDS_SINGLE);
    lemma_after_both(l0, c1, c2);
    lemma_after_both(l0, c1 + c2, c3);
    lemma_after_both(l0, c1 + c2 + c3, c4);
    assert(l4 =~= face(ClockState::Showing(new)));
    lemma_full_paint_shows_face(new);
}

/// Tick by tick the LEDs that are on are exactly the face of the state that
/// the clock keeps, provided that every command is performed.
pub proof fn lemma_display_follows_state(state: ClockState, result: SelectorResult)
    ensures
        after_commands(face(state), tick_commands(state, result)) == face(
            next_state(state, result),
        ),
{
    match result {
        SelectorResult::Empty => {
            lemma_empty_clears(state);
        },
        SelectorResult::Show(left) => {
            match state {
                ClockState::Showing(shown) => {
                    lemma_repaint_shows_face(shown, digits_of(left));
                },
                _ => {
                    lemma_full_paint_shows_face(digits_of(left));
                },
            }
        },
    }
}

} // verus!
