//! Turning a change of one digit into the fewest LED switches.

use vstd::prelude::*;
use crate::errors::LedRefused;
use crate::led_driver::{addressable, has_led};
use crate::segments::{
    lemma_lit_table, lemma_segments_in_range, lit, segment_seq, segment_set, segments_for,
};
use crate::sequences::lemma_filter_push;

verus! {

/// Position of the tens of the minutes.
pub const MINUTES_TEN: u8 = 0;

/// Position of the units of the minutes.
pub const MINUTES_SINGLE: u8 = 2;

/// Position of the colon between minutes and seconds.
pub const COLON: u8 = 4;

/// Position of the tens of the seconds.
pub const SECONDS_TEN: u8 = 6;

/// Position of the units of the seconds.
pub const SECONDS_SINGLE: u8 = 8;

/// One command for the LED driver of the clock.
#[derive(Clone, Copy, Debug, PartialEq, Eq, Structural)]
pub enum ClockCommand {
    /// Switch the LED `led` of the position `location` on or off.
    SetLed { location: u8, led: u8, on: bool },
    /// Switch every LED of the clock off.
    Clear,
}

/// Whether `location` is one of the four digit positions.
pub open spec fn is_digit_location(location: u8) -> bool {
    location == MINUTES_TEN || location == MINUTES_SINGLE || location == SECONDS_TEN || location
        == SECONDS_SINGLE
}

/// The test "`digit` leaves this LED dark".
pub open spec fn unlit_by(digit: u8) -> spec_fn(u8) -> bool {
    |led: u8| !lit(digit, led)
}

/// One switch per LED of `leds`, in their order, all at `location`.
pub open spec fn switches(leds: Seq<u8>, location: u8, on: bool) -> Seq<ClockCommand> {
    leds.map_values(|led: u8| ClockCommand::SetLed { location, led, on })
}

/// The LEDs that `old` lights and `new` does not.
pub open spec fn leds_to_switch_off(old: u8, new: u8) -> Seq<u8> {
    segment_seq(old).filter(unlit_by(new))
}

/// The LEDs that `new` lights and `old` does not.
pub open spec fn leds_to_switch_on(old: u8, new: u8) -> Seq<u8> {
    segment_seq(new).filter(unlit_by(old))
}

/// The commands that turn a position showing `old` (or nothing) into one
/// showing `new`: with nothing shown, every LED of `new` is lit; otherwise
/// the LEDs only `old` has go off first, then the LEDs only `new` has go on.
pub open spec fn slot_commands(old: Option<u8>, new: u8, location: u8) -> Seq<ClockCommand> {
    match old {
        None => switches(segment_seq(new), location, true),
        Some(shown) => switches(leds_to_switch_off(shown, new), location, false) + switches(
            leds_to_switch_on(shown, new),
            location,
            true,
        ),
    }
}

/// The two LEDs of the colon, switched `on` or off.
pub open spec fn colon_commands(on: bool) -> Seq<ClockCommand> {
    seq![
        ClockCommand::SetLed { location: COLON, led: 0, on },
        ClockCommand::SetLed { location: COLON, led: 1, on },
    ]
}

/// The first of `leds` that the driver does not have at `location`.
pub open spec fn refused_led(leds: Seq<u8>, location: u8) -> Option<u8>
    decreases leds.len(),
{
    if leds.len() == 0 {
        None
    } else if !addressable(location, leds[0]) {
        Some(leds[0])
    } else {
        refused_led(leds.drop_first(), location)
    }
}

/// Where the driver has every LED of a run, none is refused.
pub proof fn lemma_none_refused(leds: Seq<u8>, location: u8)
    requires
        forall|i: int| 0 <= i < leds.len() ==> addressable(location, #[trigger] leds[i]),
    ensures
        refused_led(leds, location).is_none(),
    decreases leds.len(),
{
    if leds.len() > 0 {
        let rest = leds.drop_first();
        assert forall|i: int| 0 <= i < rest.len() implies addressable(
            location,
            #[trigger] rest[i],
        ) by {
            assert(rest[i] == leds[i + 1]);
        }
        lemma_none_refused(rest, location);
    }
}

/// Switches each LED of `leds` at `location`, in their order.
///
/// Fails on the first LED that the driver does not have.
pub fn switch_leds(leds: &Vec<u8>, location: u8, on: bool) -> (commands: Result<
    Vec<ClockCommand>,
    LedRefused,
>)
    ensures
        match refused_led(leds@, location) {
            Some(led) => commands == Err::<Vec<ClockCommand>, LedRefused>(
                LedRefused { location, led },
            ),
            None => commands matches Ok(list) && list@ == switches(leds@, location, on),
        },
{
    let mut list: Vec<ClockCommand> = Vec::new();
    let mut i: usize = 0;
    assert(leds@.skip(0) =~= leds@);
    while i < leds.len()
        invariant
            i <= leds.len(),
            list@ == switches(leds@.take(i as int), location, on),
            refused_led(leds@, location) == refused_led(leds@.skip(i as int), location),
        decreases leds.len() - i,
    {
        let led: u8 = leds[i];
        assert(leds@.skip(i as int)[0] == led);
        assert(leds@.skip(i as int).drop_first() =~= leds@.skip(i as int + 1));
        if !has_led(location, led) {
            return Err(LedRefused { location, led });
        }
        list.push(ClockCommand::SetLed { location, led, on });
        i += 1;
        assert(list@ =~= switches(leds@.take(i as int), location, on));
    }
    assert(leds@.take(i as int) =~= leds@);
    Ok(list)
}

/// Switches the colon.
pub fn display_colon(on: bool) -> (commands: Vec<ClockCommand>)
    ensures
        commands@ == colon_commands(on),
{
    let mut leds: Vec<u8> = Vec::new();
    leds.push(0);
    leds.push(1);
    proof {
        lemma_none_refused(leds@, COLON);
    }
    let commands = switch_leds(&leds, COLON, on).unwrap();
    assert(commands@ =~= colon_commands(on));
    commands
}

/// The LEDs of a digit, switched at one of the digit positions.
fn switch_digit_leds(leds: &Vec<u8>, location: u8, on: bool) -> (commands: Vec<ClockCommand>)
    requires
        is_digit_location(location),
        forall|i: int| 0 <= i < leds@.len() ==> leds@[i] < 7,
    ensures
        commands@ == switches(leds@, location, on),
{
    proof {
        lemma_none_refused(leds@, location);
    }
    switch_leds(leds, location, on).unwrap()
}

/// Whether `led` occurs in `leds`.
fn holds(leds: &Vec<u8>, led: u8) -> (found: bool)
    ensures
        found == leds@.contains(led),
{
    let mut i: usize = 0;
    while i < leds.len()
        invariant
            i <= leds.len(),
            forall|k: int| 0 <= k < i ==> leds@[k] != led,
        decreases leds.len() - i,
    {
        if leds[i] == led {
            return true;
        }
        i += 1;
    }
    false
}

/// The LEDs of `leds` that `digit` leaves dark, in their order.
fn leds_unlit_by(leds: &Vec<u8>, digit: u8) -> (rest: Vec<u8>)
    requires
        digit <= 9,
    ensures
        rest@ == leds@.filter(unlit_by(digit)),
        forall|i: int| 0 <= i < rest@.len() ==> leds@.contains(#[trigger] rest@[i]),
{
    let lit_leds = segments_for(digit);
    let mut rest: Vec<u8> = Vec::new();
    let mut i: usize = 0;
    proof {
        reveal(Seq::filter);
        assert(leds@.take(0) =~= Seq::<u8>::empty());
    }
    while i < leds.len()
        invariant
            i <= leds.len(),
            lit_leds@ == segment_seq(digit),
            rest@ == leds@.take(i as int).filter(unlit_by(digit)),
        decreases leds.len() - i,
    {
        let led = leds[i];
        proof {
            lemma_filter_push(leds@.take(i as int), led, unlit_by(digit));
            assert(leds@.take(i as int).push(led) =~= leds@.take(i as int + 1));
        }
        if !holds(&lit_leds, led) {
            rest.push(led);
        }
        i += 1;
    }
    assert(leds@.take(i as int) =~= leds@);
    proof {
        assert forall|k: int| 0 <= k < rest@.len() implies leds@.contains(#[trigger] rest@[k]) by {
            assert(rest@.contains(rest@[k]));
            leds@.lemma_filter_contains_rev(unlit_by(digit), rest@[k]);
        }
    }
    rest
}

/// The commands that change the digit at `location` from `old` to `new`.
///
/// Nothing is switched when the digit stays the same.
pub fn render_slot(old: Option<u8>, new: u8, location: u8) -> (commands: Vec<ClockCommand>)
    requires
        new <= 9,
        old matches Some(shown) ==> shown <= 9,
        is_digit_location(location),
    ensures
        commands@ == slot_commands(old, new, location),
        old == Some(new) ==> commands@.len() == 0,
{
    let new_leds = segments_for(new);
    proof {
        lemma_segments_in_range(new);
    }
    match old {
        None => switch_digit_leds(&new_leds, location, true),
        Some(shown) => {
            let old_leds = segments_for(shown);
            proof {
                lemma_segments_in_range(shown);
            }
            let leds_off = leds_unlit_by(&old_leds, new);
            let leds_on = leds_unlit_by(&new_leds, shown);
            proof {
                assert forall|i: int| 0 <= i < leds_off@.len() implies leds_off@[i] < 7 by {
                    assert(old_leds@.contains(leds_off@[i]));
                }
                assert forall|i: int| 0 <= i < leds_on@.len() implies leds_on@[i] < 7 by {
                    assert(new_leds@.contains(leds_on@[i]));
                }
            }
            let mut commands = switch_digit_leds(&leds_off, location, false);
            let mut turn_on = switch_digit_leds(&leds_on, location, true);
            commands.append(&mut turn_on);
            proof {
                if shown == new {
                    lemma_same_digit_no_commands(new, location);
                }
            }
            commands
        },
    }
}

/// A digit drawn over itself switches nothing.
pub proof fn lemma_same_digit_no_commands(digit: u8, location: u8)
    ensures
        leds_to_switch_off(digit, digit).len() == 0,
        leds_to_switch_on(digit, digit).len() == 0,
        slot_commands(Some(digit), digit, location).len() == 0,
{
    let leds = segment_seq(digit);
    assert forall|i: int| 0 <= i < leds.len() implies !unlit_by(digit)(#[trigger] leds[i]) by {
        assert(leds.contains(leds[i]));
    }
    leds.lemma_all_neg_filter_empty(unlit_by(digit));
}

/// Membership in what is left of `leds` after dropping the LEDs of `digit`.
pub proof fn lemma_unlit_members(leds: Seq<u8>, digit: u8, led: u8)
    ensures
        leds.filter(unlit_by(digit)).contains(led) <==> (leds.contains(led) && !lit(digit, led)),
{
    let pred = unlit_by(digit);
    if leds.filter(pred).contains(led) {
        leds.lemma_filter_contains_rev(pred, led);
    }
    if leds.contains(led) && !lit(digit, led) {
        let i = choose|i: int| 0 <= i < leds.len() && leds[i] == led;
        leds.lemma_filter_contains(pred, i);
    }
}

/// The LEDs switched on and off between two digits are together the LEDs
/// that exactly one of the two digits lights, and no LED is switched both
/// ways.
pub proof fn lemma_switches_are_symmetric_difference(old: u8, new: u8)
    ensures
        leds_to_switch_off(old, new).to_set() == segment_set(old).difference(segment_set(new)),
        leds_to_switch_on(old, new).to_set() == segment_set(new).difference(segment_set(old)),
        leds_to_switch_off(old, new).to_set().union(leds_to_switch_on(old, new).to_set())
            == segment_set(old).difference(segment_set(new)).union(
            segment_set(new).difference(segment_set(old)),
        ),
        leds_to_switch_off(old, new).to_set().disjoint(leds_to_switch_on(old, new).to_set()),
{
    let off = leds_to_switch_off(old, new).to_set();
    let on = leds_to_switch_on(old, new).to_set();
    assert forall|led: u8| off.contains(led) <==> (lit(old, led) && !lit(new, led)) by {
        lemma_unlit_members(segment_seq(old), new, led);
    }
    assert forall|led: u8| on.contains(led) <==> (lit(new, led) && !lit(old, led)) by {
        lemma_unlit_members(segment_seq(new), old, led);
    }
    assert(off =~= segment_set(old).difference(segment_set(new)));
    assert(on =~= segment_set(new).difference(segment_set(old)));
}

/// Between two different digits at least one LED is switched.
pub proof fn lemma_different_digits_switch(old: u8, new: u8, location: u8)
    requires
        old <= 9,
        new <= 9,
        old != new,
    ensures
        slot_commands(Some(old), new, location).len() > 0,
{
    lemma_lit_table();
    let led: u8 = if lit(old, 0) != lit(new, 0) {
        0
    } else if lit(old, 1) != lit(new, 1) {
        1
    } else if lit(old, 2) != lit(new, 2) {
        2
    } else if lit(old, 3) != lit(new, 3) {
        3
    } else if lit(old, 4) != lit(new, 4) {
        4
    } else if lit(old, 5) != lit(new, 5) {
        5
    } else {
        6
    };
    assert(lit(old, led) != lit(new, led));
    lemma_unlit_members(segment_seq(old), new, led);
    lemma_unlit_members(segment_seq(new), old, led);
    if lit(old, led) {
        assert(leds_to_switch_off(old, new).len() > 0);
    } else {
        assert(leds_to_switch_on(old, new).len() > 0);
    }
}

} // verus!
