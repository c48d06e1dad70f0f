//! What the clock shows after a run of commands: a model of its LEDs.

use vstd::prelude::*;
use crate::renderer::{
    colon_commands, lemma_unlit_members, leds_to_switch_off, leds_to_switch_on, slot_commands,
    switches, ClockCommand, COLON,
};
use crate::segments::{lit, segment_seq};

verus! {

/// The LEDs that are on after `command`, when `lights` were on before it.
/// An LED is named by its position and its number.
pub open spec fn after_command(lights: Set<(u8, u8)>, command: ClockCommand) -> Set<(u8, u8)> {
    match command {
        ClockCommand::SetLed { location, led, on } => if on {
            lights.insert((location, led))
        } else {
            lights.remove((location, led))
        },
        ClockCommand::Clear => Set::empty(),
    }
}

/// The LEDs that are on after `commands`, performed from first to last.
pub open spec fn after_commands(lights: Set<(u8, u8)>, commands: Seq<ClockCommand>) -> Set<(u8, u8)>
    decreases commands.len(),
{
    if commands.len() == 0 {
        lights
    } else {
        after_command(after_commands(lights, commands.drop_last()), commands.last())
    }
}

/// The LEDs of `digit` at `location`.
pub open spec fn digit_lights(digit: u8, location: u8) -> Set<(u8, u8)> {
    Set::new(|light: (u8, u8)| light.0 == location && lit(digit, light.1))
}

/// The two LEDs of the colon.
pub open spec fn colon_lights() -> Set<(u8, u8)> {
    Set::new(|light: (u8, u8)| light.0 == COLON && (light.1 == 0 || light.1 == 1))
}

/// The LEDs at `location` among `leds`.
pub open spec fn lights_at(leds: Seq<u8>, location: u8) -> Set<(u8, u8)> {
    Set::new(|light: (u8, u8)| light.0 == location && leds.contains(light.1))
}

/// Whether `lights` shows `digit` at `location`: there, exactly the LEDs of
/// the digit are on.
pub open spec fn shows_digit(lights: Set<(u8, u8)>, digit: u8, location: u8) -> bool {
    forall|led: u8| lights.contains((location, led)) <==> lit(digit, led)
}

/// `lights` with the position `location` redrawn as `digit`.
pub open spec fn with_digit(lights: Set<(u8, u8)>, digit: u8, location: u8) -> Set<(u8, u8)> {
    Set::new(
        |light: (u8, u8)|
            if light.0 == location {
                lit(digit, light.1)
            } else {
                lights.contains(light)
            },
    )
}

/// Commands performed one run after another.
pub proof fn lemma_after_both(lights: Set<(u8, u8)>, first: Seq<ClockCommand>, second: Seq<ClockCommand>)
    ensures
        after_commands(lights, first + second) == after_commands(
            after_commands(lights, first),
            second,
        ),
    decreases second.len(),
{
    if second.len() == 0 {
        assert(first + second =~= first);
    } else {
        assert((first + second).drop_last() =~= first + second.drop_last());
        assert((first + second).last() == second.last());
        lemma_after_both(lights, first, second.drop_last());
    }
}

/// The LEDs of a run at one position are those of the run without its last
/// LED, and the last.
pub proof fn lemma_lights_at_grown(leds: Seq<u8>, location: u8)
    requires
        leds.len() > 0,
    ensures
        forall|light: (u8, u8)|
            lights_at(leds, location).contains(light) <==> (lights_at(
                leds.drop_last(),
                location,
            ).contains(light) || light == (location, leds.last())),
{
    let before = leds.drop_last();
    assert forall|light: (u8, u8)|
        lights_at(leds, location).contains(light) <==> (lights_at(before, location).contains(
            light,
        ) || light == (location, leds.last())) by {
        if light.0 == location && leds.contains(light.1) {
            let i = choose|i: int| 0 <= i < leds.len() && leds[i] == light.1;
            if i < leds.len() - 1 {
                assert(before[i] == light.1);
            }
        }
        if lights_at(before, location).contains(light) {
            let i = choose|i: int| 0 <= i < before.len() && before[i] == light.1;
            assert(leds[i] == light.1);
        }
        if light == (location, leds.last()) {
            assert(leds[leds.len() - 1] == light.1);
        }
    }
}

/// Switching LEDs of one position on adds them to what is on.
pub proof fn lemma_after_switching_on(lights: Set<(u8, u8)>, leds: Seq<u8>, location: u8)
    ensures
        after_commands(lights, switches(leds, location, true)) == lights.union(
            lights_at(leds, location),
        ),
    decreases leds.len(),
{
    let commands = switches(leds, location, true);
    if leds.len() == 0 {
        assert(lights.union(lights_at(leds, location)) =~= lights);
    } else {
        let before = leds.drop_last();
        assert(commands.drop_last() =~= switches(before, location, true));
        lemma_after_switching_on(lights, before, location);
        lemma_lights_at_grown(leds, location);
        assert(after_commands(lights, commands) =~= lights.union(lights_at(leds, location)));
    }
}

/// Switching LEDs of one position off takes them from what is on.
pub proof fn lemma_after_switching_off(lights: Set<(u8, u8)>, leds: Seq<u8>, location: u8)
    ensures
        after_commands(lights, switches(leds, location, false)) == lights.difference(
            lights_at(leds, location),
        ),
    decreases leds.len(),
{
    let commands = switches(leds, location, false);
    if leds.len() == 0 {
        assert(lights.difference(lights_at(leds, location)) =~= lights);
    } else {
        let before = leds.drop_last();
        assert(commands.drop_last() =~= switches(before, location, false));
        lemma_after_switching_off(lights, before, location);
        lemma_lights_at_grown(leds, location);
        assert(after_commands(lights, commands) =~= lights.difference(lights_at(leds, location)));
    }
}

/// Painting a digit on a dark position shows it and leaves the others alone.
pub proof fn lemma_after_first_paint(lights: Set<(u8, u8)>, digit: u8, location: u8)
    requires
        forall|led: u8| !lights.contains((location, led)),
    ensures
        after_commands(lights, slot_commands(None, digit, location)) == with_digit(
            lights,
            digit,
            location,
        ),
{
    lemma_after_switching_on(lights, segment_seq(digit), location);
    assert(lights.union(lights_at(segment_seq(digit), location)) =~= with_digit(
        lights,
        digit,
        location,
    ));
}

/// Changing a digit by its difference shows the same as painting the new
/// digit from scratch, and leaves the other positions alone.
pub proof fn lemma_after_digit_change(lights: Set<(u8, u8)>, old: u8, new: u8, location: u8)
    requires
        shows_digit(lights, old, location),
    ensures
        after_commands(lights, slot_commands(Some(old), new, location)) == with_digit(
            lights,
            new,
            location,
        ),
        shows_digit(with_digit(lights, new, location), new, location),
{
    let off = leds_to_switch_off(old, new);
    let on = leds_to_switch_on(old, new);
    let dimmed = after_commands(lights, switches(off, location, false));
    lemma_after_both(lights, switches(off, location, false), switches(on, location, true));
    lemma_after_switching_off(lights, off, location);
    lemma_after_switching_on(dimmed, on, location);
    assert forall|light: (u8, u8)|
        dimmed.union(lights_at(on, location)).contains(light) <==> with_digit(
            lights,
            new,
            location,
        ).contains(light) by {
        lemma_unlit_members(segment_seq(old), new, light.1);
        lemma_unlit_members(segment_seq(new), old, light.1);
        if light.0 == location {
            assert(lights.contains((location, light.1)) <==> lit(old, light.1));
        }
    }
    assert(dimmed.union(lights_at(on, location)) =~= with_digit(lights, new, location));
    assert forall|led: u8| with_digit(lights, new, location).contains((location, led)) <==> lit(
        new,
        led,
    ) by {}
}

/// Lighting the colon.
pub proof fn lemma_after_colon(lights: Set<(u8, u8)>)
    ensures
        after_commands(lights, colon_commands(true)) == lights.union(colon_lights()),
{
    let commands = colon_commands(true);
    assert(commands.drop_last() =~= seq![ClockCommand::SetLed { location: COLON, led: 0, on: true }]);
    assert(commands.drop_last().drop_last() =~= Seq::<ClockCommand>::empty());
    reveal_with_fuel(after_commands, 3);
    assert(after_commands(lights, commands) =~= lights.insert((COLON, 0u8)).insert((COLON, 1u8)));
    assert(lights.insert((COLON, 0u8)).insert((COLON, 1u8)) =~= lights.union(colon_lights()));
}

} // verus!
