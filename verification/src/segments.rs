//! The LEDs that draw each decimal digit on one position of the clock.
//!
//! ```text
//!   _      0
//!  |_|   5 6 1
//!  |_|   4 3 2
//! ```

use vstd::prelude::*;

verus! {

/// Number of LEDs in one digit position.
pub const SEGMENTS: u8 = 7;

/// The LEDs of `digit`, in rising order. Empty for anything but `0..=9`.
pub open spec fn segment_seq(digit: u8) -> Seq<u8> {
    if digit == 0 {
        seq![0u8, 1u8, 2u8, 3u8, 4u8, 5u8]
    } else if digit == 1 {
        seq![1u8, 2u8]
    } else if digit == 2 {
        seq![0u8, 1u8, 3u8, 4u8, 6u8]
    } else if digit == 3 {
        seq![0u8, 1u8, 2u8, 3u8, 6u8]
    } else if digit == 4 {
        seq![1u8, 2u8, 5u8, 6u8]
    } else if digit == 5 {
        seq![0u8, 2u8, 3u8, 5u8, 6u8]
    } else if digit == 6 {
        seq![0u8, 2u8, 3u8, 4u8, 5u8, 6u8]
    } else if digit == 7 {
        seq![0u8, 1u8, 2u8]
    } else if digit == 8 {
        seq![0u8, 1u8, 2u8, 3u8, 4u8, 5u8, 6u8]
    } else if digit == 9 {
        seq![0u8, 1u8, 2u8, 3u8, 5u8, 6u8]
    } else {
        Seq::empty()
    }
}

/// Whether `digit` lights `segment`.
pub open spec fn lit(digit: u8, segment: u8) -> bool {
    segment_seq(digit).contains(segment)
}

/// The LEDs of `digit` as a set.
pub open spec fn segment_set(digit: u8) -> Set<u8> {
    segment_seq(digit).to_set()
}

/// A sequence in strictly rising order.
pub open spec fn strictly_rising(s: Seq<u8>) -> bool {
    forall|i: int, j: int| 0 <= i < j < s.len() ==> s[i] < s[j]
}

/// The LEDs to light for `digit`.
pub fn segments_for(digit: u8) -> (leds: Vec<u8>)
    requires
        digit <= 9,
    ensures
        leds@ == segment_seq(digit),
{
    if digit == 0 {
        vec![0u8, 1u8, 2u8, 3u8, 4u8, 5u8]
    } else if digit == 1 {
        vec![1u8, 2u8]
    } else if digit == 2 {
        vec![0u8, 1u8, 3u8, 4u8, 6u8]
    } else if digit == 3 {
        vec![0u8, 1u8, 2u8, 3u8, 6u8]
    } else if digit == 4 {
        vec![1u8, 2u8, 5u8, 6u8]
    } else if digit == 5 {
        vec![0u8, 2u8, 3u8, 5u8, 6u8]
    } else if digit == 6 {
        vec![0u8, 2u8, 3u8, 4u8, 5u8, 6u8]
    } else if digit == 7 {
        vec![0u8, 1u8, 2u8]
    } else if digit == 8 {
        vec![0u8, 1u8, 2u8, 3u8, 4u8, 5u8, 6u8]
    } else {
        vec![0u8, 1u8, 2u8, 3u8, 5u8, 6u8]
    }
}

/// Every entry of the table names LEDs of one position, each once, in rising
/// order.
pub proof fn lemma_segments_in_range(digit: u8)
    ensures
        strictly_rising(segment_seq(digit)),
        forall|i: int| 0 <= i < segment_seq(digit).len() ==> segment_seq(digit)[i] < SEGMENTS,
        forall|segment: u8| lit(digit, segment) ==> segment < SEGMENTS,
{
}

/// Two different digits never light the same set of LEDs.
pub proof fn lemma_segments_distinct(a: u8, b: u8)
    requires
        a <= 9,
        b <= 9,
        a != b,
    ensures
        segment_set(a) != segment_set(b),
{
    lemma_lit_table();
    let witness: u8 = if lit(a, 0) != lit(b, 0) { 0 } else if lit(a, 1) != lit(b, 1) { 1 }
        else if lit(a, 2) != lit(b, 2) { 2 } else if lit(a, 3) != lit(b, 3) { 3 }
        else if lit(a, 4) != lit(b, 4) { 4 } else if lit(a, 5) != lit(b, 5) { 5 } else { 6 };
    assert(lit(a, witness) != lit(b, witness));
    assert(segment_set(a).contains(witness) != segment_set(b).contains(witness));
}

/// The table, LED by LED.
pub proof fn lemma_lit_table()
    ensures
        forall|d: u8| #![trigger lit(d, 0)] lit(d, 0) <==> (d <= 9 && d != 1 && d != 4),
        forall|d: u8| #![trigger lit(d, 1)] lit(d, 1) <==> (d <= 9 && d != 5 && d != 6),
        forall|d: u8| #![trigger lit(d, 2)] lit(d, 2) <==> (d <= 9 && d != 2),
        forall|d: u8| #![trigger lit(d, 3)] lit(d, 3) <==> (d <= 9 && d != 1 && d != 4 && d != 7),
        forall|d: u8| #![trigger lit(d, 4)] lit(d, 4) <==> (d == 0 || d == 2 || d == 6 || d == 8),
        forall|d: u8| #![trigger lit(d, 5)] lit(d, 5) <==> (d <= 9 && d != 1 && d != 2 && d != 3 && d != 7),
        forall|d: u8| #![trigger lit(d, 6)] lit(d, 6) <==> (d <= 9 && d != 0 && d != 1 && d != 7),
{
    assert forall|d: u8| #![trigger lit(d, 0)] lit(d, 0) <==> (d <= 9 && d != 1 && d != 4) by {
        lemma_lit_at(d, 0);
    }
    assert forall|d: u8| #![trigger lit(d, 1)] lit(d, 1) <==> (d <= 9 && d != 5 && d != 6) by {
        lemma_lit_at(d, 1);
    }
    assert forall|d: u8| #![trigger lit(d, 2)] lit(d, 2) <==> (d <= 9 && d != 2) by {
        lemma_lit_at(d, 2);
    }
    assert forall|d: u8| #![trigger lit(d, 3)] lit(d, 3) <==> (d <= 9 && d != 1 && d != 4 && d != 7) by {
        lemma_lit_at(d, 3);
    }
    assert forall|d: u8| #![trigger lit(d, 4)] lit(d, 4) <==> (d == 0 || d == 2 || d == 6 || d == 8) by {
        lemma_lit_at(d, 4);
    }
    assert forall|d: u8| #![trigger lit(d, 5)] lit(d, 5) <==> (d <= 9 && d != 1 && d != 2 && d != 3 && d != 7) by {
        lemma_lit_at(d, 5);
    }
    assert forall|d: u8| #![trigger lit(d, 6)] lit(d, 6) <==> (d <= 9 && d != 0 && d != 1 && d != 7) by {
        lemma_lit_at(d, 6);
    }
}

/// `lit` is membership in the entry, position by position.
proof fn lemma_lit_at(digit: u8, segment: u8)
    ensures
        lit(digit, segment) <==> exists|i: int| 0 <= i < segment_seq(digit).len() && segment_seq(digit)[i] == segment,
        lit(digit, segment) <==> {
            let s = segment_seq(digit);
            ||| (s.len() > 0 && s[0] == segment)
            ||| (s.len() > 1 && s[1] == segment)
            ||| (s.len() > 2 && s[2] == segment)
            ||| (s.len() > 3 && s[3] == segment)
            ||| (s.len() > 4 && s[4] == segment)
            ||| (s.len() > 5 && s[5] == segment)
            ||| (s.len() > 6 && s[6] == segment)
        },
{
    let s = segment_seq(digit);
    assert(s.len() <= 7);
    if lit(digit, segment) {
        let i = choose|i: int| 0 <= i < s.len() && s[i] == segment;
        assert(0 <= i < 7);
    }
}

} // verus!
