//! Moments and lengths.

use vstd::prelude::*;

#[allow(unused_imports)]
use crate::config::ProgramEntry;
#[allow(unused_imports)]
use crate::{interrupt, laws, millis, playlist, tick};

verus! {

/// A clamped number is the nearest one that 64 bits hold: no other is closer.
pub proof fn clamping_takes_the_nearest(x: int, y: i64)
    ensures
        i64::MIN <= x <= i64::MAX ==> millis::clamp(x) == x,
        x > i64::MAX ==> y <= millis::clamp(x),
        x < i64::MIN ==> millis::clamp(x) <= y,
{
}

/// A length that a signed number holds is kept; a longer one is taken modulo 2 to the 64.
pub proof fn lengths_are_kept(d: u64)
    ensures
        d <= i64::MAX ==> millis::signed(d) == d,
        i64::MIN <= millis::signed(d) <= i64::MAX,
        (d - millis::signed(d)) % 0x1_0000_0000_0000_0000 == 0,
{
}

/// A program ends its whole length after its start, and airs from its start on up to but
/// not at its end.
pub proof fn a_program_airs_for_its_length(p: ProgramEntry, len: int, now: i64)
    requires
        laws::runs(p, len),
        len <= i64::MAX,
    ensures
        playlist::end_of(p) == laws::held_sum(p.start_at_ms as int, len),
        p.start_at_ms + len <= i64::MAX ==> (playlist::airs_at(p, now) <==> p.start_at_ms <= now
            && now < p.start_at_ms + len),
{
}

/// What is left of a program from a point in it on is the rest of its length, and nothing
/// past its end.
pub proof fn the_rest_of_a_program(p: ProgramEntry, len: int, offset_ms: u64)
    requires
        laws::runs(p, len),
        len <= i64::MAX,
        offset_ms <= i64::MAX,
    ensures
        offset_ms <= len ==> interrupt::left_from(p, offset_ms) + offset_ms == len,
        offset_ms >= len ==> interrupt::left_from(p, offset_ms) == 0,
{
}

/// The operator's trim and the measured offset both move the scheduler's moment, by all of
/// what they are.
pub proof fn corrections_add_up(raw_ms: i64, trim_ms: i64, measured_ms: i64)
    requires
        i64::MIN <= raw_ms + trim_ms <= i64::MAX,
        i64::MIN <= raw_ms + trim_ms + measured_ms <= i64::MAX,
    ensures
        playlist::adjusted_now(raw_ms, trim_ms, measured_ms) == raw_ms + trim_ms + measured_ms,
{
}

/// How far a moment lies in the slot of a program: the time since its start, and nothing
/// before it.
pub proof fn time_into_a_program(p: ProgramEntry, now: i64)
    ensures
        now < p.start_at_ms ==> tick::into_program(p, now) == 0,
        p.start_at_ms <= now && now - p.start_at_ms <= i64::MAX ==> p.start_at_ms
            + tick::into_program(p, now) == now,
{
}

} // verus!
