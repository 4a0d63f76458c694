//! Arithmetic on process tick counts, which are microseconds on a
//! monotonic clock, kept as `i64` so that a reference time may lie before
//! the first reading of the clock.

use vstd::prelude::*;

verus! {

/// A process tick count, on the scale of microseconds.
pub type ProcCountMicros = i64;

/// The number of microseconds from `pc` to `now`, or zero where `now` lies
/// before `pc`.
pub open spec fn elapsed_micros(now: int, pc: int) -> nat {
    if now - pc < 0 {
        0
    } else {
        (now - pc) as nat
    }
}

/// The duration of `micros` microseconds, as `Duration::from_micros` builds it.
pub uninterp spec fn duration_of_micros(micros: u64) -> core::time::Duration;

/// The total number of whole microseconds in a duration (what
/// `Duration::as_micros` reports).
pub uninterp spec fn duration_total_micros(d: core::time::Duration) -> nat;

/// `Duration::from_micros` builds the duration of the given number of
/// microseconds: this contract names that value, and states what std
/// documents of it, that it holds exactly `micros` microseconds.
pub assume_specification[ core::time::Duration::from_micros ](micros: u64) -> (d: core::time::Duration)
    ensures
        d == duration_of_micros(micros),
        duration_total_micros(d) == micros,
;

/// The number of whole microseconds from `pc` to `now`, clamped at zero.
pub fn elapsed_us_between(now: ProcCountMicros, pc: ProcCountMicros) -> (us: u64)
    requires
        i64::MIN <= now - pc <= i64::MAX,
    ensures
        us == elapsed_micros(now as int, pc as int),
        now >= pc ==> us == now - pc,
        now < pc ==> us == 0,
{
    let dur = now - pc;
    if dur < 0 {
        0
    } else {
        dur as u64
    }
}

/// The elapsed process count duration from a captured tick count `pc` to the
/// tick count `now`. If the duration would be negative, the result is a zero
/// duration.
pub fn proc_count_us_elapsed(now: ProcCountMicros, pc: ProcCountMicros) -> (d: core::time::Duration)
    requires
        i64::MIN <= now - pc <= i64::MAX,
    ensures
        d == duration_of_micros(elapsed_micros(now as int, pc as int) as u64),
        duration_total_micros(d) == elapsed_micros(now as int, pc as int),
        now >= pc ==> duration_total_micros(d) == now - pc,
        now < pc ==> duration_total_micros(d) == 0,
{
    let us = elapsed_us_between(now, pc);
    core::time::Duration::from_micros(us)
}

/// For one reading `now` of the clock, a later captured tick count gives no
/// more elapsed time than an earlier one: the elapsed microseconds do not grow
/// as `pc` grows, and neither do the durations `d1` and `d2` that
/// `proc_count_us_elapsed` returns for `pc1` and `pc2`.
pub proof fn lemma_elapsed_antitone(
    now: int,
    pc1: int,
    pc2: int,
    d1: core::time::Duration,
    d2: core::time::Duration,
)
    requires
        pc1 <= pc2,
        duration_total_micros(d1) == elapsed_micros(now, pc1),
        duration_total_micros(d2) == elapsed_micros(now, pc2),
    ensures
        elapsed_micros(now, pc1) >= elapsed_micros(now, pc2),
        duration_total_micros(d1) >= duration_total_micros(d2),
{
}

/// The elapsed time is the plain difference of the two tick counts, for every
/// pair of counts, negative ones included, where `now` is not before `pc`, and
/// zero where it is: the elapsed time plus the captured count is `now`.
pub proof fn lemma_elapsed_exact(now: int, pc: int)
    ensures
        now >= pc ==> elapsed_micros(now, pc) + pc == now,
        now < pc ==> elapsed_micros(now, pc) == 0,
{
}

} // verus!
