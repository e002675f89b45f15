//! Timestamps and durations. Wall-clock timestamps are nanoseconds since the
//! Unix epoch (`i64`); monotonic instants are nanoseconds on the process's
//! monotonic clock (`u64`), read by the caller.
use vstd::prelude::*;

verus! {

/// Rust's integer division, which rounds toward zero.
pub open spec fn trunc_div(a: int, b: int) -> int
    recommends
        b > 0,
{
    if a >= 0 {
        a / b
    } else {
        -((-a) / b)
    }
}

/// Converts a timestamp in nanoseconds to milliseconds, rounding toward zero.
pub fn timestamp_to_millis(ts: i64) -> (ms: i64)
    ensures
        ms == trunc_div(ts as int, 1_000_000),
{
    ts / 1_000_000
}

/// Nanoseconds to milliseconds, as a method.
pub trait nanos_to_millis: Sized {
    spec fn spec_nanos(&self) -> int;

    fn nanos_to_millis(self) -> (ms: i64)
        ensures
            ms == trunc_div(self.spec_nanos(), 1_000_000),
    ;
}

impl nanos_to_millis for i64 {
    open spec fn spec_nanos(&self) -> int {
        *self as int
    }

    fn nanos_to_millis(self) -> (ms: i64) {
        timestamp_to_millis(self)
    }
}

/// Converting to milliseconds never reverses the order of two timestamps.
pub proof fn lemma_millis_monotonic(a: i64, b: i64)
    requires
        a <= b,
    ensures
        trunc_div(a as int, 1_000_000) <= trunc_div(b as int, 1_000_000),
{
    assert(trunc_div(a as int, 1_000_000) <= trunc_div(b as int, 1_000_000)) by (nonlinear_arith)
        requires
            a <= b,
    {
        if a >= 0 {
            vstd::arithmetic::div_mod::lemma_div_is_ordered(a as int, b as int, 1_000_000);
        } else if b >= 0 {
            assert((-a) / 1_000_000 >= 0) by {
                vstd::arithmetic::div_mod::lemma_div_pos_is_pos(-a, 1_000_000);
            }
            vstd::arithmetic::div_mod::lemma_div_pos_is_pos(b as int, 1_000_000);
        } else {
            vstd::arithmetic::div_mod::lemma_div_is_ordered(-b, -a, 1_000_000);
        }
    }
}

/// How long a peer's registration stays valid, in milliseconds.
pub const REG_TIMEOUT: i64 = 30_000;

/// A peer is online when its last registration is less than `REG_TIMEOUT`
/// milliseconds old (the age rounded toward zero).
pub open spec fn spec_registration_fresh(now: i64, last_reg_time: i64) -> bool {
    trunc_div(now - last_reg_time, 1_000_000) < REG_TIMEOUT
}

/// A registration is valid exactly while less than 30 seconds
/// (30,000,000,000 ns) have passed since it was made; one stamped in the
/// future counts as valid.
pub proof fn lemma_registration_fresh_window(now: i64, last_reg_time: i64)
    ensures
        spec_registration_fresh(now, last_reg_time) <==> now - last_reg_time < 30_000_000_000,
{
    let x = now - last_reg_time;
    if x >= 0 {
        if x < 30_000_000_000 {
            vstd::arithmetic::div_mod::lemma_div_is_ordered(x, 29_999_999_999, 1_000_000);
        } else {
            vstd::arithmetic::div_mod::lemma_div_is_ordered(30_000_000_000, x, 1_000_000);
        }
    } else {
        vstd::arithmetic::div_mod::lemma_div_pos_is_pos(-x, 1_000_000);
    }
}

/// Whether a registration made at `last_reg_time` is still valid at `now`
/// (both wall-clock nanoseconds).
pub fn registration_fresh(now: i64, last_reg_time: i64) -> (r: bool)
    requires
        i64::MIN <= now - last_reg_time <= i64::MAX,
    ensures
        r == spec_registration_fresh(now, last_reg_time),
{
    let elapsed = now - last_reg_time;
    elapsed.nanos_to_millis() < REG_TIMEOUT
}

/// Whole seconds from `then` to `now` on the monotonic clock, zero when
/// `then` is later (as `Instant::elapsed().as_secs()` behaves).
pub open spec fn spec_elapsed_secs(now: u64, then: u64) -> u64 {
    if now >= then {
        ((now - then) / 1_000_000_000) as u64
    } else {
        0
    }
}

pub fn elapsed_secs(now: u64, then: u64) -> (r: u64)
    ensures
        r == spec_elapsed_secs(now, then),
{
    if now >= then {
        (now - then) / 1_000_000_000
    } else {
        0
    }
}

/// One hour, in nanoseconds.
pub const HOUR_NANOS: u64 = 3_600_000_000_000;

/// The instant one hour before `now`, or `now` itself when the clock does
/// not reach back that far.
pub fn get_expired_time(now: u64) -> (r: u64)
    ensures
        r == (if now >= HOUR_NANOS {
            (now - HOUR_NANOS) as u64
        } else {
            now
        }),
{
    match now.checked_sub(HOUR_NANOS) {
        Some(t) => t,
        None => now,
    }
}

} // verus!
