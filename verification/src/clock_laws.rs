//! What the clocks decide, in terms of what they read.

use vstd::prelude::*;

use crate::trusted_time::{
    clock_decision, elapsed_ms, reading_outcome, source_of, DurableClockCondition,
    DurableClockDecision, DurableClockError, HostPlatform, PersistedClockState,
    PlatformTimeReading, SampleState, TrustedTimeError, TrustedTimeSource,
};

verus! {

/// On Linux two names are the system clock, on macOS one name is the managed clock, and no other
/// name is a source anywhere.
pub proof fn law_sources_are_named_exactly(platform: HostPlatform, source_id: Seq<char>)
    ensures
        source_of(platform, source_id) == Some(TrustedTimeSource::LinuxSystemClock) <==> platform
            == HostPlatform::Linux && (source_id == "linux-system-clock"@ || source_id
            == "linux-chrony-nts"@),
        source_of(platform, source_id) == Some(TrustedTimeSource::MacosManagedTimed) <==> platform
            == HostPlatform::Macos && source_id == "macos-managed-timed"@,
        crate::trusted_time::id_of(TrustedTimeSource::LinuxSystemClock) == "linux-chrony-nts"@,
        crate::trusted_time::id_of(TrustedTimeSource::MacosManagedTimed) == "macos-managed-timed"@,
        source_of(platform, source_id) matches Some(source) ==> crate::trusted_time::guarded(source)
            == (platform == HostPlatform::Linux),
{
}

/// A refused source is reported by its own name.
pub proof fn law_refused_source_is_named(
    r: Result<TrustedTimeSource, TrustedTimeError>,
    platform: HostPlatform,
    source_id: Seq<char>,
)
    requires
        crate::trusted_time::source_outcome(r, platform, source_id),
    ensures
        r is Ok <==> source_of(platform, source_id) is Some,
        r matches Ok(source) ==> source_of(platform, source_id) == Some(source),
        r matches Err(e) ==> (e matches TrustedTimeError::SourceMismatch(id) && id@ == source_id),
{
}

/// The elapsed time is the sampler's own count, unless both anchors are of one known boot, the
/// persisted one is set and time did not run backwards between them: then it is the greater of
/// that count and the whole milliseconds between the anchors.
pub proof fn law_elapsed_time_is_the_greater_count(
    previous: PersistedClockState,
    current: Option<[u8; 16]>,
    reading: PlatformTimeReading,
)
    ensures
        ({
            let elapsed = elapsed_ms(previous, current, reading);
            let apart = reading.monotonic_anchor_ns - previous.monotonic_anchor_ns;
            let comparable = previous.boot_epoch is Some && current is Some
                && previous.boot_epoch->Some_0@ == current->Some_0@
                && previous.monotonic_anchor_ns != 0 && apart >= 0;
            &&& elapsed >= reading.monotonic_elapsed_ms
            &&& !comparable ==> elapsed == reading.monotonic_elapsed_ms
            &&& comparable ==> 1_000_000 * (elapsed + 1) > apart
            &&& comparable && elapsed != reading.monotonic_elapsed_ms ==> 1_000_000 * elapsed
                <= apart
        }),
{
}

/// Both boots are known, and they differ.
pub open spec fn rebooted(previous: PersistedClockState, current: Option<[u8; 16]>) -> bool {
    &&& previous.boot_epoch matches Some(then)
    &&& current matches Some(now)
    &&& then@ != now@
}

/// A healthy decision is the later of the wall clock and of the persisted time with what elapsed
/// since. Without an established persisted time it is the wall clock.
pub proof fn law_healthy_time_is_the_later_clock(
    previous: Option<PersistedClockState>,
    reading: PlatformTimeReading,
    current: Option<[u8; 16]>,
    max_forward_step_ms: u64,
)
    ensures
        clock_decision(previous, reading, current, max_forward_step_ms) matches Ok(decision) ==> (
        decision.condition == DurableClockCondition::Healthy ==> (reading.utc_ms matches Some(utc)
            && if previous matches Some(state) && state.last_effective_ms != 0 {
            let monotonic = previous->Some_0.last_effective_ms + elapsed_ms(
                previous->Some_0,
                current,
                reading,
            );
            decision.effective_now_ms >= utc && decision.effective_now_ms >= monotonic && (
            decision.effective_now_ms == utc || decision.effective_now_ms == monotonic)
        } else {
            decision.effective_now_ms == utc
        })),
{
}

/// Without a wall clock a decision is untrusted and keeps the persisted time. Without an
/// established persisted time the wall clock is healthy. Otherwise: time that no 64-bit number
/// holds is an error; a wall clock below the persisted time freezes it; a wall clock further ahead
/// of the monotonic time than allowed is rejected in favour of that time, unless the host is known
/// to have rebooted; and every other wall clock is healthy.
pub proof fn law_clock_conditions_are_exact(
    previous: Option<PersistedClockState>,
    reading: PlatformTimeReading,
    current: Option<[u8; 16]>,
    max_forward_step_ms: u64,
)
    ensures
        ({
            let r = clock_decision(previous, reading, current, max_forward_step_ms);
            let established = previous matches Some(state) && state.last_effective_ms != 0;
            let state = previous->Some_0;
            let monotonic = state.last_effective_ms + elapsed_ms(state, current, reading);
            let utc = reading.utc_ms->Some_0;
            let overflows = monotonic > 0xffff_ffff_ffff_ffff;
            let behind = utc < state.last_effective_ms;
            let ahead = utc > monotonic + max_forward_step_ms && !rebooted(state, current);
            &&& reading.utc_ms is None ==> (r matches Ok(d) && d.condition
                == DurableClockCondition::Untrusted && d.effective_now_ms == (match previous {
                Some(kept) => kept.last_effective_ms,
                None => 0,
            }))
            &&& reading.utc_ms is Some && !established ==> (r matches Ok(d) && d.condition
                == DurableClockCondition::Healthy)
            &&& r == Err::<DurableClockDecision, DurableClockError>(
                DurableClockError::ArithmeticOverflow,
            ) <==> reading.utc_ms is Some && established && overflows
            &&& reading.utc_ms is Some && established && !overflows && behind ==> (r matches Ok(d)
                && d.condition == DurableClockCondition::RollbackFrozen && d.effective_now_ms
                == state.last_effective_ms)
            &&& reading.utc_ms is Some && established && !overflows && !behind && ahead ==> (
            r matches Ok(d) && d.condition == DurableClockCondition::ForwardJumpRejected
                && d.effective_now_ms == monotonic)
            &&& reading.utc_ms is Some && established && !overflows && !behind && !ahead ==> (
            r matches Ok(d) && d.condition == DurableClockCondition::Healthy)
        }),
{
}

/// A boot is confirmed as the same, or as another one, only where both are known.
pub proof fn law_boots_are_compared_only_where_known(
    persisted: Option<[u8; 16]>,
    current: Option<[u8; 16]>,
)
    ensures
        crate::trusted_time::same_boot(persisted, current) <==> (persisted matches Some(then)
            && current matches Some(now) && then@ == now@),
        crate::trusted_time::other_boot(persisted, current) <==> persisted is Some && current is Some
            && !crate::trusted_time::same_boot(persisted, current),
{
}

/// A sample counts the whole milliseconds since the last anchor and carries the rest on: what is
/// counted and carried is what was carried before and what passed since. The first sample counts
/// nothing. The wall clock is reported as it reads.
pub proof fn law_samples_account_for_all_time(
    before: Option<SampleState>,
    after: Option<SampleState>,
    anchor_ns: u64,
    wall_millis: Option<u128>,
    r: Result<PlatformTimeReading, TrustedTimeError>,
)
    requires
        reading_outcome(before, after, Ok(anchor_ns), wall_millis, r),
    ensures
        r matches Ok(reading) ==> {
            let carried = after->Some_0;
            &&& after is Some
            &&& reading.monotonic_anchor_ns == anchor_ns
            &&& carried.prior_anchor_ns == anchor_ns
            &&& carried.fractional_ns < 1_000_000
            &&& before is None ==> reading.monotonic_elapsed_ms == 0 && carried.fractional_ns == 0
            &&& before matches Some(prior) ==> 1_000_000 * reading.monotonic_elapsed_ms
                + carried.fractional_ns == anchor_ns - prior.prior_anchor_ns + prior.fractional_ns
            &&& wall_millis matches Some(millis)
            &&& reading.utc_ms matches Some(utc)
            &&& utc == millis
        },
        r is Err ==> r->Err_0 == TrustedTimeError::WallClockRange,
        r is Err <==> wall_millis is None || wall_millis->Some_0 > 0xffff_ffff_ffff_ffff || (
        before matches Some(prior) && (anchor_ns < prior.prior_anchor_ns || anchor_ns
            - prior.prior_anchor_ns + prior.fractional_ns > 0xffff_ffff_ffff_ffff)),
        before matches Some(prior) && (anchor_ns < prior.prior_anchor_ns || anchor_ns
            - prior.prior_anchor_ns + prior.fractional_ns > 0xffff_ffff_ffff_ffff) ==> after
            == before,
{
}

/// A continuous clock that could not be read ends a sample with its own error and changes nothing.
pub proof fn law_unread_clock_changes_nothing(
    before: Option<SampleState>,
    after: Option<SampleState>,
    error: TrustedTimeError,
    wall_millis: Option<u128>,
    r: Result<PlatformTimeReading, TrustedTimeError>,
)
    requires
        reading_outcome(before, after, Err(error), wall_millis, r),
    ensures
        after == before,
        r is Err,
        r->Err_0 == error,
{
}

/// A clock reading is its seconds and nanoseconds together, where neither is negative and 64 bits
/// hold them.
pub proof fn law_clock_readings_are_nanoseconds(seconds: i64, nanoseconds: i64)
    ensures
        crate::trusted_time::timespec_value(seconds, nanoseconds) is Some <==> seconds >= 0
            && nanoseconds >= 0 && 1_000_000_000 * seconds + nanoseconds <= 0xffff_ffff_ffff_ffff,
        crate::trusted_time::timespec_value(seconds, nanoseconds) matches Some(ns) ==> ns
            - nanoseconds == 1_000_000_000 * seconds,
{
}

/// Ticks are as many whole nanoseconds as fit into them at the given rate.
pub proof fn law_ticks_are_whole_nanoseconds(ticks: u64, numer: u32, denom: u32)
    ensures
        crate::trusted_time::ticks_value(ticks, numer, denom) matches Some(ns) ==> denom != 0 && ns
            * denom <= ticks * numer < (ns + 1) * denom,
        crate::trusted_time::ticks_value(ticks, numer, denom) is None ==> denom == 0 || ticks * numer
            >= 0x1_0000_0000_0000_0000 * denom,
{
    if denom != 0 {
        let product = ticks * numer;
        let q = product / denom as int;
        vstd::arithmetic::div_mod::lemma_fundamental_div_mod(product, denom as int);
        vstd::arithmetic::div_mod::lemma_mod_bound(product, denom as int);
        vstd::arithmetic::mul::lemma_mul_nonnegative(ticks as int, numer as int);
        vstd::arithmetic::div_mod::lemma_div_pos_is_pos(product, denom as int);
        assert(denom * q == q * denom) by (nonlinear_arith);
        assert((q + 1) * denom == q * denom + denom) by (nonlinear_arith);
        if q > u64::MAX {
            assert(q * denom >= 0x1_0000_0000_0000_0000 * denom) by (nonlinear_arith)
                requires
                    q >= 0x1_0000_0000_0000_0000,
                    denom >= 0,
            ;
        }
    }
}

} // verus!
