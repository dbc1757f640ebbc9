//! Platform time sampling pinned by the installer-owned edge manifest.

use vstd::prelude::*;
use vstd::string::*;

use crate::text::{same_bytes, same_text};

verus! {

/// The greatest forward step of the wall clock that one boot may show: one hour.
pub const MAX_FORWARD_STEP_MS: u64 = 3600000;

/// The hosts that have a reviewed time source.
#[derive(Clone, Copy, Debug, PartialEq, Eq, Structural)]
pub enum HostPlatform {
    Linux,
    Macos,
    Other,
}

#[derive(Clone, Copy, Debug, PartialEq, Eq, Structural)]
pub enum TrustedTimeSource {
    LinuxSystemClock,
    MacosManagedTimed,
}

#[derive(Debug)]
pub enum TrustedTimeError {
    SourceMismatch(String),
    WallClockRange,
    StatePoisoned,
}

/// What `Debug` writes for a text: the text in quotes, with escapes.
pub uninterp spec fn quoted_text(text: Seq<char>) -> Seq<char>;

/// `Debug` of `str`, as `format!` writes it.
#[verifier::external_body]
pub(crate) fn quoted(text: &str) -> (r: String)
    ensures
        r@ == quoted_text(text@),
{
    format!("{text:?}")
}

impl TrustedTimeError {
    /// The message for the operator.
    pub open spec fn text(self) -> Seq<char> {
        match self {
            TrustedTimeError::SourceMismatch(id) => "trusted time source "@ + quoted_text(id@)
                + " does not match this platform or reviewed packaging"@,
            TrustedTimeError::WallClockRange =>
                "platform wall-clock value is outside the supported range"@,
            TrustedTimeError::StatePoisoned => "trusted time sampler state was poisoned"@,
        }
    }

    pub fn message(&self) -> (r: String)
        ensures
            r@ == self.text(),
    {
        match self {
            TrustedTimeError::SourceMismatch(id) => {
                let mut message = "trusted time source ".to_owned();
                message.append(quoted(id.as_str()).as_str());
                message.append(" does not match this platform or reviewed packaging");
                message
            },
            TrustedTimeError::WallClockRange => {
                "platform wall-clock value is outside the supported range".to_owned()
            },
            TrustedTimeError::StatePoisoned => "trusted time sampler state was poisoned".to_owned(),
        }
    }
}

/// The source that an identifier names on a platform.
pub open spec fn source_of(platform: HostPlatform, source_id: Seq<char>) -> Option<
    TrustedTimeSource,
> {
    match platform {
        HostPlatform::Linux => if source_id == "linux-system-clock"@ || source_id
            == "linux-chrony-nts"@ {
            Some(TrustedTimeSource::LinuxSystemClock)
        } else {
            None
        },
        HostPlatform::Macos => if source_id == "macos-managed-timed"@ {
            Some(TrustedTimeSource::MacosManagedTimed)
        } else {
            None
        },
        HostPlatform::Other => None,
    }
}

/// The identifier that a manifest carries for a source.
pub open spec fn id_of(source: TrustedTimeSource) -> Seq<char> {
    match source {
        TrustedTimeSource::LinuxSystemClock => "linux-chrony-nts"@,
        TrustedTimeSource::MacosManagedTimed => "macos-managed-timed"@,
    }
}

/// Whether authority time over a source needs a durable guard.
pub open spec fn guarded(source: TrustedTimeSource) -> bool {
    source == TrustedTimeSource::LinuxSystemClock
}

/// The platform whose clock a source is.
pub open spec fn platform_of(source: TrustedTimeSource) -> HostPlatform {
    match source {
        TrustedTimeSource::LinuxSystemClock => HostPlatform::Linux,
        TrustedTimeSource::MacosManagedTimed => HostPlatform::Macos,
    }
}

/// A source's own identifier names it on its platform, and on no other.
pub proof fn law_source_id_round_trips(source: TrustedTimeSource, platform: HostPlatform)
    ensures
        source_of(platform_of(source), id_of(source)) == Some(source),
        platform != platform_of(source) ==> source_of(platform, id_of(source)) is None,
{
    reveal_strlit("linux-system-clock");
    reveal_strlit("linux-chrony-nts");
    reveal_strlit("macos-managed-timed");
    assert("linux-chrony-nts"@[0] != "macos-managed-timed"@[0]);
    assert("linux-system-clock"@[0] != "macos-managed-timed"@[0]);
}

/// The source that was asked for, or the identifier that names none.
pub open spec fn source_outcome(
    r: Result<TrustedTimeSource, TrustedTimeError>,
    platform: HostPlatform,
    source_id: Seq<char>,
) -> bool {
    match r {
        Ok(source) => source_of(platform, source_id) == Some(source),
        Err(TrustedTimeError::SourceMismatch(id)) => id@ == source_id && source_of(
            platform,
            source_id,
        ) is None,
        Err(_) => false,
    }
}

impl TrustedTimeSource {
    /// The source that `source_id` names on the platform that this host is.
    ///
    /// Schema-1 manifests historically used `linux-chrony-nts`. Both spellings are decoded so
    /// that draft and newer manifests remain usable, while [`Self::source_id`] keeps emitting the
    /// rollback-compatible schema-1 identifier.
    pub fn for_current_platform(platform: HostPlatform, source_id: &str) -> (r: Result<
        Self,
        TrustedTimeError,
    >)
        ensures
            source_outcome(r, platform, source_id@),
    {
        match platform {
            HostPlatform::Linux => {
                if same_text(source_id, "linux-system-clock") || same_text(
                    source_id,
                    "linux-chrony-nts",
                ) {
                    return Ok(TrustedTimeSource::LinuxSystemClock);
                }
            },
            HostPlatform::Macos => {
                if same_text(source_id, "macos-managed-timed") {
                    return Ok(TrustedTimeSource::MacosManagedTimed);
                }
            },
            HostPlatform::Other => {},
        }
        Err(TrustedTimeError::SourceMismatch(source_id.to_owned()))
    }

    /// The schema-1 wire identifier. It is no statement that the clock is kept by Chrony;
    /// changing it would make a regenerated manifest unreadable by older binaries.
    pub fn source_id(self) -> (r: &'static str)
        ensures
            r@ == id_of(self),
    {
        match self {
            TrustedTimeSource::LinuxSystemClock => "linux-chrony-nts",
            TrustedTimeSource::MacosManagedTimed => "macos-managed-timed",
        }
    }

    /// Whether a durable discontinuity guard must be kept in addition to the platform wall clock.
    ///
    /// Linux persists a floor and a suspend-aware monotonic anchor so that an unprivileged
    /// service cannot move authority time backwards. On macOS, changing the host clock is an
    /// administrator operation, and a second effective clock adds no authority separation.
    pub fn requires_durable_clock_guard(self) -> (r: bool)
        ensures
            r == (self == TrustedTimeSource::LinuxSystemClock),
            r == guarded(self),
    {
        match self {
            TrustedTimeSource::LinuxSystemClock => true,
            TrustedTimeSource::MacosManagedTimed => false,
        }
    }
}

#[derive(Clone, Copy, Debug, PartialEq, Eq)]
pub struct PlatformTimeReading {
    pub utc_ms: Option<u64>,
    pub monotonic_anchor_ns: u64,
    pub monotonic_elapsed_ms: u64,
}

/// The service-owned subset of durable clock state needed to evaluate the next trusted-time
/// observation.
#[derive(Clone, Copy, Debug, PartialEq, Eq)]
pub struct PersistedClockState {
    pub last_effective_ms: u64,
    pub monotonic_anchor_ns: u64,
    /// The monotonic domain the anchor was sampled in. `None` for state written before this
    /// field existed, which is treated as unknown and therefore fail-closed.
    pub boot_epoch: Option<[u8; 16]>,
}

/// A neutral trusted-time outcome. Services remain responsible for mapping this into their
/// protocol types and for persisting and auditing the transition.
#[derive(Clone, Copy, Debug, PartialEq, Eq, Structural)]
pub enum DurableClockCondition {
    Healthy,
    Untrusted,
    RollbackFrozen,
    ForwardJumpRejected,
}

#[derive(Clone, Copy, Debug, PartialEq, Eq, Structural)]
pub struct DurableClockDecision {
    pub effective_now_ms: u64,
    pub condition: DurableClockCondition,
}

#[derive(Clone, Copy, Debug, PartialEq, Eq, Structural)]
pub enum DurableClockError {
    ArithmeticOverflow,
}

impl DurableClockError {
    pub fn message(&self) -> (r: &'static str)
        ensures
            r@ == "monotonic clock arithmetic overflow"@,
    {
        "monotonic clock arithmetic overflow"
    }
}

/// Both boots are known, and they are one.
pub open spec fn same_boot(persisted: Option<[u8; 16]>, current: Option<[u8; 16]>) -> bool {
    persisted is Some && current is Some && persisted->Some_0@ == current->Some_0@
}

/// Both boots are known, and they differ.
pub open spec fn other_boot(persisted: Option<[u8; 16]>, current: Option<[u8; 16]>) -> bool {
    persisted is Some && current is Some && persisted->Some_0@ != current->Some_0@
}

pub open spec fn max_of(a: int, b: int) -> int {
    if a < b {
        b
    } else {
        a
    }
}

/// The milliseconds that have passed since the persisted observation: by the absolute anchors
/// where they are of one boot and did not move backwards, else by the sampler alone.
pub open spec fn elapsed_ms(
    previous: PersistedClockState,
    current: Option<[u8; 16]>,
    reading: PlatformTimeReading,
) -> int {
    if same_boot(previous.boot_epoch, current) && previous.monotonic_anchor_ns != 0
        && previous.monotonic_anchor_ns <= reading.monotonic_anchor_ns {
        max_of(
            (reading.monotonic_anchor_ns - previous.monotonic_anchor_ns) / 1_000_000,
            reading.monotonic_elapsed_ms as int,
        )
    } else {
        reading.monotonic_elapsed_ms as int
    }
}

/// What an observation decides, over an established previous state.
pub open spec fn guarded_decision(
    previous: PersistedClockState,
    reading: PlatformTimeReading,
    utc_ms: u64,
    current: Option<[u8; 16]>,
    max_forward_step_ms: u64,
) -> Result<DurableClockDecision, DurableClockError> {
    let floor = previous.last_effective_ms;
    let monotonic_now = floor + elapsed_ms(previous, current, reading);
    if monotonic_now > u64::MAX {
        Err(DurableClockError::ArithmeticOverflow)
    } else if utc_ms < floor {
        Ok(
            DurableClockDecision {
                effective_now_ms: floor,
                condition: DurableClockCondition::RollbackFrozen,
            },
        )
    } else if !other_boot(previous.boot_epoch, current) && utc_ms > monotonic_now
        + max_forward_step_ms {
        Ok(
            DurableClockDecision {
                effective_now_ms: monotonic_now as u64,
                condition: DurableClockCondition::ForwardJumpRejected,
            },
        )
    } else {
        Ok(
            DurableClockDecision {
                effective_now_ms: max_of(utc_ms as int, monotonic_now) as u64,
                condition: DurableClockCondition::Healthy,
            },
        )
    }
}

/// What an observation decides.
pub open spec fn clock_decision(
    previous: Option<PersistedClockState>,
    reading: PlatformTimeReading,
    current: Option<[u8; 16]>,
    max_forward_step_ms: u64,
) -> Result<DurableClockDecision, DurableClockError> {
    match reading.utc_ms {
        None => Ok(
            DurableClockDecision {
                effective_now_ms: match previous {
                    Some(state) => state.last_effective_ms,
                    None => 0,
                },
                condition: DurableClockCondition::Untrusted,
            },
        ),
        Some(utc_ms) => if previous is None || previous->Some_0.last_effective_ms == 0 {
            Ok(
                DurableClockDecision {
                    effective_now_ms: utc_ms,
                    condition: DurableClockCondition::Healthy,
                },
            )
        } else {
            guarded_decision(previous->Some_0, reading, utc_ms, current, max_forward_step_ms)
        },
    }
}

/// Authority time only moves forward: no decision lies before the persisted time.
pub proof fn law_effective_time_never_decreases(
    previous: PersistedClockState,
    reading: PlatformTimeReading,
    current: Option<[u8; 16]>,
    max_forward_step_ms: u64,
)
    ensures
        clock_decision(Some(previous), reading, current, max_forward_step_ms) matches Ok(decision)
            ==> decision.effective_now_ms >= previous.last_effective_ms,
{
}

/// Without proof of a reboot, authority time exceeds the persisted time by no more than the
/// elapsed monotonic time and the allowed step.
pub proof fn law_forward_step_is_bounded(
    previous: PersistedClockState,
    reading: PlatformTimeReading,
    current: Option<[u8; 16]>,
    max_forward_step_ms: u64,
)
    requires
        previous.last_effective_ms != 0,
        !other_boot(previous.boot_epoch, current),
    ensures
        clock_decision(Some(previous), reading, current, max_forward_step_ms) matches Ok(decision)
            ==> decision.effective_now_ms <= previous.last_effective_ms + elapsed_ms(
            previous,
            current,
            reading,
        ) + max_forward_step_ms,
{
}

/// A decision is healthy only where a wall-clock reading at or after the persisted time stands
/// behind it.
pub proof fn law_healthy_needs_wall_clock(
    previous: Option<PersistedClockState>,
    reading: PlatformTimeReading,
    current: Option<[u8; 16]>,
    max_forward_step_ms: u64,
)
    ensures
        clock_decision(previous, reading, current, max_forward_step_ms) matches Ok(decision)
            ==> decision.condition == DurableClockCondition::Healthy ==> reading.utc_ms is Some && (
        previous matches Some(state) ==> reading.utc_ms->Some_0 >= state.last_effective_ms),
{
}

/// Evaluates a platform reading against durable clock state without performing storage, audit,
/// readiness or authority mutations.
///
/// A sampler's `monotonic_elapsed_ms` is process-relative and starts at zero after a service
/// restart. When a non-zero absolute anchor was persisted in this boot and the current anchor has
/// not moved backwards, its delta supplies restart-safe elapsed time. Legacy zero anchors and
/// anchor rollback fall back to the process-relative reading. Across a confirmed reboot, anchors
/// cannot measure powered-off time, so a nondecreasing wall clock is accepted while the durable
/// floor still rejects rollback. A zero effective time is initialized by the first wall-clock
/// sample.
pub fn evaluate_durable_clock(
    previous: Option<PersistedClockState>,
    reading: &PlatformTimeReading,
    current_boot_epoch: Option<[u8; 16]>,
    max_forward_step_ms: u64,
) -> (r: Result<DurableClockDecision, DurableClockError>)
    ensures
        r == clock_decision(previous, *reading, current_boot_epoch, max_forward_step_ms),
{
    let utc_ms: u64 = match reading.utc_ms {
        Some(utc_ms) => utc_ms,
        None => {
            let effective_now_ms: u64 = match previous {
                Some(state) => state.last_effective_ms,
                None => 0,
            };
            return Ok(
                DurableClockDecision {
                    effective_now_ms,
                    condition: DurableClockCondition::Untrusted,
                },
            );
        },
    };
    let previous = match previous {
        Some(previous) => previous,
        None => {
            return Ok(
                DurableClockDecision {
                    effective_now_ms: utc_ms,
                    condition: DurableClockCondition::Healthy,
                },
            );
        },
    };
    if previous.last_effective_ms == 0 {
        return Ok(
            DurableClockDecision {
                effective_now_ms: utc_ms,
                condition: DurableClockCondition::Healthy,
            },
        );
    }
    let confirmed_reboot = persisted_anchor_is_from_different_boot(&previous, current_boot_epoch);
    let elapsed: u64 = elapsed_since_persisted_anchor(&previous, current_boot_epoch, reading);
    let monotonic_now: u64 = match previous.last_effective_ms.checked_add(elapsed) {
        Some(monotonic_now) => monotonic_now,
        None => {
            return Err(DurableClockError::ArithmeticOverflow);
        },
    };
    if utc_ms < previous.last_effective_ms {
        return Ok(
            DurableClockDecision {
                effective_now_ms: previous.last_effective_ms,
                condition: DurableClockCondition::RollbackFrozen,
            },
        );
    }
    if !confirmed_reboot && utc_ms > monotonic_now.saturating_add(max_forward_step_ms) {
        return Ok(
            DurableClockDecision {
                effective_now_ms: monotonic_now,
                condition: DurableClockCondition::ForwardJumpRejected,
            },
        );
    }
    let effective_now_ms: u64 = if utc_ms < monotonic_now {
        monotonic_now
    } else {
        utc_ms
    };
    Ok(DurableClockDecision { effective_now_ms, condition: DurableClockCondition::Healthy })
}

/// Absolute anchors are only comparable within one monotonic domain.
///
/// The continuous clock restarts at zero on boot, so subtracting a persisted anchor from a
/// current one is meaningful only when both were sampled in the same boot. A larger current
/// anchor is no evidence of continuity: a short prior boot followed by a longer current one
/// gives a valid-looking difference that credits time which never elapsed. Anything other than a
/// confirmed match falls back to process-relative elapsed time.
pub fn elapsed_since_persisted_anchor(
    previous: &PersistedClockState,
    current_boot_epoch: Option<[u8; 16]>,
    reading: &PlatformTimeReading,
) -> (r: u64)
    ensures
        r == elapsed_ms(*previous, current_boot_epoch, *reading),
{
    let same_domain = persisted_anchor_matches_current_boot(previous, current_boot_epoch);
    if same_domain && previous.monotonic_anchor_ns != 0 {
        if let Some(anchor_elapsed_ns) = reading.monotonic_anchor_ns.checked_sub(
            previous.monotonic_anchor_ns,
        ) {
            let anchor_elapsed_ms: u64 = anchor_elapsed_ns / 1_000_000;
            if anchor_elapsed_ms < reading.monotonic_elapsed_ms {
                return reading.monotonic_elapsed_ms;
            }
            return anchor_elapsed_ms;
        }
    }
    reading.monotonic_elapsed_ms
}

pub fn persisted_anchor_matches_current_boot(
    previous: &PersistedClockState,
    current_boot_epoch: Option<[u8; 16]>,
) -> (r: bool)
    ensures
        r == same_boot(previous.boot_epoch, current_boot_epoch),
{
    match (previous.boot_epoch, current_boot_epoch) {
        (Some(persisted), Some(current)) => same_bytes(persisted.as_slice(), current.as_slice()),
        _ => false,
    }
}

pub fn persisted_anchor_is_from_different_boot(
    previous: &PersistedClockState,
    current_boot_epoch: Option<[u8; 16]>,
) -> (r: bool)
    ensures
        r == other_boot(previous.boot_epoch, current_boot_epoch),
{
    match (previous.boot_epoch, current_boot_epoch) {
        (Some(persisted), Some(current)) => !same_bytes(persisted.as_slice(), current.as_slice()),
        _ => false,
    }
}

/// Where a sampler stands: its last anchor, and the nanoseconds not yet counted as a millisecond.
#[derive(Clone, Copy, Debug, PartialEq, Eq)]
pub struct SampleState {
    pub prior_anchor_ns: u64,
    pub fractional_ns: u64,
}

/// The nanoseconds that a sampler has to account for at an anchor.
pub open spec fn pending_ns(state: SampleState, anchor_ns: u64) -> int {
    anchor_ns - state.prior_anchor_ns + state.fractional_ns
}

/// Counts the milliseconds since the last anchor and carries the remainder. An anchor that moved
/// backwards, or a count that no 64-bit number holds, is an error and changes nothing.
pub fn advance_sample_state(state: &mut Option<SampleState>, anchor_ns: u64) -> (r: Result<
    u64,
    TrustedTimeError,
>)
    ensures
        match *old(state) {
            None => r == Ok::<u64, TrustedTimeError>(0) && *final(state) == Some(
                SampleState { prior_anchor_ns: anchor_ns, fractional_ns: 0 },
            ),
            Some(prior) => if anchor_ns < prior.prior_anchor_ns || pending_ns(prior, anchor_ns)
                > u64::MAX {
                r == Err::<u64, TrustedTimeError>(TrustedTimeError::WallClockRange) && *final(state)
                    == *old(state)
            } else {
                r == Ok::<u64, TrustedTimeError>((pending_ns(prior, anchor_ns) / 1_000_000) as u64)
                    && *final(state) == Some(
                    SampleState {
                        prior_anchor_ns: anchor_ns,
                        fractional_ns: (pending_ns(prior, anchor_ns) % 1_000_000) as u64,
                    },
                )
            },
        },
{
    let prior = match *state {
        Some(prior) => prior,
        None => {
            *state = Some(SampleState { prior_anchor_ns: anchor_ns, fractional_ns: 0 });
            return Ok(0);
        },
    };
    let since: u64 = match anchor_ns.checked_sub(prior.prior_anchor_ns) {
        Some(since) => since,
        None => {
            return Err(TrustedTimeError::WallClockRange);
        },
    };
    let elapsed_ns: u64 = match since.checked_add(prior.fractional_ns) {
        Some(elapsed_ns) => elapsed_ns,
        None => {
            return Err(TrustedTimeError::WallClockRange);
        },
    };
    *state = Some(
        SampleState { prior_anchor_ns: anchor_ns, fractional_ns: elapsed_ns % 1_000_000 },
    );
    Ok(elapsed_ns / 1_000_000)
}

/// No time is lost between two samples: the milliseconds counted by both, with the remainder
/// that is carried on, are the nanoseconds that were carried in and that passed up to the last.
pub proof fn law_samples_lose_no_time(start: SampleState, second: u64, third: u64)
    requires
        start.prior_anchor_ns <= second <= third,
        pending_ns(start, third) <= u64::MAX,
    ensures
        ({
            let middle = SampleState {
                prior_anchor_ns: second,
                fractional_ns: (pending_ns(start, second) % 1_000_000) as u64,
            };
            1_000_000 * (pending_ns(start, second) / 1_000_000) + 1_000_000 * (pending_ns(
                middle,
                third,
            ) / 1_000_000) + pending_ns(middle, third) % 1_000_000 == pending_ns(start, third)
        }),
{
}

/// The nanoseconds of a clock reading, if they are in range.
pub open spec fn timespec_value(seconds: i64, nanoseconds: i64) -> Option<u64> {
    if seconds < 0 || nanoseconds < 0 || seconds * 1_000_000_000 + nanoseconds > u64::MAX {
        None
    } else {
        Some((seconds * 1_000_000_000 + nanoseconds) as u64)
    }
}

pub fn timespec_ns(seconds: i64, nanoseconds: i64) -> (r: Result<u64, TrustedTimeError>)
    ensures
        r == (match timespec_value(seconds, nanoseconds) {
            Some(ns) => Ok::<u64, TrustedTimeError>(ns),
            None => Err::<u64, TrustedTimeError>(TrustedTimeError::WallClockRange),
        }),
{
    if seconds < 0 || nanoseconds < 0 {
        return Err(TrustedTimeError::WallClockRange);
    }
    let scaled: u64 = match (seconds as u64).checked_mul(1_000_000_000) {
        Some(scaled) => scaled,
        None => {
            return Err(TrustedTimeError::WallClockRange);
        },
    };
    match scaled.checked_add(nanoseconds as u64) {
        Some(ns) => Ok(ns),
        None => Err(TrustedTimeError::WallClockRange),
    }
}

/// The nanoseconds that a continuous clock's ticks stand for, at `numer` nanoseconds for `denom`
/// ticks, if they are in range.
pub open spec fn ticks_value(ticks: u64, numer: u32, denom: u32) -> Option<u64> {
    if denom == 0 || (ticks * numer) / denom as int > u64::MAX {
        None
    } else {
        Some(((ticks * numer) / denom as int) as u64)
    }
}

pub fn continuous_ns(ticks: u64, numer: u32, denom: u32) -> (r: Result<u64, TrustedTimeError>)
    ensures
        r == (match ticks_value(ticks, numer, denom) {
            Some(ns) => Ok::<u64, TrustedTimeError>(ns),
            None => Err::<u64, TrustedTimeError>(TrustedTimeError::WallClockRange),
        }),
{
    if denom == 0 {
        return Err(TrustedTimeError::WallClockRange);
    }
    proof {
        vstd::arithmetic::mul::lemma_mul_upper_bound(
            ticks as int,
            u64::MAX as int,
            numer as int,
            u32::MAX as int,
        );
        vstd::arithmetic::mul::lemma_mul_nonnegative(ticks as int, numer as int);
    }
    let product: u128 = ticks as u128 * numer as u128;
    let nanos: u128 = product / denom as u128;
    if nanos > u64::MAX as u128 {
        return Err(TrustedTimeError::WallClockRange);
    }
    Ok(nanos as u64)
}

/// `SystemTime::elapsed` of the Unix epoch, in milliseconds; `None` where the wall clock stands
/// before it. Nothing is said of what the clock reads.
#[verifier::external_body]
pub(crate) fn wall_clock_millis() -> (r: Option<u128>) {
    std::time::UNIX_EPOCH.elapsed().ok().map(|since| since.as_millis())
}

/// What a sampler reads at a continuous-clock reading and a wall-clock reading: the anchor first,
/// and the sampler's state moves on even where the wall clock is out of range.
pub fn reading_at(
    state: &mut Option<SampleState>,
    anchor_ns: Result<u64, TrustedTimeError>,
    wall_millis: Option<u128>,
) -> (r: Result<PlatformTimeReading, TrustedTimeError>)
    ensures
        reading_outcome(*old(state), *final(state), anchor_ns, wall_millis, r),
{
    let anchor: u64 = match anchor_ns {
        Ok(anchor) => anchor,
        Err(error) => {
            return Err(error);
        },
    };
    let elapsed: u64 = match advance_sample_state(state, anchor) {
        Ok(elapsed) => elapsed,
        Err(error) => {
            return Err(error);
        },
    };
    match wall_millis {
        Some(millis) => if millis <= u64::MAX as u128 {
            Ok(
                PlatformTimeReading {
                    utc_ms: Some(millis as u64),
                    monotonic_anchor_ns: anchor,
                    monotonic_elapsed_ms: elapsed,
                },
            )
        } else {
            Err(TrustedTimeError::WallClockRange)
        },
        None => Err(TrustedTimeError::WallClockRange),
    }
}

/// How a sampler's state and result follow from what the clocks read. A continuous clock that
/// could not be read is the sampler's own error.
pub open spec fn reading_outcome(
    before: Option<SampleState>,
    after: Option<SampleState>,
    anchor_ns: Result<u64, TrustedTimeError>,
    wall_millis: Option<u128>,
    r: Result<PlatformTimeReading, TrustedTimeError>,
) -> bool {
    let range = Err::<PlatformTimeReading, TrustedTimeError>(TrustedTimeError::WallClockRange);
    match anchor_ns {
        Err(e) => r == Err::<PlatformTimeReading, TrustedTimeError>(e) && after == before,
        Ok(anchor) => if before matches Some(prior) && (anchor < prior.prior_anchor_ns
            || pending_ns(prior, anchor) > u64::MAX) {
            r == range && after == before
        } else {
            let pending = match before {
                Some(prior) => pending_ns(prior, anchor),
                None => 0,
            };
            &&& after == Some(
                SampleState {
                    prior_anchor_ns: anchor,
                    fractional_ns: (pending % 1_000_000) as u64,
                },
            )
            &&& r == (if wall_millis matches Some(millis) && millis <= u64::MAX {
                Ok(
                    PlatformTimeReading {
                        utc_ms: Some(wall_millis->Some_0 as u64),
                        monotonic_anchor_ns: anchor,
                        monotonic_elapsed_ms: (pending / 1_000_000) as u64,
                    },
                )
            } else {
                range
            })
        },
    }
}

pub struct PlatformTimeSampler {
    source: TrustedTimeSource,
    sample_state: Option<SampleState>,
}

impl PlatformTimeSampler {
    /// The source that the sampler was made for.
    pub closed spec fn clock(&self) -> TrustedTimeSource {
        self.source
    }

    /// Where the sampler stands.
    pub closed spec fn state(&self) -> Option<SampleState> {
        self.sample_state
    }

    pub fn new(platform: HostPlatform, source_id: &str) -> (r: Result<Self, TrustedTimeError>)
        ensures
            match r {
                Ok(sampler) => source_of(platform, source_id@) == Some(sampler.clock())
                    && sampler.state() is None,
                Err(e) => source_outcome(Err(e), platform, source_id@),
            },
    {
        match TrustedTimeSource::for_current_platform(platform, source_id) {
            Ok(source) => Ok(PlatformTimeSampler { source, sample_state: None }),
            Err(error) => Err(error),
        }
    }

    pub fn source(&self) -> (r: TrustedTimeSource)
        ensures
            r == self.clock(),
    {
        self.source
    }

    /// Samples the host wall clock beside a reading of the platform's suspend-aware continuous
    /// clock. The host clock is never changed; Linux services apply the durable rollback and
    /// same-boot discontinuity guard before using this value as authority time.
    pub fn sample(&mut self, anchor_ns: Result<u64, TrustedTimeError>) -> (r: Result<
        PlatformTimeReading,
        TrustedTimeError,
    >)
        ensures
            final(self).clock() == old(self).clock(),
            exists|wall_millis: Option<u128>| #[trigger]
                reading_outcome(
                    old(self).state(),
                    final(self).state(),
                    anchor_ns,
                    wall_millis,
                    r,
                ),
    {
        let wall_millis: Option<u128> = wall_clock_millis();
        self.sample_at(anchor_ns, wall_millis)
    }

    /// Samples at readings of the continuous clock and of the wall clock.
    pub fn sample_at(
        &mut self,
        anchor_ns: Result<u64, TrustedTimeError>,
        wall_millis: Option<u128>,
    ) -> (r: Result<PlatformTimeReading, TrustedTimeError>)
        ensures
            final(self).clock() == old(self).clock(),
            reading_outcome(old(self).state(), final(self).state(), anchor_ns, wall_millis, r),
    {
        reading_at(&mut self.sample_state, anchor_ns, wall_millis)
    }
}

} // verus!
