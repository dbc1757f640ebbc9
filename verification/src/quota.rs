//! Admission quotas of an endpoint.

use std::collections::VecDeque;

use vstd::prelude::*;
use vstd::string::*;
use vstd::utf8::*;

use crate::error::{WireError, WireErrorCode, WireErrorView};
use crate::ids::Token;
use crate::text::same_text;

verus! {

pub open spec fn quota_error(message: Seq<char>) -> WireErrorView {
    WireErrorView { code: WireErrorCode::QuotaExceeded, message }
}

/// The last characters of a text are the suffix.
pub open spec fn has_suffix(text: Seq<char>, suffix: Seq<char>) -> bool {
    suffix.len() <= text.len() && text.skip(text.len() - suffix.len()) == suffix
}

/// The methods that only read: by the last part of their name, or by name.
pub open spec fn reads_only(method: Seq<char>) -> bool {
    ||| has_suffix(method, ".read"@)
    ||| has_suffix(method, ".readiness"@)
    ||| has_suffix(method, ".capabilities"@)
    ||| has_suffix(method, ".status"@)
    ||| has_suffix(method, ".list"@)
    ||| has_suffix(method, ".list_public"@)
    ||| has_suffix(method, ".get_public"@)
    ||| method == "revocation.state"@
    ||| method == "sealed_approval.limit_state"@
    ||| method == "key.derivation_capabilities"@
    ||| method == "key.list_derived"@
    ||| method == "credential.list_public"@
    ||| method == "custody.result"@
}

/// Whether an ASCII text ends with an ASCII suffix.
fn ends_with(text: &str, suffix: &str) -> (r: bool)
    requires
        is_ascii_chars(text@),
        is_ascii_chars(suffix@),
    ensures
        r == has_suffix(text@, suffix@),
{
    broadcast use is_ascii_chars_encode_utf8;

    let bytes = text.as_bytes();
    let tail = suffix.as_bytes();
    if tail.len() > bytes.len() {
        return false;
    }
    let total: usize = bytes.len();
    let start: usize = total - tail.len();
    let mut i: usize = 0;
    while i < tail.len()
        invariant
            is_ascii_chars(text@),
            is_ascii_chars(suffix@),
            bytes@ == Seq::new(text@.len(), |k: int| text@[k] as u8),
            tail@ == Seq::new(suffix@.len(), |k: int| suffix@[k] as u8),
            total == bytes@.len(),
            tail@.len() <= total,
            start == total - tail@.len(),
            i <= tail@.len(),
            forall|k: int| 0 <= k < i ==> text@[start + k] == #[trigger] suffix@[k],
        decreases tail@.len() - i,
    {
        proof {
            assert(text@[start + i] as u8 == bytes@[start + i]);
            assert(suffix@[i as int] as u8 == tail@[i as int]);
        }
        if bytes[start + i] != tail[i] {
            assert(text@.skip(start as int)[i as int] != suffix@[i as int]);
            return false;
        }
        i = i + 1;
    }
    assert(text@.skip(start as int) =~= suffix@);
    true
}

proof fn lemma_suffixes_are_ascii()
    ensures
        is_ascii_chars(".read"@),
        is_ascii_chars(".readiness"@),
        is_ascii_chars(".capabilities"@),
        is_ascii_chars(".status"@),
        is_ascii_chars(".list"@),
        is_ascii_chars(".list_public"@),
        is_ascii_chars(".get_public"@),
{
    reveal_strlit(".read");
    reveal_strlit(".readiness");
    reveal_strlit(".capabilities");
    reveal_strlit(".status");
    reveal_strlit(".list");
    reveal_strlit(".list_public");
    reveal_strlit(".get_public");
}

/// Whether a method only reads, and so needs no mutation slot.
pub fn is_read_method(method: &Token) -> (r: bool)
    ensures
        r == reads_only(method@),
{
    let name = method.as_str();
    proof {
        crate::ids::lemma_token_is_ascii(method@);
        lemma_suffixes_are_ascii();
    }
    ends_with(name, ".read") || ends_with(name, ".readiness") || ends_with(name, ".capabilities")
        || ends_with(name, ".status") || ends_with(name, ".list") || ends_with(
        name,
        ".list_public",
    ) || ends_with(name, ".get_public") || same_text(name, "revocation.state") || same_text(
        name,
        "sealed_approval.limit_state",
    ) || same_text(name, "key.derivation_capabilities") || same_text(name, "key.list_derived")
        || same_text(name, "credential.list_public") || same_text(name, "custody.result")
}

/// A time whose window is over: it and the window lie at or before now, or no 64-bit time does.
pub open spec fn expired(accepted: u64, window_ms: u64, now_ms: u64) -> bool {
    if accepted + window_ms > u64::MAX {
        now_ms == u64::MAX
    } else {
        accepted + window_ms <= now_ms
    }
}

/// The accepted times from the first one that is not expired on.
pub open spec fn unexpired(accepted: Seq<u64>, window_ms: u64, now_ms: u64) -> Seq<u64>
    decreases accepted.len(),
{
    if accepted.len() > 0 && expired(accepted[0], window_ms, now_ms) {
        unexpired(accepted.drop_first(), window_ms, now_ms)
    } else {
        accepted
    }
}

/// A bound on how many events are accepted within a sliding window.
pub struct SlidingAdmission {
    maximum: usize,
    window_ms: u64,
    accepted_at_ms: VecDeque<u64>,
}

/// What a [`SlidingAdmission`] says.
pub struct RateView {
    pub maximum: nat,
    pub window_ms: u64,
    /// When the events that count were accepted.
    pub accepted: Seq<u64>,
}

impl View for SlidingAdmission {
    type V = RateView;

    closed spec fn view(&self) -> RateView {
        RateView {
            maximum: self.maximum as nat,
            window_ms: self.window_ms,
            accepted: self.accepted_at_ms@,
        }
    }
}

/// The bound once an event was offered at a time.
pub open spec fn rate_after(rate: RateView, now_ms: u64) -> RateView {
    let counted = unexpired(rate.accepted, rate.window_ms, now_ms);
    RateView {
        accepted: if counted.len() >= rate.maximum {
            counted
        } else {
            counted.push(now_ms)
        },
        ..rate
    }
}

/// Whether an event that is offered at a time is accepted.
pub open spec fn rate_accepts(rate: RateView, now_ms: u64) -> bool {
    unexpired(rate.accepted, rate.window_ms, now_ms).len() < rate.maximum
}

/// The bound is never exceeded: once an event was offered, no more events count than the
/// maximum.
pub proof fn law_rate_never_exceeds_its_maximum(rate: RateView, now_ms: u64)
    requires
        rate.accepted.len() <= rate.maximum,
    ensures
        rate_after(rate, now_ms).accepted.len() <= rate.maximum,
{
    lemma_unexpired_is_suffix(rate.accepted, rate.window_ms, now_ms);
}

proof fn lemma_unexpired_is_suffix(accepted: Seq<u64>, window_ms: u64, now_ms: u64)
    ensures
        ({
            let kept = unexpired(accepted, window_ms, now_ms);
            let dropped = accepted.len() - kept.len();
            &&& kept.len() <= accepted.len()
            &&& kept == accepted.skip(dropped)
            &&& forall|i: int| 0 <= i < dropped ==> expired(#[trigger] accepted[i], window_ms, now_ms)
            &&& kept.len() > 0 ==> !expired(kept[0], window_ms, now_ms)
        }),
    decreases accepted.len(),
{
    if accepted.len() > 0 && expired(accepted[0], window_ms, now_ms) {
        let rest = accepted.drop_first();
        lemma_unexpired_is_suffix(rest, window_ms, now_ms);
        let kept = unexpired(accepted, window_ms, now_ms);
        let dropped = accepted.len() - kept.len();
        assert(rest.skip(dropped - 1) =~= accepted.skip(dropped));
        assert forall|i: int| 0 <= i < dropped implies expired(
            #[trigger] accepted[i],
            window_ms,
            now_ms,
        ) by {
            if i > 0 {
                assert(rest[i - 1] == accepted[i]);
            }
        }
    } else {
        assert(accepted.skip(0) =~= accepted);
    }
}

/// While time does not run backwards, exactly the events whose window is over stop counting.
pub proof fn law_only_expired_events_stop_counting(rate: RateView, now_ms: u64, i: int)
    requires
        0 <= i < rate.accepted.len(),
        forall|j: int, k: int|
            0 <= j <= k < rate.accepted.len() ==> #[trigger] rate.accepted[j]
                <= #[trigger] rate.accepted[k],
    ensures
        ({
            let counted = unexpired(rate.accepted, rate.window_ms, now_ms);
            expired(rate.accepted[i], rate.window_ms, now_ms) <==> i < rate.accepted.len()
                - counted.len()
        }),
{
    lemma_unexpired_is_suffix(rate.accepted, rate.window_ms, now_ms);
    let counted = unexpired(rate.accepted, rate.window_ms, now_ms);
    let dropped = rate.accepted.len() - counted.len();
    if i >= dropped {
        assert(counted[0] == rate.accepted[dropped]);
        assert(rate.accepted[dropped] <= rate.accepted[i]);
    }
}

impl SlidingAdmission {
    pub fn new(maximum: usize, window_ms: u64) -> (r: Self)
        ensures
            r@ == (RateView { maximum: maximum as nat, window_ms, accepted: Seq::empty() }),
    {
        let r = SlidingAdmission { maximum, window_ms, accepted_at_ms: VecDeque::new() };
        assert(r@.accepted =~= Seq::empty());
        r
    }

    /// Accepts an event unless as many as the maximum count already.
    pub fn try_admit(&mut self, now_ms: u64, message: &str) -> (r: Result<(), WireError>)
        ensures
            final(self)@ == rate_after(old(self)@, now_ms),
            crate::error::outcome(r) == (if rate_accepts(old(self)@, now_ms) {
                Ok::<(), WireErrorView>(())
            } else {
                Err(quota_error(message@))
            }),
    {
        let ghost given = self@;
        while self.accepted_at_ms.len() > 0 && self.accepted_at_ms[0].saturating_add(
            self.window_ms,
        ) <= now_ms
            invariant
                self@.maximum == given.maximum,
                self@.window_ms == given.window_ms,
                unexpired(self@.accepted, given.window_ms, now_ms) == unexpired(
                    given.accepted,
                    given.window_ms,
                    now_ms,
                ),
            ensures
                self@.accepted == unexpired(given.accepted, given.window_ms, now_ms),
            decreases self.accepted_at_ms@.len(),
        {
            let ghost before = self.accepted_at_ms@;
            self.accepted_at_ms.pop_front();
            assert(self.accepted_at_ms@ =~= before.drop_first());
        }
        if self.accepted_at_ms.len() >= self.maximum {
            return Err(WireError::new(WireErrorCode::QuotaExceeded, message));
        }
        self.accepted_at_ms.push_back(now_ms);
        Ok(())
    }
}

/// The quotas of an endpoint: mutations in flight, requests and journal admissions per window.
pub struct EndpointQuota {
    maximum_in_flight: usize,
    in_flight: usize,
    request_rate: SlidingAdmission,
    journal_rate: SlidingAdmission,
}

/// What an [`EndpointQuota`] says.
pub struct QuotaView {
    pub maximum_in_flight: nat,
    pub in_flight: nat,
    pub requests: RateView,
    pub journal: RateView,
}

impl View for EndpointQuota {
    type V = QuotaView;

    closed spec fn view(&self) -> QuotaView {
        QuotaView {
            maximum_in_flight: self.maximum_in_flight as nat,
            in_flight: self.in_flight as nat,
            requests: self.request_rate@,
            journal: self.journal_rate@,
        }
    }
}

/// The right to work on an admitted request. A mutation occupies a slot until it is released.
#[derive(Debug)]
pub struct EndpointAdmission {
    mutation: bool,
}

impl EndpointAdmission {
    /// Whether the admission occupies a mutation slot.
    pub closed spec fn occupies_slot(&self) -> bool {
        self.mutation
    }
}

/// The quotas once a request was offered.
pub open spec fn quota_after(quota: QuotaView, method: Seq<char>, now_ms: u64) -> QuotaView {
    let counted = QuotaView { requests: rate_after(quota.requests, now_ms), ..quota };
    if !rate_accepts(quota.requests, now_ms) || reads_only(method) || quota.in_flight
        >= quota.maximum_in_flight {
        counted
    } else {
        QuotaView {
            journal: rate_after(quota.journal, now_ms),
            in_flight: if rate_accepts(quota.journal, now_ms) {
                quota.in_flight + 1
            } else {
                quota.in_flight
            },
            ..counted
        }
    }
}

/// Why a request is refused, if it is: by the request rate, then, unless it only reads, by the
/// mutations in flight and by the journal rate.
pub open spec fn quota_check(quota: QuotaView, method: Seq<char>, now_ms: u64) -> Result<
    (),
    WireErrorView,
> {
    if !rate_accepts(quota.requests, now_ms) {
        Err(quota_error("request rate quota exhausted"@))
    } else if reads_only(method) {
        Ok(())
    } else if quota.in_flight >= quota.maximum_in_flight {
        Err(quota_error("concurrent mutation quota exhausted"@))
    } else if !rate_accepts(quota.journal, now_ms) {
        Err(quota_error("operation journal admission quota exhausted"@))
    } else {
        Ok(())
    }
}

/// The quotas once an admission was released.
pub open spec fn quota_released(quota: QuotaView, occupied: bool) -> QuotaView {
    QuotaView {
        in_flight: if occupied && quota.in_flight > 0 {
            (quota.in_flight - 1) as nat
        } else {
            quota.in_flight
        },
        ..quota
    }
}

/// Reads stay available while every mutation slot is taken, and take none themselves.
pub proof fn law_reads_need_no_mutation_slot(quota: QuotaView, method: Seq<char>, now_ms: u64)
    requires
        reads_only(method),
        rate_accepts(quota.requests, now_ms),
    ensures
        quota_check(quota, method, now_ms) is Ok,
        quota_after(quota, method, now_ms).in_flight == quota.in_flight,
        quota_after(quota, method, now_ms).journal == quota.journal,
{
}

/// No more mutations are in flight than the quota allows, and a released one makes room for the
/// next.
pub proof fn law_mutations_in_flight_are_bounded(quota: QuotaView, method: Seq<char>, now_ms: u64)
    requires
        quota.in_flight <= quota.maximum_in_flight,
    ensures
        quota_after(quota, method, now_ms).in_flight <= quota.maximum_in_flight,
        quota.in_flight > 0 ==> quota_released(quota, true).in_flight < quota.maximum_in_flight,
{
}

/// The request window and the journal window refuse independently: a full request window changes
/// nothing of the journal window, and a full journal window occupies no slot.
pub proof fn law_windows_fail_closed_independently(
    quota: QuotaView,
    method: Seq<char>,
    now_ms: u64,
)
    requires
        quota_check(quota, method, now_ms) is Err,
    ensures
        quota_after(quota, method, now_ms).in_flight == quota.in_flight,
        !rate_accepts(quota.requests, now_ms) ==> quota_after(quota, method, now_ms).journal
            == quota.journal,
{
}

/// The quotas of an endpoint before any request, of which none may be zero.
pub open spec fn quota_of(
    mutations: usize,
    requests: usize,
    request_window_ms: u64,
    admissions: usize,
    journal_window_ms: u64,
) -> Option<QuotaView> {
    if mutations == 0 || requests == 0 || request_window_ms == 0 || admissions == 0
        || journal_window_ms == 0 {
        None
    } else {
        Some(
            QuotaView {
                maximum_in_flight: mutations as nat,
                in_flight: 0,
                requests: RateView {
                    maximum: requests as nat,
                    window_ms: request_window_ms,
                    accepted: Seq::empty(),
                },
                journal: RateView {
                    maximum: admissions as nat,
                    window_ms: journal_window_ms,
                    accepted: Seq::empty(),
                },
            },
        )
    }
}

impl EndpointQuota {
    /// Makes the quotas of an endpoint, of which none may be zero. No more slots can be kept than
    /// an eighth of the largest number.
    pub fn new(
        maximum_in_flight_mutations: usize,
        maximum_requests_per_window: usize,
        request_window_ms: u64,
        maximum_journal_admissions_per_window: usize,
        journal_window_ms: u64,
    ) -> (r: Result<Self, WireError>)
        requires
            maximum_in_flight_mutations <= usize::MAX / 8 || maximum_requests_per_window == 0
                || request_window_ms == 0 || maximum_journal_admissions_per_window == 0
                || journal_window_ms == 0,
        ensures
            ({
                let nonzero = maximum_in_flight_mutations != 0 && maximum_requests_per_window != 0
                    && request_window_ms != 0 && maximum_journal_admissions_per_window != 0
                    && journal_window_ms != 0;
                match r {
                    Ok(quota) => nonzero && quota@ == (QuotaView {
                        maximum_in_flight: maximum_in_flight_mutations as nat,
                        in_flight: 0,
                        requests: RateView {
                            maximum: maximum_requests_per_window as nat,
                            window_ms: request_window_ms,
                            accepted: Seq::empty(),
                        },
                        journal: RateView {
                            maximum: maximum_journal_admissions_per_window as nat,
                            window_ms: journal_window_ms,
                            accepted: Seq::empty(),
                        },
                    }),
                    Err(e) => !nonzero && e@ == crate::codec::malformed_error(
                        "endpoint quota values must be nonzero"@,
                    ),
                }
            }),
            match r {
                Ok(quota) => quota_of(
                    maximum_in_flight_mutations,
                    maximum_requests_per_window,
                    request_window_ms,
                    maximum_journal_admissions_per_window,
                    journal_window_ms,
                ) == Some(quota@),
                Err(_) => quota_of(
                    maximum_in_flight_mutations,
                    maximum_requests_per_window,
                    request_window_ms,
                    maximum_journal_admissions_per_window,
                    journal_window_ms,
                ) is None,
            },
    {
        if maximum_in_flight_mutations == 0 || maximum_requests_per_window == 0
            || request_window_ms == 0 || maximum_journal_admissions_per_window == 0
            || journal_window_ms == 0 {
            return Err(
                WireError::new(
                    WireErrorCode::MalformedFrame,
                    "endpoint quota values must be nonzero",
                ),
            );
        }
        Ok(
            EndpointQuota {
                maximum_in_flight: maximum_in_flight_mutations,
                in_flight: 0,
                request_rate: SlidingAdmission::new(maximum_requests_per_window, request_window_ms),
                journal_rate: SlidingAdmission::new(
                    maximum_journal_admissions_per_window,
                    journal_window_ms,
                ),
            },
        )
    }

    /// Admits a request, or says which quota is exhausted.
    pub fn try_admit(&mut self, method: &Token, observed_at_ms: u64) -> (r: Result<
        EndpointAdmission,
        WireError,
    >)
        ensures
            final(self)@ == quota_after(old(self)@, method@, observed_at_ms),
            crate::error::outcome(r) == quota_check(old(self)@, method@, observed_at_ms),
            r matches Ok(admission) ==> admission.occupies_slot() == !reads_only(method@),
    {
        if let Err(error) = self.request_rate.try_admit(
            observed_at_ms,
            "request rate quota exhausted",
        ) {
            return Err(error);
        }
        if is_read_method(method) {
            return Ok(EndpointAdmission { mutation: false });
        }
        if self.in_flight >= self.maximum_in_flight {
            return Err(
                WireError::new(
                    WireErrorCode::QuotaExceeded,
                    "concurrent mutation quota exhausted",
                ),
            );
        }
        if let Err(error) = self.journal_rate.try_admit(
            observed_at_ms,
            "operation journal admission quota exhausted",
        ) {
            return Err(error);
        }
        self.in_flight = self.in_flight + 1;
        Ok(EndpointAdmission { mutation: true })
    }

    /// Ends the work on an admitted request: its slot is free again.
    pub fn release(&mut self, admission: EndpointAdmission)
        ensures
            final(self)@ == quota_released(old(self)@, admission.occupies_slot()),
    {
        if admission.mutation && self.in_flight > 0 {
            self.in_flight = self.in_flight - 1;
        }
    }
}

} // verus!
