//! What the admission quotas of an endpoint promise, request by request.

use vstd::prelude::*;

use crate::error::{WireErrorCode, WireErrorView};
use crate::quota::{
    expired, has_suffix, quota_after, quota_check, quota_of, quota_released, rate_accepts,
    rate_after, reads_only, unexpired, QuotaView, RateView,
};

verus! {

/// A text is some other text with an ending behind it.
pub open spec fn ends(text: Seq<char>, ending: Seq<char>) -> bool {
    exists|stem: Seq<char>| text == #[trigger] (stem + ending)
}

proof fn lemma_suffix_is_ending(text: Seq<char>, suffix: Seq<char>)
    ensures
        has_suffix(text, suffix) == ends(text, suffix),
{
    if has_suffix(text, suffix) {
        let stem = text.take(text.len() - suffix.len());
        assert(text =~= stem + suffix);
    }
    if ends(text, suffix) {
        let stem = choose|stem: Seq<char>| text == #[trigger] (stem + suffix);
        assert(text.skip(text.len() - suffix.len()) =~= suffix);
    }
}

/// A method reads if its last part says so, or if it is one of the methods that read under
/// another name. Every other method mutates.
pub proof fn law_reading_methods_are_known_by_name(method: Seq<char>)
    ensures
        reads_only(method) <==> {
            ||| ends(method, ".read"@)
            ||| ends(method, ".readiness"@)
            ||| ends(method, ".capabilities"@)
            ||| ends(method, ".status"@)
            ||| ends(method, ".list"@)
            ||| ends(method, ".list_public"@)
            ||| ends(method, ".get_public"@)
            ||| method == "revocation.state"@
            ||| method == "sealed_approval.limit_state"@
            ||| method == "key.derivation_capabilities"@
            ||| method == "key.list_derived"@
            ||| method == "custody.result"@
        },
{
    lemma_suffix_is_ending(method, ".read"@);
    lemma_suffix_is_ending(method, ".readiness"@);
    lemma_suffix_is_ending(method, ".capabilities"@);
    lemma_suffix_is_ending(method, ".status"@);
    lemma_suffix_is_ending(method, ".list"@);
    lemma_suffix_is_ending(method, ".list_public"@);
    lemma_suffix_is_ending(method, ".get_public"@);
    if method == "credential.list_public"@ {
        reveal_strlit("credential.list_public");
        reveal_strlit(".list_public");
        reveal_strlit("credential");
        assert(method =~= "credential"@ + ".list_public"@);
    }
}

/// An event stops counting as soon as its whole window has passed, and not before. A window that
/// reaches beyond the last 64-bit time ends at that time.
pub proof fn law_windows_end_on_time(accepted: u64, window_ms: u64, now_ms: u64)
    ensures
        now_ms >= accepted + window_ms ==> expired(accepted, window_ms, now_ms),
        now_ms < accepted + window_ms && now_ms < u64::MAX ==> !expired(
            accepted,
            window_ms,
            now_ms,
        ),
        now_ms == u64::MAX ==> expired(accepted, window_ms, now_ms),
{
}

/// The events that were accepted come in the order of their times.
pub open spec fn in_order(times: Seq<u64>) -> bool {
    forall|j: int, k: int| 0 <= j <= k < times.len() ==> #[trigger] times[j] <= #[trigger] times[k]
}

/// The events that count are the last ones: all whose window is not over, and none before them.
pub proof fn law_the_last_events_count(accepted: Seq<u64>, window_ms: u64, now_ms: u64)
    requires
        in_order(accepted),
    ensures
        ({
            let counted = unexpired(accepted, window_ms, now_ms);
            let gone = accepted.len() - counted.len();
            &&& 0 <= gone
            &&& counted == accepted.subrange(gone, accepted.len() as int)
            &&& forall|i: int|
                0 <= i < gone ==> now_ms == u64::MAX || now_ms >= #[trigger] accepted[i] + window_ms
            &&& forall|i: int|
                gone <= i < accepted.len() ==> now_ms < u64::MAX && now_ms < #[trigger] accepted[i]
                    + window_ms
        }),
    decreases accepted.len(),
{
    if accepted.len() > 0 && expired(accepted[0], window_ms, now_ms) {
        let rest = accepted.drop_first();
        assert forall|j: int, k: int| 0 <= j <= k < rest.len() implies #[trigger] rest[j]
            <= #[trigger] rest[k] by {
            assert(accepted[j + 1] <= accepted[k + 1]);
        }
        law_the_last_events_count(rest, window_ms, now_ms);
        let counted = unexpired(accepted, window_ms, now_ms);
        let gone = accepted.len() - counted.len();
        assert(rest.subrange(gone - 1, rest.len() as int) =~= accepted.subrange(
            gone,
            accepted.len() as int,
        ));
        assert forall|i: int| 0 <= i < gone implies now_ms == u64::MAX || now_ms
            >= #[trigger] accepted[i] + window_ms by {
            if i > 0 {
                assert(rest[i - 1] == accepted[i]);
            }
        }
        assert forall|i: int| gone <= i < accepted.len() implies now_ms < u64::MAX && now_ms
            < #[trigger] accepted[i] + window_ms by {
            assert(rest[i - 1] == accepted[i]);
        }
    } else {
        assert(accepted.subrange(0, accepted.len() as int) =~= accepted);
        assert forall|i: int| 0 <= i < accepted.len() implies now_ms < u64::MAX && now_ms
            < #[trigger] accepted[i] + window_ms by {
            assert(accepted[0] <= accepted[i]);
        }
    }
}

/// An event is accepted exactly if, of the events before it, the one that many places back as the
/// bound allows is over, or there is none.
pub proof fn law_event_is_accepted_exactly(rate: RateView, now_ms: u64)
    requires
        in_order(rate.accepted),
    ensures
        rate_accepts(rate, now_ms) <==> rate.maximum > 0 && (rate.accepted.len() < rate.maximum
            || now_ms == u64::MAX || now_ms >= rate.accepted[rate.accepted.len() - rate.maximum]
            + rate.window_ms),
{
    law_the_last_events_count(rate.accepted, rate.window_ms, now_ms);
    let n = rate.accepted.len() - rate.maximum;
    if 0 <= n < rate.accepted.len() {
        let bounding = rate.accepted[n];
    }
}

/// An accepted event counts from its own time on, a refused one never does, and neither changes
/// the bound or its window.
pub proof fn law_accepted_events_count_from_their_time(rate: RateView, now_ms: u64)
    ensures
        rate_after(rate, now_ms).maximum == rate.maximum,
        rate_after(rate, now_ms).window_ms == rate.window_ms,
        rate_accepts(rate, now_ms) ==> rate_after(rate, now_ms).accepted == unexpired(
            rate.accepted,
            rate.window_ms,
            now_ms,
        ) + seq![now_ms],
        !rate_accepts(rate, now_ms) ==> rate_after(rate, now_ms).accepted == unexpired(
            rate.accepted,
            rate.window_ms,
            now_ms,
        ),
{
    let counted = unexpired(rate.accepted, rate.window_ms, now_ms);
    assert(counted.push(now_ms) =~= counted + seq![now_ms]);
}

/// An endpoint that has accepted nothing for a whole window accepts again.
pub proof fn law_idle_windows_make_room(rate: RateView, now_ms: u64)
    requires
        rate.maximum > 0,
        forall|i: int|
            0 <= i < rate.accepted.len() ==> now_ms >= #[trigger] rate.accepted[i]
                + rate.window_ms,
    ensures
        rate_accepts(rate, now_ms),
        rate_after(rate, now_ms).accepted == seq![now_ms],
{
    lemma_all_expired(rate.accepted, rate.window_ms, now_ms);
    assert(Seq::<u64>::empty().push(now_ms) =~= seq![now_ms]);
}

proof fn lemma_all_expired(accepted: Seq<u64>, window_ms: u64, now_ms: u64)
    requires
        forall|i: int| 0 <= i < accepted.len() ==> now_ms >= #[trigger] accepted[i] + window_ms,
    ensures
        unexpired(accepted, window_ms, now_ms) == Seq::<u64>::empty(),
    decreases accepted.len(),
{
    if accepted.len() > 0 {
        let rest = accepted.drop_first();
        assert(now_ms >= accepted[0] + window_ms);
        assert forall|i: int| 0 <= i < rest.len() implies now_ms >= #[trigger] rest[i]
            + window_ms by {
            assert(rest[i] == accepted[i + 1]);
        }
        lemma_all_expired(rest, window_ms, now_ms);
    } else {
        assert(accepted =~= Seq::<u64>::empty());
    }
}

/// A request is admitted exactly if the request window has room and it only reads, or a mutation
/// slot is free and the journal window has room. A refused one is told the first bound that it
/// met.
pub proof fn law_request_is_admitted_exactly(quota: QuotaView, method: Seq<char>, now_ms: u64)
    ensures
        ({
            let verdict = quota_check(quota, method, now_ms);
            let room = rate_accepts(quota.requests, now_ms);
            let slot = quota.in_flight < quota.maximum_in_flight;
            let journal = rate_accepts(quota.journal, now_ms);
            &&& verdict is Ok <==> room && (reads_only(method) || (slot && journal))
            &&& verdict matches Err(e) ==> e.code == WireErrorCode::QuotaExceeded
            &&& !room ==> verdict == Err::<(), WireErrorView>(
                WireErrorView {
                    code: WireErrorCode::QuotaExceeded,
                    message: "request rate quota exhausted"@,
                },
            )
            &&& room && !reads_only(method) && !slot ==> verdict == Err::<(), WireErrorView>(
                WireErrorView {
                    code: WireErrorCode::QuotaExceeded,
                    message: "concurrent mutation quota exhausted"@,
                },
            )
            &&& room && !reads_only(method) && slot && !journal ==> verdict == Err::<
                (),
                WireErrorView,
            >(
                WireErrorView {
                    code: WireErrorCode::QuotaExceeded,
                    message: "operation journal admission quota exhausted"@,
                },
            )
        }),
{
}

/// An admitted mutation takes one slot; nothing else takes any. Every request counts in the
/// request window; only mutations that found a free slot count in the journal window.
pub proof fn law_admission_takes_one_slot(quota: QuotaView, method: Seq<char>, now_ms: u64)
    ensures
        ({
            let after = quota_after(quota, method, now_ms);
            let admitted = quota_check(quota, method, now_ms) is Ok;
            &&& after.maximum_in_flight == quota.maximum_in_flight
            &&& after.in_flight == quota.in_flight + (if admitted && !reads_only(method) {
                1nat
            } else {
                0nat
            })
            &&& after.requests == rate_after(quota.requests, now_ms)
            &&& rate_accepts(quota.requests, now_ms) && !reads_only(method) && quota.in_flight
                < quota.maximum_in_flight ==> after.journal == rate_after(quota.journal, now_ms)
            &&& reads_only(method) || quota.in_flight >= quota.maximum_in_flight || !rate_accepts(
                quota.requests,
                now_ms,
            ) ==> after.journal == quota.journal
        }),
{
}

/// Admitting a request and releasing it again leaves as many mutations in flight as before, and
/// releasing changes nothing else.
pub proof fn law_release_gives_the_slot_back(quota: QuotaView, method: Seq<char>, now_ms: u64)
    requires
        quota_check(quota, method, now_ms) is Ok,
    ensures
        ({
            let after = quota_after(quota, method, now_ms);
            let released = quota_released(after, !reads_only(method));
            &&& released.in_flight == quota.in_flight
            &&& released.maximum_in_flight == after.maximum_in_flight
            &&& released.requests == after.requests
            &&& released.journal == after.journal
            &&& quota_released(quota, false) == quota
        }),
        quota_released(quota, true).in_flight == (if quota.in_flight == 0 {
            0int
        } else {
            quota.in_flight - 1
        }),
{
}

/// Quotas are made of five numbers of which none is zero, and then admit the first request of
/// every method at once.
pub proof fn law_new_quotas_admit_at_once(
    mutations: usize,
    requests: usize,
    request_window_ms: u64,
    admissions: usize,
    journal_window_ms: u64,
    method: Seq<char>,
    now_ms: u64,
)
    ensures
        ({
            let made = quota_of(mutations, requests, request_window_ms, admissions, journal_window_ms);
            &&& made is Some <==> mutations > 0 && requests > 0 && request_window_ms > 0
                && admissions > 0 && journal_window_ms > 0
            &&& made matches Some(quota) ==> {
                &&& quota.maximum_in_flight == mutations
                &&& quota.in_flight == 0
                &&& quota.requests.maximum == requests
                &&& quota.requests.window_ms == request_window_ms
                &&& quota.requests.accepted.len() == 0
                &&& quota.journal.maximum == admissions
                &&& quota.journal.window_ms == journal_window_ms
                &&& quota.journal.accepted.len() == 0
                &&& quota_check(quota, method, now_ms) is Ok
            }
        }),
{
}

} // verus!
