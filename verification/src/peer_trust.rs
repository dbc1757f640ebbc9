//! The keys and key transitions that packaging pins for a recipient's peers.

use vstd::prelude::*;

use crate::audit::{JournalHeadView, SignedJournalHead};
use crate::bytes::array64;
use crate::chain::same_head;
use crate::checkpoint::{
    malformed_checkpoint, ApplicationKeyHandover, CheckpointError, CheckpointErrorView,
    HandoverView, PinView, PinnedAuditKey, TrustView, VerifyingKey,
};
use crate::ids::Token;

verus! {

/// One live application key per peer, verification-only history and handover tuples, with the
/// heads whose signatures were verified under these keys: a signature is computed once.
pub struct PeerTrust {
    current: Vec<PinnedAuditKey>,
    historical: Vec<PinnedAuditKey>,
    handovers: Vec<ApplicationKeyHandover>,
    verified: Vec<SignedJournalHead>,
}

impl View for PeerTrust {
    type V = TrustView;

    closed spec fn view(&self) -> TrustView {
        TrustView {
            current: crate::checkpoint::views(self.current@),
            historical: crate::checkpoint::views(self.historical@),
            handovers: crate::checkpoint::views(self.handovers@),
        }
    }
}

/// Finds the live key ID of a service.
fn find_live<'a>(current: &'a Vec<PinnedAuditKey>, count: usize, service: &Token) -> (r: Option<
    &'a Token,
>)
    requires
        count <= current@.len(),
    ensures
        match r {
            Some(key_id) => crate::checkpoint::live_key(
                crate::checkpoint::views(current@).take(count as int),
                service@,
            ) == Some(key_id@),
            None => crate::checkpoint::live_key(
                crate::checkpoint::views(current@).take(count as int),
                service@,
            ) is None,
        },
{
    let ghost pins = crate::checkpoint::views(current@);
    let mut i: usize = count;
    while i > 0
        invariant
            i <= count <= current@.len(),
            pins == crate::checkpoint::views(current@),
            crate::checkpoint::live_key(pins.take(count as int), service@)
                == crate::checkpoint::live_key(pins.take(i as int), service@),
        decreases i,
    {
        let pin = &current[i - 1];
        proof {
            assert(pins.take(i as int).last() == pin@);
            assert(pins.take(i as int).drop_last() =~= pins.take(i - 1));
        }
        if pin.service_id.same_as(service) {
            return Some(&pin.key_id);
        }
        i = i - 1;
    }
    None
}

/// Finds the pinned key of a service with a key ID among the first `count` pins.
fn find_pin<'a>(
    pins: &'a Vec<PinnedAuditKey>,
    count: usize,
    service: &Token,
    key_id: &Token,
) -> (r: Option<&'a VerifyingKey>)
    requires
        count <= pins@.len(),
    ensures
        match r {
            Some(key) => crate::checkpoint::pinned_key(
                crate::checkpoint::views(pins@).take(count as int),
                service@,
                key_id@,
            ) == Some(key@),
            None => crate::checkpoint::pinned_key(
                crate::checkpoint::views(pins@).take(count as int),
                service@,
                key_id@,
            ) is None,
        },
{
    let ghost all = crate::checkpoint::views(pins@);
    let mut i: usize = count;
    while i > 0
        invariant
            i <= count <= pins@.len(),
            all == crate::checkpoint::views(pins@),
            crate::checkpoint::pinned_key(all.take(count as int), service@, key_id@)
                == crate::checkpoint::pinned_key(all.take(i as int), service@, key_id@),
        decreases i,
    {
        let pin = &pins[i - 1];
        proof {
            assert(all.take(i as int).last() == pin@);
            assert(all.take(i as int).drop_last() =~= all.take(i - 1));
        }
        if pin.service_id.same_as(service) && pin.key_id.same_as(key_id) {
            return Some(&pin.verifying_key);
        }
        i = i - 1;
    }
    None
}

/// A pin of two lists is one of the second list or, failing that, of the first.
proof fn lemma_pinned_in_both(
    first: Seq<PinView>,
    second: Seq<PinView>,
    service: Seq<char>,
    key_id: Seq<char>,
)
    ensures
        crate::checkpoint::pinned_key(first + second, service, key_id) == (
        match crate::checkpoint::pinned_key(second, service, key_id) {
            Some(key) => Some(key),
            None => crate::checkpoint::pinned_key(first, service, key_id),
        }),
    decreases second.len(),
{
    if second.len() == 0 {
        assert(first + second =~= first);
    } else {
        assert((first + second).last() == second.last());
        assert((first + second).drop_last() =~= first + second.drop_last());
        lemma_pinned_in_both(first, second.drop_last(), service, key_id);
    }
}

/// Finds the handover into a key of a service among the first `count`.
fn find_handover<'a>(
    handovers: &'a Vec<ApplicationKeyHandover>,
    count: usize,
    service: &Token,
    key_id: &Token,
) -> (r: Option<&'a ApplicationKeyHandover>)
    requires
        count <= handovers@.len(),
    ensures
        match r {
            Some(handover) => crate::checkpoint::handover_into(
                crate::checkpoint::views(handovers@).take(count as int),
                service@,
                key_id@,
            ) == Some(handover@),
            None => crate::checkpoint::handover_into(
                crate::checkpoint::views(handovers@).take(count as int),
                service@,
                key_id@,
            ) is None,
        },
{
    let ghost all = crate::checkpoint::views(handovers@);
    let mut i: usize = count;
    while i > 0
        invariant
            i <= count <= handovers@.len(),
            all == crate::checkpoint::views(handovers@),
            crate::checkpoint::handover_into(all.take(count as int), service@, key_id@)
                == crate::checkpoint::handover_into(all.take(i as int), service@, key_id@),
        decreases i,
    {
        let handover = &handovers[i - 1];
        proof {
            assert(all.take(i as int).last() == handover@);
            assert(all.take(i as int).drop_last() =~= all.take(i - 1));
        }
        if handover.service_id.same_as(service) && handover.new_key_id.same_as(key_id) {
            return Some(handover);
        }
        i = i - 1;
    }
    None
}

/// An error among the first live keys is the error of all of them.
proof fn lemma_current_error(current: Seq<PinView>, n: int)
    requires
        0 <= n <= current.len(),
        crate::checkpoint::current_check(current.take(n)) is Err,
    ensures
        crate::checkpoint::current_check(current) == crate::checkpoint::current_check(
            current.take(n),
        ),
    decreases current.len(),
{
    if n < current.len() {
        assert(current.drop_last().take(n) =~= current.take(n));
        lemma_current_error(current.drop_last(), n);
    } else {
        assert(current.take(n) =~= current);
    }
}

/// An error among the first historical keys is the error of all of them.
proof fn lemma_historical_error(current: Seq<PinView>, historical: Seq<PinView>, n: int)
    requires
        0 <= n <= historical.len(),
        crate::checkpoint::historical_check(current, historical.take(n)) is Err,
    ensures
        crate::checkpoint::historical_check(current, historical)
            == crate::checkpoint::historical_check(current, historical.take(n)),
    decreases historical.len(),
{
    if n < historical.len() {
        assert(historical.drop_last().take(n) =~= historical.take(n));
        lemma_historical_error(current, historical.drop_last(), n);
    } else {
        assert(historical.take(n) =~= historical);
    }
}

/// An error among the first handovers is the error of all of them.
proof fn lemma_handovers_error(
    current: Seq<PinView>,
    historical: Seq<PinView>,
    handovers: Seq<HandoverView>,
    n: int,
)
    requires
        0 <= n <= handovers.len(),
        crate::checkpoint::handovers_check(current, historical, handovers.take(n)) is Err,
    ensures
        crate::checkpoint::handovers_check(current, historical, handovers)
            == crate::checkpoint::handovers_check(current, historical, handovers.take(n)),
    decreases handovers.len(),
{
    if n < handovers.len() {
        assert(handovers.drop_last().take(n) =~= handovers.take(n));
        lemma_handovers_error(current, historical, handovers.drop_last(), n);
    } else {
        assert(handovers.take(n) =~= handovers);
    }
}

/// Checks that each service has one live key.
fn check_current(current: &Vec<PinnedAuditKey>) -> (r: Result<(), CheckpointError>)
    ensures
        crate::checkpoint::checked(r) == crate::checkpoint::current_check(
            crate::checkpoint::views(current@),
        ),
{
    let ghost pins = crate::checkpoint::views(current@);
    let mut i: usize = 0;
    assert(pins.take(0) =~= Seq::<PinView>::empty());
    while i < current.len()
        invariant
            i <= current@.len(),
            pins == crate::checkpoint::views(current@),
            crate::checkpoint::current_check(pins.take(i as int)) == Ok::<(), CheckpointErrorView>(
                (),
            ),
        decreases current@.len() - i,
    {
        proof {
            assert(pins.take(i + 1).last() == current@[i as int]@);
            assert(pins.take(i + 1).drop_last() =~= pins.take(i as int));
        }
        if find_live(current, i, &current[i].service_id).is_some() {
            proof {
                lemma_current_error(pins, i + 1);
            }
            return Err(malformed_checkpoint("duplicate current peer application service"));
        }
        i = i + 1;
    }
    assert(pins.take(i as int) =~= pins);
    Ok(())
}

/// Checks that each historical key belongs to a pinned service and is new to it.
fn check_historical(
    current: &Vec<PinnedAuditKey>,
    historical: &Vec<PinnedAuditKey>,
) -> (r: Result<(), CheckpointError>)
    ensures
        crate::checkpoint::checked(r) == crate::checkpoint::historical_check(
            crate::checkpoint::views(current@),
            crate::checkpoint::views(historical@),
        ),
{
    let ghost live = crate::checkpoint::views(current@);
    let ghost pins = crate::checkpoint::views(historical@);
    let mut i: usize = 0;
    assert(pins.take(0) =~= Seq::<PinView>::empty());
    while i < historical.len()
        invariant
            i <= historical@.len(),
            live == crate::checkpoint::views(current@),
            pins == crate::checkpoint::views(historical@),
            crate::checkpoint::historical_check(live, pins.take(i as int)) == Ok::<
                (),
                CheckpointErrorView,
            >(()),
        decreases historical@.len() - i,
    {
        let pin = &historical[i];
        proof {
            assert(pins.take(i + 1).last() == pin@);
            assert(pins.take(i + 1).drop_last() =~= pins.take(i as int));
            assert(live.take(live.len() as int) =~= live);
            lemma_pinned_in_both(live, pins.take(i as int), pin.service_id@, pin.key_id@);
        }
        if find_live(current, current.len(), &pin.service_id).is_none() {
            proof {
                lemma_historical_error(live, pins, i + 1);
            }
            return Err(
                malformed_checkpoint("historical application key has no current peer service"),
            );
        }
        if find_pin(current, current.len(), &pin.service_id, &pin.key_id).is_some() || find_pin(
            historical,
            i,
            &pin.service_id,
            &pin.key_id,
        ).is_some() {
            proof {
                lemma_historical_error(live, pins, i + 1);
            }
            return Err(
                malformed_checkpoint("duplicate current or historical peer application key"),
            );
        }
        i = i + 1;
    }
    assert(pins.take(i as int) =~= pins);
    Ok(())
}

/// Checks that each handover joins two different pinned keys of a service, one into each key.
fn check_handovers(
    current: &Vec<PinnedAuditKey>,
    historical: &Vec<PinnedAuditKey>,
    handovers: &Vec<ApplicationKeyHandover>,
) -> (r: Result<(), CheckpointError>)
    ensures
        crate::checkpoint::checked(r) == crate::checkpoint::handovers_check(
            crate::checkpoint::views(current@),
            crate::checkpoint::views(historical@),
            crate::checkpoint::views(handovers@),
        ),
{
    let ghost live = crate::checkpoint::views(current@);
    let ghost pins = crate::checkpoint::views(historical@);
    let ghost all = crate::checkpoint::views(handovers@);
    let mut i: usize = 0;
    assert(all.take(0) =~= Seq::<HandoverView>::empty());
    while i < handovers.len()
        invariant
            i <= handovers@.len(),
            live == crate::checkpoint::views(current@),
            pins == crate::checkpoint::views(historical@),
            all == crate::checkpoint::views(handovers@),
            crate::checkpoint::handovers_check(live, pins, all.take(i as int)) == Ok::<
                (),
                CheckpointErrorView,
            >(()),
        decreases handovers@.len() - i,
    {
        let handover = &handovers[i];
        proof {
            assert(all.take(i + 1).last() == handover@);
            assert(all.take(i + 1).drop_last() =~= all.take(i as int));
            assert(live.take(live.len() as int) =~= live);
            assert(pins.take(pins.len() as int) =~= pins);
            lemma_pinned_in_both(live, pins, handover.service_id@, handover.old_key_id@);
            lemma_pinned_in_both(live, pins, handover.service_id@, handover.new_key_id@);
        }
        if find_live(current, current.len(), &handover.service_id).is_none() {
            proof {
                lemma_handovers_error(live, pins, all, i + 1);
            }
            return Err(malformed_checkpoint("handover has no pinned peer service"));
        }
        let old_known = find_pin(
            current,
            current.len(),
            &handover.service_id,
            &handover.old_key_id,
        ).is_some() || find_pin(
            historical,
            historical.len(),
            &handover.service_id,
            &handover.old_key_id,
        ).is_some();
        let new_known = find_pin(
            current,
            current.len(),
            &handover.service_id,
            &handover.new_key_id,
        ).is_some() || find_pin(
            historical,
            historical.len(),
            &handover.service_id,
            &handover.new_key_id,
        ).is_some();
        if handover.old_key_id.same_as(&handover.new_key_id) || !old_known || !new_known {
            proof {
                lemma_handovers_error(live, pins, all, i + 1);
            }
            return Err(
                malformed_checkpoint(
                    "handover keys are equal or are not present in packaging key history",
                ),
            );
        }
        if find_handover(handovers, i, &handover.service_id, &handover.new_key_id).is_some() {
            proof {
                lemma_handovers_error(live, pins, all, i + 1);
            }
            return Err(malformed_checkpoint("duplicate application-key handover"));
        }
        i = i + 1;
    }
    assert(all.take(i as int) =~= all);
    Ok(())
}

/// Whether a head is signed by a pinned key of its service, live or historical.
pub open spec fn retained_check(trust: TrustView, head: JournalHeadView) -> Result<
    (),
    CheckpointErrorView,
> {
    match trust.key(head.service_id, head.key_id) {
        None => Err(CheckpointErrorView::UnpinnedPeer),
        Some(key) => if head.signature.len() != 64 || !crate::crypto::ed25519_verifies(
            key,
            crate::audit::head_message(head),
            head.signature,
        ) {
            Err(CheckpointErrorView::InvalidSignature)
        } else {
            Ok(())
        },
    }
}

/// Whether a head is signed by the live key of its service.
pub open spec fn live_check(trust: TrustView, head: JournalHeadView) -> Result<
    (),
    CheckpointErrorView,
> {
    match crate::checkpoint::live_key(trust.current, head.service_id) {
        None => Err(CheckpointErrorView::UnpinnedPeer),
        Some(key_id) => if key_id != head.key_id {
            Err(CheckpointErrorView::InvalidSignature)
        } else {
            retained_check(trust, head)
        },
    }
}

/// Packaging authorizes the step from the old head's key to the new head's, at the old head.
pub open spec fn authorized_handover(
    trust: TrustView,
    old_head: JournalHeadView,
    new_head: JournalHeadView,
) -> bool {
    &&& old_head.service_id == new_head.service_id
    &&& old_head.sequence == new_head.sequence
    &&& crate::checkpoint::handover_into(
        trust.handovers,
        new_head.service_id,
        new_head.key_id,
    ) matches Some(handover) && handover.old_key_id == old_head.key_id && handover.sequence
        == old_head.sequence && handover.head_hash == old_head.head_hash
}

/// An authorized handover that keeps the journal head itself.
pub open spec fn same_head_handover(
    trust: TrustView,
    old_head: JournalHeadView,
    new_head: JournalHeadView,
) -> bool {
    old_head.head_hash == new_head.head_hash && authorized_handover(trust, old_head, new_head)
}

/// Only a live key can sign a head that is accepted as new: a historical key never can.
pub proof fn law_historical_keys_only_verify(trust: TrustView, head: JournalHeadView)
    requires
        live_check(trust, head) is Ok,
    ensures
        crate::checkpoint::live_key(trust.current, head.service_id) == Some(head.key_id),
        retained_check(trust, head) is Ok,
{
}

impl PeerTrust {
    /// Every head that counts as verified is signed by a pinned key of its service.
    #[verifier::type_invariant]
    spec fn verified_heads_are_signed(&self) -> bool {
        forall|i: int|
            0 <= i < self.verified@.len() ==> retained_check(
                self@,
                (#[trigger] self.verified@[i])@,
            ) is Ok
    }

    /// Whether a head was verified before.
    fn is_verified(&self, head: &SignedJournalHead) -> (r: bool)
        ensures
            r ==> retained_check(self@, head@) is Ok,
    {
        proof {
            use_type_invariant(self);
        }
        let mut i: usize = self.verified.len();
        while i > 0
            invariant
                i <= self.verified@.len(),
                self.verified_heads_are_signed(),
            decreases i,
        {
            i = i - 1;
            if same_head(&self.verified[i], head) {
                assert(retained_check(self@, self.verified@[i as int]@) is Ok);
                return true;
            }
        }
        false
    }

    /// Accepts a head that is signed by a pinned key of its service, live or historical, and
    /// keeps it as verified.
    pub fn verify_once(&mut self, head: &SignedJournalHead) -> (r: Result<(), CheckpointError>)
        ensures
            final(self)@ == old(self)@,
            crate::checkpoint::checked(r) == retained_check(old(self)@, head@),
    {
        proof {
            use_type_invariant(&*self);
        }
        if self.is_verified(head) {
            return Ok(());
        }
        if let Err(error) = self.verify_retained_head(head) {
            return Err(error);
        }
        let mut verified: Vec<SignedJournalHead> = Vec::new();
        std::mem::swap(&mut verified, &mut self.verified);
        verified.push(head.clone());
        self.verified = verified;
        Ok(())
    }

    /// Accepts keys and transitions that are consistent.
    pub fn new(
        current: Vec<PinnedAuditKey>,
        historical: Vec<PinnedAuditKey>,
        handovers: Vec<ApplicationKeyHandover>,
    ) -> (r: Result<Self, CheckpointError>)
        ensures
            ({
                let trust = TrustView {
                    current: crate::checkpoint::views(current@),
                    historical: crate::checkpoint::views(historical@),
                    handovers: crate::checkpoint::views(handovers@),
                };
                match r {
                    Ok(accepted) => accepted@ == trust && crate::checkpoint::trust_check(
                        trust,
                    ) is Ok,
                    Err(e) => crate::checkpoint::trust_check(trust) == Err::<
                        (),
                        CheckpointErrorView,
                    >(e@),
                }
            }),
    {
        if let Err(error) = check_current(&current) {
            return Err(error);
        }
        if let Err(error) = check_historical(&current, &historical) {
            return Err(error);
        }
        if let Err(error) = check_handovers(&current, &historical, &handovers) {
            return Err(error);
        }
        Ok(PeerTrust { current, historical, handovers, verified: Vec::new() })
    }

    /// Accepts a head that is signed by the live key of its service.
    pub fn verify_live_head(&self, head: &SignedJournalHead) -> (r: Result<(), CheckpointError>)
        ensures
            crate::checkpoint::checked(r) == live_check(self@, head@),
    {
        proof {
            let current = self@.current;
            assert(current.take(current.len() as int) =~= current);
        }
        match find_live(&self.current, self.current.len(), &head.service_id) {
            None => Err(CheckpointError::UnpinnedPeer),
            Some(key_id) => if !key_id.same_as(&head.key_id) {
                Err(CheckpointError::InvalidSignature)
            } else {
                self.verify_retained_head(head)
            },
        }
    }

    /// Accepts a head that is signed by a pinned key of its service, live or historical.
    pub fn verify_retained_head(&self, head: &SignedJournalHead) -> (r: Result<
        (),
        CheckpointError,
    >)
        ensures
            crate::checkpoint::checked(r) == retained_check(self@, head@),
    {
        proof {
            let current = self@.current;
            let historical = self@.historical;
            assert(current.take(current.len() as int) =~= current);
            assert(historical.take(historical.len() as int) =~= historical);
            lemma_pinned_in_both(current, historical, head.service_id@, head.key_id@);
        }
        if self.is_verified(head) {
            return Ok(());
        }
        let key = match find_pin(
            &self.historical,
            self.historical.len(),
            &head.service_id,
            &head.key_id,
        ) {
            Some(key) => key,
            None => match find_pin(
                &self.current,
                self.current.len(),
                &head.service_id,
                &head.key_id,
            ) {
                Some(key) => key,
                None => {
                    return Err(CheckpointError::UnpinnedPeer);
                },
            },
        };
        match array64(head.signature.decode().as_slice()) {
            None => Err(CheckpointError::InvalidSignature),
            Some(signature) => if !key.verify(head.signature_message().as_slice(), &signature) {
                Err(CheckpointError::InvalidSignature)
            } else {
                Ok(())
            },
        }
    }

    /// The handover into a key of a service.
    pub fn handover_into(&self, service: &Token, key_id: &Token) -> (r: Option<
        &ApplicationKeyHandover,
    >)
        ensures
            match r {
                Some(handover) => crate::checkpoint::handover_into(
                    self@.handovers,
                    service@,
                    key_id@,
                ) == Some(handover@),
                None => crate::checkpoint::handover_into(
                    self@.handovers,
                    service@,
                    key_id@,
                ) is None,
            },
    {
        proof {
            let handovers = self@.handovers;
            assert(handovers.take(handovers.len() as int) =~= handovers);
        }
        find_handover(&self.handovers, self.handovers.len(), service, key_id)
    }

    /// How many handovers packaging authorizes.
    pub fn handover_count(&self) -> (r: usize)
        ensures
            r == self@.handovers.len(),
    {
        self.handovers.len()
    }

    pub fn valid_handover(
        &self,
        old_head: &SignedJournalHead,
        new_head: &SignedJournalHead,
    ) -> (r: bool)
        ensures
            r == authorized_handover(self@, old_head@, new_head@),
    {
        if !old_head.service_id.same_as(&new_head.service_id) || old_head.sequence.get()
            != new_head.sequence.get() {
            return false;
        }
        match self.handover_into(&new_head.service_id, &new_head.key_id) {
            None => false,
            Some(handover) => handover.old_key_id.same_as(&old_head.key_id)
                && handover.sequence.get() == old_head.sequence.get()
                && handover.head_hash.same_as(&old_head.head_hash),
        }
    }

    pub fn valid_equal_sequence_handover(
        &self,
        old_head: &SignedJournalHead,
        new_head: &SignedJournalHead,
    ) -> (r: bool)
        ensures
            r == same_head_handover(self@, old_head@, new_head@),
    {
        old_head.head_hash.same_as(&new_head.head_hash) && self.valid_handover(old_head, new_head)
    }
}

} // verus!
