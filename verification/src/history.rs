//! The packaging-owned history of application keys on the authority edges.

use vstd::prelude::*;
use vstd::string::*;

use crate::bytes::array32;
use crate::checkpoint::{
    malformed_checkpoint, malformed_entry, ApplicationKeyHandover, CheckpointError,
    CheckpointErrorView, HandoverView, PinView, PinnedAuditKey, VerifyingKey,
};
use crate::files::{FileFacts, FileKind};
use crate::hex_text::hex_decode;
use crate::ids::Token;
use crate::text::same_text;

verus! {

pub const HISTORY_SCHEMA: &'static str = "bloom.authority-edge-application-history.1";

#[derive(Debug)]
pub struct AuthorityEdgeHistoricalKey {
    pub service_id: String,
    pub key_id: String,
    pub public_key_hex: String,
}

/// What an [`AuthorityEdgeHistoricalKey`] says.
pub struct HistoricalKeyView {
    pub service: Seq<char>,
    pub key_id: Seq<char>,
    pub public_key_hex: Seq<char>,
}

impl View for AuthorityEdgeHistoricalKey {
    type V = HistoricalKeyView;

    open spec fn view(&self) -> HistoricalKeyView {
        HistoricalKeyView {
            service: self.service_id@,
            key_id: self.key_id@,
            public_key_hex: self.public_key_hex@,
        }
    }
}

impl Clone for AuthorityEdgeHistoricalKey {
    fn clone(&self) -> (r: Self)
        ensures
            r@ == self@,
    {
        AuthorityEdgeHistoricalKey {
            service_id: self.service_id.clone(),
            key_id: self.key_id.clone(),
            public_key_hex: self.public_key_hex.clone(),
        }
    }
}

#[derive(Debug)]
pub struct AuthorityEdgeHistory {
    historical_keys: Vec<AuthorityEdgeHistoricalKey>,
    handovers: Vec<ApplicationKeyHandover>,
}

/// What an [`AuthorityEdgeHistory`] says.
pub struct HistoryView {
    pub keys: Seq<HistoricalKeyView>,
    pub handovers: Seq<HandoverView>,
}

impl View for AuthorityEdgeHistory {
    type V = HistoryView;

    closed spec fn view(&self) -> HistoryView {
        HistoryView {
            keys: crate::checkpoint::views(self.historical_keys@),
            handovers: crate::checkpoint::views(self.handovers@),
        }
    }
}

/// The service is one of those asked for.
pub open spec fn wanted(services: Seq<&Token>, service: Seq<char>) -> bool {
    exists|i: int| 0 <= i < services.len() && (#[trigger] services[i])@ == service
}

/// The pin of a historical key, or why it has none.
pub open spec fn pin_of(key: HistoricalKeyView) -> Result<PinView, CheckpointErrorView> {
    let token_error = malformed_entry(
        crate::error::shown(
            crate::codec::malformed_error(
                "token must be a 1-64 byte lowercase ASCII protocol identifier"@,
            ),
        ),
    );
    if !crate::hex_text::is_hex_text(key.public_key_hex) {
        Err(malformed_entry("history key is not hex"@))
    } else if key.public_key_hex.len() != 64 {
        Err(malformed_entry("history key must be 32 bytes"@))
    } else if !crate::ids::is_token_text(key.service) || !crate::ids::is_token_text(key.key_id) {
        Err(token_error)
    } else if !crate::crypto::ed25519_key_accepted(
        crate::hex_text::hex_bytes(key.public_key_hex),
    ) {
        Err(malformed_entry("invalid history key"@))
    } else {
        Ok(
            PinView {
                service: key.service,
                key_id: key.key_id,
                key: crate::hex_text::hex_bytes(key.public_key_hex),
            },
        )
    }
}

/// The pins of the wanted services, in order, or the first key that has none.
pub open spec fn pins_for(keys: Seq<HistoricalKeyView>, services: Seq<&Token>) -> Result<
    Seq<PinView>,
    CheckpointErrorView,
>
    decreases keys.len(),
{
    if keys.len() == 0 {
        Ok(Seq::empty())
    } else {
        match pins_for(keys.drop_last(), services) {
            Err(e) => Err(e),
            Ok(pins) => if !wanted(services, keys.last().service) {
                Ok(pins)
            } else {
                match pin_of(keys.last()) {
                    Err(e) => Err(e),
                    Ok(pin) => Ok(pins.push(pin)),
                }
            },
        }
    }
}

/// The handovers of the wanted services, in order.
pub open spec fn handovers_of(handovers: Seq<HandoverView>, services: Seq<&Token>) -> Seq<
    HandoverView,
>
    decreases handovers.len(),
{
    if handovers.len() == 0 {
        handovers
    } else {
        let before = handovers_of(handovers.drop_last(), services);
        if wanted(services, handovers.last().service) {
            before.push(handovers.last())
        } else {
            before
        }
    }
}

/// An error among the first keys is the error of all of them.
proof fn lemma_pins_error(keys: Seq<HistoricalKeyView>, services: Seq<&Token>, n: int)
    requires
        0 <= n <= keys.len(),
        pins_for(keys.take(n), services) is Err,
    ensures
        pins_for(keys, services) == pins_for(keys.take(n), services),
    decreases keys.len(),
{
    if n < keys.len() {
        assert(keys.drop_last().take(n) =~= keys.take(n));
        lemma_pins_error(keys.drop_last(), services, n);
    } else {
        assert(keys.take(n) =~= keys);
    }
}

/// Whether a service is one of those asked for.
fn is_wanted(services: &[&Token], service: &str) -> (r: bool)
    ensures
        r == wanted(services@, service@),
{
    let mut i: usize = 0;
    while i < services.len()
        invariant
            i <= services@.len(),
            forall|k: int| 0 <= k < i ==> (#[trigger] services@[k])@ != service@,
        decreases services@.len() - i,
    {
        if same_text(services[i].as_str(), service) {
            return true;
        }
        i = i + 1;
    }
    false
}

/// The pin of a historical key.
fn pin_key(entry: &AuthorityEdgeHistoricalKey) -> (r: Result<PinnedAuditKey, CheckpointError>)
    ensures
        match r {
            Ok(pin) => pin_of(entry@) == Ok::<PinView, CheckpointErrorView>(pin@),
            Err(e) => pin_of(entry@) == Err::<PinView, CheckpointErrorView>(e@),
        },
{
    let decoded = match hex_decode(entry.public_key_hex.as_str()) {
        Some(decoded) => decoded,
        None => {
            return Err(malformed_checkpoint("history key is not hex"));
        },
    };
    let bytes = match array32(decoded.as_slice()) {
        Some(bytes) => bytes,
        None => {
            return Err(malformed_checkpoint("history key must be 32 bytes"));
        },
    };
    let service_id = match Token::new(entry.service_id.as_str()) {
        Ok(service_id) => service_id,
        Err(error) => {
            return Err(malformed_checkpoint(error.text().as_str()));
        },
    };
    let key_id = match Token::new(entry.key_id.as_str()) {
        Ok(key_id) => key_id,
        Err(error) => {
            return Err(malformed_checkpoint(error.text().as_str()));
        },
    };
    match VerifyingKey::from_bytes(&bytes) {
        Some(verifying_key) => Ok(PinnedAuditKey { service_id, key_id, verifying_key }),
        None => Err(malformed_checkpoint("invalid history key")),
    }
}

/// Whether a file may hold the history: a singly linked regular file of the expected owner that
/// neither group nor other can write.
pub open spec fn history_file_ok(facts: FileFacts, expected_uid: u32) -> bool {
    &&& facts.kind == FileKind::Regular
    &&& facts.uid == expected_uid
    &&& facts.links == 1
    &&& facts.mode & 0o022 == 0
}

/// The one known schema of a history document.
pub open spec fn history_schema_ok(schema: Seq<char>) -> bool {
    schema == HISTORY_SCHEMA@
}

impl AuthorityEdgeHistory {
    pub fn empty() -> (r: Self)
        ensures
            r@ == (HistoryView { keys: Seq::empty(), handovers: Seq::empty() }),
    {
        let r = AuthorityEdgeHistory { historical_keys: Vec::new(), handovers: Vec::new() };
        assert(r@.keys =~= Seq::empty());
        assert(r@.handovers =~= Seq::empty());
        r
    }

    /// Accepts the metadata of a file that may hold the history, before it is read.
    pub fn check_file(facts: &FileFacts, expected_uid: u32) -> (r: Result<(), CheckpointError>)
        ensures
            crate::checkpoint::checked(r) == (if history_file_ok(*facts, expected_uid) {
                Ok::<(), CheckpointErrorView>(())
            } else {
                Err(
                    malformed_entry(
                        "authority-edge history has unsafe ownership, type, links, or mode"@,
                    ),
                )
            }),
    {
        if facts.kind != FileKind::Regular || facts.uid != expected_uid || facts.links != 1
            || facts.mode & 0o022 != 0 {
            return Err(
                malformed_checkpoint(
                    "authority-edge history has unsafe ownership, type, links, or mode",
                ),
            );
        }
        Ok(())
    }

    /// Accepts a parsed document of the one known schema. A document that did not parse is
    /// handed in as the parser's text.
    pub fn from_document(
        document: Result<
            (String, Vec<AuthorityEdgeHistoricalKey>, Vec<ApplicationKeyHandover>),
            String,
        >,
    ) -> (r: Result<Self, CheckpointError>)
        ensures
            match document {
                Err(text) => r matches Err(e) && e@ == malformed_entry(text@),
                Ok(parts) => if parts.0@ == HISTORY_SCHEMA@ {
                    r matches Ok(history) && history@ == (HistoryView {
                        keys: crate::checkpoint::views(parts.1@),
                        handovers: crate::checkpoint::views(parts.2@),
                    })
                } else {
                    r matches Err(e) && e@ == malformed_entry(
                        "unsupported authority-edge application history schema"@,
                    )
                },
            },
            r is Ok == (document matches Ok(parts) && history_schema_ok(parts.0@)),
    {
        match document {
            Err(text) => Err(malformed_checkpoint(text.as_str())),
            Ok((schema, historical_keys, handovers)) => {
                if !same_text(schema.as_str(), HISTORY_SCHEMA) {
                    return Err(
                        malformed_checkpoint(
                            "unsupported authority-edge application history schema",
                        ),
                    );
                }
                Ok(AuthorityEdgeHistory { historical_keys, handovers })
            },
        }
    }

    pub fn historical_pins_for(&self, services: &[&Token]) -> (r: Result<
        Vec<PinnedAuditKey>,
        CheckpointError,
    >)
        ensures
            match r {
                Ok(pins) => pins_for(self@.keys, services@) == Ok::<
                    Seq<PinView>,
                    CheckpointErrorView,
                >(crate::checkpoint::views(pins@)),
                Err(e) => pins_for(self@.keys, services@) == Err::<
                    Seq<PinView>,
                    CheckpointErrorView,
                >(e@),
            },
    {
        let ghost keys = self@.keys;
        let mut pins: Vec<PinnedAuditKey> = Vec::new();
        let mut i: usize = 0;
        assert(keys.take(0) =~= Seq::<HistoricalKeyView>::empty());
        assert(crate::checkpoint::views(pins@) =~= Seq::<PinView>::empty());
        while i < self.historical_keys.len()
            invariant
                keys == self@.keys,
                keys == crate::checkpoint::views(self.historical_keys@),
                i <= self.historical_keys@.len(),
                pins_for(keys.take(i as int), services@) == Ok::<
                    Seq<PinView>,
                    CheckpointErrorView,
                >(crate::checkpoint::views(pins@)),
            decreases self.historical_keys@.len() - i,
        {
            let entry = &self.historical_keys[i];
            proof {
                assert(keys.take(i + 1).drop_last() =~= keys.take(i as int));
                assert(keys.take(i + 1).last() == entry@);
            }
            if is_wanted(services, entry.service_id.as_str()) {
                match pin_key(entry) {
                    Err(error) => {
                        proof {
                            lemma_pins_error(keys, services@, i + 1);
                        }
                        return Err(error);
                    },
                    Ok(pin) => {
                        let ghost before = pins@;
                        pins.push(pin);
                        assert(crate::checkpoint::views(pins@) =~= crate::checkpoint::views(
                            before,
                        ).push(pin@));
                    },
                }
            }
            i = i + 1;
        }
        assert(keys.take(i as int) =~= keys);
        Ok(pins)
    }

    pub fn handovers_for(&self, services: &[&Token]) -> (r: Vec<ApplicationKeyHandover>)
        ensures
            crate::checkpoint::views(r@) == handovers_of(self@.handovers, services@),
    {
        let ghost all = self@.handovers;
        let mut out: Vec<ApplicationKeyHandover> = Vec::new();
        let mut i: usize = 0;
        assert(all.take(0) =~= Seq::<HandoverView>::empty());
        assert(crate::checkpoint::views(out@) =~= Seq::<HandoverView>::empty());
        while i < self.handovers.len()
            invariant
                all == self@.handovers,
                all == crate::checkpoint::views(self.handovers@),
                i <= self.handovers@.len(),
                crate::checkpoint::views(out@) == handovers_of(all.take(i as int), services@),
            decreases self.handovers@.len() - i,
        {
            let handover = &self.handovers[i];
            proof {
                assert(all.take(i + 1).drop_last() =~= all.take(i as int));
                assert(all.take(i + 1).last() == handover@);
            }
            if is_wanted(services, handover.service_id.as_str()) {
                let ghost before = out@;
                let copy = handover.clone();
                out.push(copy);
                assert(crate::checkpoint::views(out@) =~= crate::checkpoint::views(before).push(
                    copy@,
                ));
            }
            i = i + 1;
        }
        assert(all.take(i as int) =~= all);
        out
    }
}

} // verus!
