//! What callers may rely on: the outcomes of the library's operations, in terms of what they are
//! given.

use vstd::prelude::*;

use crate::activation::{ActivationError, ActivationErrorView};
use crate::checkpoint::{ApplicationKeyHandover, CheckpointError, CheckpointErrorView};
use crate::containment::{NetworkContainmentGuard, NetworkContainmentStatus};
use crate::decimal::canonical_decimal;
use crate::envelope::{AuthenticatedPeer, ProtocolVersion, SignedEnvelope};
use crate::error::{WireError, WireErrorCode, WireErrorView};
use crate::files::FileFacts;
use crate::hello::{ClientHandshake, HelloChallenge, ServerHandshake};
use crate::history::{AuthorityEdgeHistoricalKey, AuthorityEdgeHistory};
use crate::identity::{EdgeManifest, IdentityFile, LocalIdentity, PeerAcl};
use crate::ids::{BootEpoch, DecimalU256, DecimalU64, Digest32, OperationId, RequestNonce, Token};
use crate::json::{Json, JsonView};
use crate::observability::{LogFault, SecureLogFile};
use crate::quota::{EndpointQuota, SlidingAdmission};
use crate::trusted_time::{
    DurableClockDecision, DurableClockError, HostPlatform, PersistedClockState,
    PlatformTimeReading,
};
use crate::wire::WireValue;

verus! {

/// Checking a checkpoint directory succeeds exactly on a directory of the expected user with
/// mode `0700`, whatever else is known of it.
pub proof fn law_checked_root_is_private_to_its_user(
    root: &FileFacts,
    expected_uid: u32,
    r: Result<(), CheckpointError>,
)
    requires
        call_ensures(crate::checkpoint::validate_root, (root, expected_uid), r),
    ensures
        r is Ok <==> root.kind is Directory && root.uid == expected_uid && root.mode & 0o7777
            == 0o700,
        r matches Err(e) ==> e@ == (if !(root.kind is Directory) {
            CheckpointErrorView::InvalidRoot
        } else if root.uid != expected_uid {
            CheckpointErrorView::WrongOwner { expected_uid, actual_uid: root.uid }
        } else {
            CheckpointErrorView::InsecurePermissions
        }),
{
}

/// Asking whether an edge is an authority edge gives yes exactly between the broker and the
/// machine and between the broker and the signer, in either direction.
pub proof fn law_authority_edges_are_told_exactly(caller: &str, audience: &str, r: bool)
    requires
        call_ensures(crate::envelope::is_authority_edge, (caller, audience), r),
    ensures
        r <==> {
            ||| caller@ == "bloom-broker"@ && (audience@ == "bloom-machine"@ || audience@
                == "bloom-signer"@)
            ||| audience@ == "bloom-broker"@ && (caller@ == "bloom-machine"@ || caller@
                == "bloom-signer"@)
        },
{
}

/// A healthy evaluation is never behind the wall clock, never behind the persisted time with what
/// elapsed since, and is one of the two.
pub proof fn law_evaluated_time_is_the_later_clock(
    previous: Option<PersistedClockState>,
    reading: &PlatformTimeReading,
    current: Option<[u8; 16]>,
    max_forward_step_ms: u64,
    r: Result<DurableClockDecision, DurableClockError>,
)
    requires
        call_ensures(
            crate::trusted_time::evaluate_durable_clock,
            (previous, reading, current, max_forward_step_ms),
            r,
        ),
        r matches Ok(decision) && decision.condition is Healthy,
    ensures
        reading.utc_ms matches Some(utc) && r->Ok_0.effective_now_ms >= utc,
        previous matches Some(state) ==> r->Ok_0.effective_now_ms >= state.last_effective_ms,
        ({
            let decided = r->Ok_0.effective_now_ms;
            let state = previous->Some_0;
            let elapsed = crate::trusted_time::elapsed_ms(state, current, *reading);
            if previous is Some && state.last_effective_ms != 0 {
                decided >= state.last_effective_ms + elapsed && (decided
                    == reading.utc_ms->Some_0 || decided == state.last_effective_ms + elapsed)
            } else {
                decided == reading.utc_ms->Some_0
            }
        }),
{
    crate::clock_laws::law_healthy_time_is_the_later_clock(
        previous,
        *reading,
        current,
        max_forward_step_ms,
    );
    crate::clock_laws::law_clock_conditions_are_exact(
        previous,
        *reading,
        current,
        max_forward_step_ms,
    );
}

/// A tree is within the limits exactly if it nests no deeper than 32 levels and every text, key
/// and list in it is within its own limit.
pub proof fn law_checked_tree_is_within_its_limits(
    value: &Json,
    depth: usize,
    r: Result<(), WireError>,
)
    requires
        call_ensures(crate::codec::validate_json_shape, (value, depth), r),
    ensures
        r is Ok <==> forall|part: JsonView, levels: nat| #[trigger]
            crate::frame_laws::inside(value@, part, levels) ==> crate::frame_laws::fits(part)
                && depth + levels <= 32,
        r matches Err(e) ==> e@.code is LimitExceededFrame,
{
    crate::frame_laws::law_shape_is_accepted_from_any_level(value@, depth as nat);
}

/// An identity is bound to the manifest field of its own service, and to no other.
pub proof fn law_decoded_identity_is_bound_to_its_own_entry(
    file: IdentityFile,
    manifest: EdgeManifest,
    platform: HostPlatform,
    service: &str,
    r: Result<(LocalIdentity, EdgeManifest), WireError>,
)
    requires
        call_ensures(
            crate::identity::decode_identity_and_manifest,
            (file, manifest, platform, service),
            r,
        ),
    ensures
        service@ == "bloom-machine"@ ==> (r is Ok <==> crate::identity_laws::usable(
            manifest,
            platform,
        ) && crate::identity_laws::agrees(file@, manifest.machine@, service@)),
        service@ == "bloom-broker"@ ==> (r is Ok <==> crate::identity_laws::usable(
            manifest,
            platform,
        ) && crate::identity_laws::agrees(file@, manifest.broker@, service@)),
        service@ == "bloom-signer"@ ==> (r is Ok <==> crate::identity_laws::usable(
            manifest,
            platform,
        ) && crate::identity_laws::agrees(file@, manifest.signer@, service@)),
        service@ == "bloom-session"@ ==> (r is Ok <==> crate::identity_laws::usable(
            manifest,
            platform,
        ) && (manifest.session matches Some(entry) && crate::identity_laws::agrees(
            file@,
            entry@,
            service@,
        ))),
        r is Ok ==> service@ == "bloom-machine"@ || service@ == "bloom-broker"@ || service@
            == "bloom-signer"@ || service@ == "bloom-session"@,
        r matches Ok(pair) ==> pair.1 == manifest && pair.0@.service == service@,
{
    crate::identity_laws::law_machine_is_bound_to_its_own_entry(file@, manifest, platform);
    crate::identity_laws::law_broker_is_bound_to_its_own_entry(file@, manifest, platform);
    crate::identity_laws::law_signer_is_bound_to_its_own_entry(file@, manifest, platform);
    crate::identity_laws::law_session_is_bound_to_its_own_entry(file@, manifest, platform);
    crate::identity_laws::law_accepted_identity_is_the_files_own(
        file@,
        manifest,
        platform,
        service@,
    );
    if service@ != "bloom-machine"@ && service@ != "bloom-broker"@ && service@ != "bloom-signer"@
        && service@ != "bloom-session"@ {
        crate::identity_laws::law_no_other_service_has_an_identity(
            file@,
            manifest,
            platform,
            service@,
        );
    }
}

/// A token is made exactly of a token's text, and holds it.
pub proof fn law_token_is_made_of_its_text(value: &str, r: Result<Token, WireError>)
    requires
        call_ensures(Token::new, (value,), r),
    ensures
        r is Ok <==> 1 <= value@.len() <= 64 && 0x61 <= value@[0] as int <= 0x7a && forall|i: int|
            0 <= i < value@.len() ==> {
                let c = #[trigger] value@[i] as int;
                0x61 <= c <= 0x7a || 0x30 <= c <= 0x39 || c == 0x2e || c == 0x5f || c == 0x2d || c
                    == 0x2f
            },
        r matches Ok(token) ==> token@ == value@,
        r matches Err(e) ==> e@ == (WireErrorView {
            code: WireErrorCode::MalformedFrame,
            message: "token must be a 1-64 byte lowercase ASCII protocol identifier"@,
        }),
{
    crate::value_laws::law_tokens_are_accepted_exactly(value@);
}

/// A digest is made exactly of 64 lowercase hexadecimal digits, and holds them.
pub proof fn law_digest_is_made_of_its_digits(value: &str, r: Result<Digest32, WireError>)
    requires
        call_ensures(Digest32::new, (value,), r),
    ensures
        r is Ok <==> value@.len() == 64 && forall|i: int|
            0 <= i < value@.len() ==> {
                let c = #[trigger] value@[i] as int;
                0x30 <= c <= 0x39 || 0x61 <= c <= 0x66
            },
        r matches Ok(id) ==> id@ == value@,
        r matches Err(e) ==> e@ == (WireErrorView {
            code: WireErrorCode::MalformedFrame,
            message: "SHA-256 digest must be fixed-length lowercase hexadecimal"@,
        }),
{
    crate::value_laws::law_lower_hex_is_accepted_exactly(value@, 64);
}

/// An operation ID is made exactly of 64 lowercase hexadecimal digits, and holds them.
pub proof fn law_operation_id_is_made_of_its_digits(value: &str, r: Result<OperationId, WireError>)
    requires
        call_ensures(OperationId::new, (value,), r),
    ensures
        r is Ok <==> value@.len() == 64 && forall|i: int|
            0 <= i < value@.len() ==> {
                let c = #[trigger] value@[i] as int;
                0x30 <= c <= 0x39 || 0x61 <= c <= 0x66
            },
        r matches Ok(id) ==> id@ == value@,
        r matches Err(e) ==> e@ == (WireErrorView {
            code: WireErrorCode::MalformedFrame,
            message: "operation ID must be fixed-length lowercase hexadecimal"@,
        }),
{
    crate::value_laws::law_lower_hex_is_accepted_exactly(value@, 64);
}

/// A boot epoch is made exactly of 32 lowercase hexadecimal digits, and holds them.
pub proof fn law_boot_epoch_is_made_of_its_digits(value: &str, r: Result<BootEpoch, WireError>)
    requires
        call_ensures(BootEpoch::new, (value,), r),
    ensures
        r is Ok <==> value@.len() == 32 && forall|i: int|
            0 <= i < value@.len() ==> {
                let c = #[trigger] value@[i] as int;
                0x30 <= c <= 0x39 || 0x61 <= c <= 0x66
            },
        r matches Ok(id) ==> id@ == value@,
        r matches Err(e) ==> e@ == (WireErrorView {
            code: WireErrorCode::MalformedFrame,
            message: "boot epoch must be fixed-length lowercase hexadecimal"@,
        }),
{
    crate::value_laws::law_lower_hex_is_accepted_exactly(value@, 32);
}

/// A request nonce is made exactly of 32 lowercase hexadecimal digits, and holds them.
pub proof fn law_request_nonce_is_made_of_its_digits(value: &str, r: Result<RequestNonce, WireError>)
    requires
        call_ensures(RequestNonce::new, (value,), r),
    ensures
        r is Ok <==> value@.len() == 32 && forall|i: int|
            0 <= i < value@.len() ==> {
                let c = #[trigger] value@[i] as int;
                0x30 <= c <= 0x39 || 0x61 <= c <= 0x66
            },
        r matches Ok(id) ==> id@ == value@,
        r matches Err(e) ==> e@ == (WireErrorView {
            code: WireErrorCode::MalformedFrame,
            message: "request nonce must be fixed-length lowercase hexadecimal"@,
        }),
{
    crate::value_laws::law_lower_hex_is_accepted_exactly(value@, 32);
}

/// A 64-bit number is read exactly from its one decimal text.
pub proof fn law_decimal_u64_is_read_from_its_text(value: &str, r: Result<DecimalU64, WireError>, n: u64)
    requires
        call_ensures(DecimalU64::parse, (value,), r),
    ensures
        value@ == crate::decimal::decimal_chars(n as nat) <==> (r matches Ok(number) && number@
            == n),
        r matches Err(e) ==> e@ == (WireErrorView {
            code: WireErrorCode::MalformedFrame,
            message: "value must be a canonical unsigned 64-bit decimal string"@,
        }),
{
    crate::decimal::law_decimal_chars_canonical(n as nat);
    if canonical_decimal(value@) {
        crate::decimal::law_decimal_value_canonical(value@);
    }
}

/// A 256-bit number is read exactly from its one decimal text.
pub proof fn law_decimal_u256_is_read_from_its_text(
    value: &str,
    r: Result<DecimalU256, WireError>,
    n: nat,
)
    requires
        call_ensures(DecimalU256::parse, (value,), r),
    ensures
        n < vstd::arithmetic::power2::pow2(256) ==> (value@ == crate::decimal::decimal_chars(n)
            <==> (r matches Ok(number) && number@ == n)),
        r matches Ok(number) ==> number@ < vstd::arithmetic::power2::pow2(256),
        r matches Err(e) ==> e@ == (WireErrorView {
            code: WireErrorCode::MalformedFrame,
            message: "value must be a canonical unsigned 256-bit decimal string"@,
        }),
{
    crate::value_laws::law_amounts_have_256_bits();
    crate::decimal::law_decimal_chars_canonical(n);
    if canonical_decimal(value@) {
        crate::decimal::law_decimal_value_canonical(value@);
    }
}

/// A number of at most 128 bits is read exactly from its one decimal text, and texts are compared
/// as the numbers that they stand for.
pub proof fn law_decimal_texts_are_read_and_compared(
    left: &str,
    right: &str,
    read: Option<u128>,
    leq: bool,
    a: nat,
    b: nat,
)
    requires
        call_ensures(crate::decimal::parse_canonical_decimal, (left,), read),
        left@ == crate::decimal::decimal_chars(a),
        right@ == crate::decimal::decimal_chars(b),
        call_ensures(crate::decimal::decimal_leq, (left, right), leq),
    ensures
        a <= u128::MAX ==> read == Some(a as u128),
        a > u128::MAX ==> read is None,
        leq <==> a <= b,
{
    crate::decimal::law_decimal_chars_canonical(a);
    crate::decimal::law_decimal_chars_canonical(b);
}

/// Bytes become an array exactly if there are as many as it holds, and are then its bytes.
pub proof fn law_arrays_hold_the_bytes(
    bytes: &[u8],
    short: Option<[u8; 32]>,
    long: Option<[u8; 64]>,
)
    requires
        call_ensures(crate::bytes::array32, (bytes,), short),
        call_ensures(crate::bytes::array64, (bytes,), long),
    ensures
        short is Some <==> bytes@.len() == 32,
        long is Some <==> bytes@.len() == 64,
        short matches Some(a) ==> a@ == bytes@,
        long matches Some(a) ==> a@ == bytes@,
{
}

/// Texts, and bytes, are the same exactly if they hold the same, and one stands before another in
/// the order of their bytes.
pub proof fn law_texts_are_compared_whole(
    a: &str,
    b: &str,
    same: bool,
    before: bool,
    after: bool,
)
    requires
        call_ensures(crate::text::same_text, (a, b), same),
        call_ensures(crate::text::is_text_before, (a, b), before),
        call_ensures(crate::text::is_text_before, (b, a), after),
    ensures
        same <==> a@ == b@,
        same ==> !before && !after,
        !same ==> before != after,
{
    crate::text::lemma_text_before_total(a@, b@);
    crate::text::lemma_text_before_total(b@, a@);
}

/// A listener's name is accepted exactly if it is not empty and holds no NUL.
pub proof fn law_checked_listener_names_are_usable(name: &str, r: Result<(), ActivationError>)
    requires
        call_ensures(crate::activation::check_listener_name, (name,), r),
    ensures
        r is Ok <==> name@.len() > 0 && forall|i: int|
            0 <= i < name@.len() ==> #[trigger] name@[i] != '\0',
        r matches Err(e) ==> e@ == ActivationErrorView::Rejected(
            "activation socket name is invalid"@,
        ),
{
    crate::activation_laws::law_listener_names_are_accepted_exactly(name@);
}

/// Reading a number gives the number that the text writes, if 64 bits hold it.
pub proof fn law_read_numbers_are_the_texts_own(text: &str, n: u64, r: Option<u64>)
    requires
        call_ensures(crate::activation::parse_number, (text,), r),
    ensures
        text@ == crate::decimal::decimal_chars(n as nat) ==> r == Some(n),
        r == Some(n) <==> crate::activation::parsed_number(text@) == Some(n as nat),
{
    crate::decimal::law_decimal_chars_canonical(n as nat);
    if text@ == crate::decimal::decimal_chars(n as nat) {
        assert(crate::decimal::is_digit(text@[0]));
        assert(crate::activation::unsigned_part(text@) == text@);
    }
}

/// The names of the descriptors are the parts of the environment's text, in order.
pub proof fn law_activated_names_make_up_the_text(
    listen_pid: &Option<String>,
    own_pid: u32,
    listen_fds: &Option<String>,
    listen_names: &Option<String>,
    r: Result<Vec<String>, String>,
)
    requires
        call_ensures(
            crate::activation::activated_names,
            (listen_pid, own_pid, listen_fds, listen_names),
            r,
        ),
    ensures
        r matches Ok(names) ==> {
            &&& listen_names matches Some(text) && crate::activation_laws::joined(
                crate::activation::texts(names@),
            ) == text@
            &&& listen_fds matches Some(count) && crate::activation::parsed_number(count@) == Some(
                names@.len(),
            )
            &&& listen_pid matches Some(pid) && crate::activation::parsed_number(pid@) == Some(
                own_pid as nat,
            )
            &&& 1 <= names@.len() <= 1024
        },
        r is Ok <==> crate::activation::environment_check(
            *listen_pid,
            own_pid,
            *listen_fds,
            *listen_names,
        ) is Ok,
{
    crate::activation_laws::law_environment_is_accepted_exactly(
        *listen_pid,
        own_pid,
        *listen_fds,
        *listen_names,
    );
    if listen_names is Some {
        crate::activation_laws::law_parts_make_up_the_text(listen_names->Some_0@);
    }
    if r is Ok {
        assert(crate::activation::texts(r->Ok_0@).len() == r->Ok_0@.len());
    }
}

/// Developer mode is refused to root first, and then without an absolute root.
pub proof fn law_developer_mode_is_refused_to_root(
    uid: u32,
    root_is_absolute: bool,
    r: Result<(), WireError>,
)
    requires
        call_ensures(crate::developer::check_developer_user, (uid, root_is_absolute), r),
    ensures
        r is Ok <==> uid > 0 && root_is_absolute,
        r matches Err(e) ==> e@ == (WireErrorView {
            code: WireErrorCode::UnauthenticatedPeer,
            message: if uid == 0 {
                "developer transport mode refuses root"@
            } else {
                "developer transport root must be absolute"@
            },
        }),
{
}

/// Developer mode accepts its root, a file's place and the directories between by their metadata
/// alone, and says what they must be.
pub proof fn law_developer_paths_are_checked_exactly(
    facts: &FileFacts,
    uid: u32,
    root: &Vec<Vec<u8>>,
    canonical: &Vec<Vec<u8>>,
    label: &str,
    as_root: Result<(), WireError>,
    between: Result<(), WireError>,
    place: Result<(), WireError>,
)
    requires
        call_ensures(crate::developer::require_developer_root, (facts, uid), as_root),
        call_ensures(crate::developer::check_developer_directory, (facts, uid), between),
        call_ensures(
            crate::developer::check_developer_file_location,
            (root, canonical, label),
            place,
        ),
    ensures
        as_root is Ok <==> facts.kind is Directory && facts.uid == uid && facts.mode & 0o7777
            == 0o700 && facts.links >= 2,
        as_root matches Err(e) ==> e@ == (WireErrorView {
            code: WireErrorCode::UnauthenticatedPeer,
            message: "developer transport root must be a current-UID-owned mode-0700 non-symlink directory"@,
        }),
        between is Ok <==> facts.kind is Directory && facts.uid == uid && facts.mode & 0o077 == 0,
        between matches Err(e) ==> e@ == (WireErrorView {
            code: WireErrorCode::UnauthenticatedPeer,
            message: "developer transport path contains an unsafe directory"@,
        }),
        place is Ok <==> root@.len() <= canonical@.len() && forall|i: int|
            0 <= i < root@.len() ==> (#[trigger] root@[i])@ == canonical@[i]@,
        place matches Err(e) ==> e@ == (WireErrorView {
            code: WireErrorCode::UnauthenticatedPeer,
            message: "developer "@ + label@ + " is outside the declared root"@,
        }),
{
    let outer = crate::developer::path_view(root@);
    let inner = crate::developer::path_view(canonical@);
    crate::file_laws::law_paths_lie_within_what_they_begin_with(outer, inner, Seq::empty());
    if place is Ok {
        assert forall|i: int| 0 <= i < root@.len() implies (#[trigger] root@[i])@
            == canonical@[i]@ by {
            assert(outer[i] == inner[i]);
        }
    }
    if root@.len() <= canonical@.len() && forall|i: int|
        0 <= i < root@.len() ==> (#[trigger] root@[i])@ == canonical@[i]@ {
        assert forall|i: int| 0 <= i < outer.len() implies #[trigger] outer[i] == inner[i] by {
            assert(root@[i]@ == canonical@[i]@);
        }
    }
}

/// A guard is made of a user other than root and some age, and watches what it was given.
pub proof fn law_guard_watches_what_it_was_given(
    path: std::path::PathBuf,
    login_uid: u32,
    build_digest: Digest32,
    maximum_age_ms: u64,
    r: Result<NetworkContainmentGuard, WireError>,
)
    requires
        call_ensures(
            NetworkContainmentGuard::new,
            (path, login_uid, build_digest, maximum_age_ms),
            r,
        ),
    ensures
        r is Ok <==> login_uid > 0 && maximum_age_ms > 0,
        r matches Ok(guard) ==> guard@.path == path && guard@.login_uid == login_uid
            && guard@.build_digest == build_digest@ && guard@.maximum_age_ms == maximum_age_ms,
        r matches Err(e) ==> e@ == (WireErrorView {
            code: WireErrorCode::ServiceUnavailable,
            message: "invalid network-containment guard"@,
        }),
{
}

/// A guard reads an attestation only from root's own file, and takes it by its own user, build
/// and age.
pub proof fn law_guard_checks_file_and_attestation(
    guard: &NetworkContainmentGuard,
    facts: &FileFacts,
    status: &Result<NetworkContainmentStatus, String>,
    now_ms: u64,
    file: Result<(), WireError>,
    verdict: Result<(), WireError>,
)
    requires
        call_ensures(NetworkContainmentGuard::check_metadata, (guard, facts), file),
        call_ensures(NetworkContainmentGuard::check, (guard, status, now_ms), verdict),
    ensures
        file is Ok <==> facts.kind is Regular && facts.uid == 0 && facts.gid == 0 && facts.links
            == 1 && facts.mode & 0o7777 == 0o644,
        file matches Err(e) ==> e@ == (WireErrorView {
            code: WireErrorCode::ServiceUnavailable,
            message: "network-containment status has unsafe metadata"@,
        }),
        verdict is Ok <==> (status matches Ok(status) && crate::containment::contained(
            *status,
            guard@.login_uid,
            guard@.build_digest,
            now_ms,
            guard@.maximum_age_ms,
        )),
        verdict matches Err(e) ==> e@.code is ServiceUnavailable,
{
}

/// The time of a check is the wall clock's, if 64 bits hold it.
pub proof fn law_check_time_is_the_wall_clocks(millis: Option<u128>, r: Result<u64, WireError>)
    requires
        call_ensures(crate::containment::check_time, (millis,), r),
    ensures
        r is Ok <==> millis is Some && millis->Some_0 <= u64::MAX,
        r matches Ok(ms) ==> millis == Some(ms as u128),
        r matches Err(e) ==> e@ == (WireErrorView {
            code: WireErrorCode::ServiceUnavailable,
            message: if millis is None {
                "system time precedes the Unix epoch"@
            } else {
                "system time does not fit u64 milliseconds"@
            },
        }),
{
}

/// The history is read only from a file that its owner alone may write, and only a document of
/// the one schema is a history, which then holds the document's keys and handovers.
pub proof fn law_history_is_the_documents_own(
    facts: &FileFacts,
    expected_uid: u32,
    document: Result<
        (String, Vec<AuthorityEdgeHistoricalKey>, Vec<ApplicationKeyHandover>),
        String,
    >,
    file: Result<(), CheckpointError>,
    r: Result<AuthorityEdgeHistory, CheckpointError>,
)
    requires
        call_ensures(AuthorityEdgeHistory::check_file, (facts, expected_uid), file),
        call_ensures(AuthorityEdgeHistory::from_document, (document,), r),
    ensures
        file is Ok <==> facts.kind is Regular && facts.uid == expected_uid && facts.links == 1
            && facts.mode & 0o22 == 0,
        file matches Err(e) ==> e@ == CheckpointErrorView::Malformed(
            "authority-edge history has unsafe ownership, type, links, or mode"@,
        ),
        r is Ok <==> (document matches Ok(parts) && parts.0@
            == "bloom.authority-edge-application-history.1"@),
        r matches Ok(history) ==> history@.keys.len() == document->Ok_0.1@.len()
            && history@.handovers.len() == document->Ok_0.2@.len() && (forall|i: int|
            0 <= i < document->Ok_0.1@.len() ==> #[trigger] history@.keys[i]
                == document->Ok_0.1@[i]@) && (forall|i: int|
            0 <= i < document->Ok_0.2@.len() ==> #[trigger] history@.handovers[i]
                == document->Ok_0.2@[i]@),
        r matches Err(e) ==> e@ == CheckpointErrorView::Malformed(
            match document {
                Err(text) => text@,
                Ok(_) => "unsupported authority-edge application history schema"@,
            },
        ),
{
}

/// An identity is read only from a regular file that grants group and other nothing; a manifest
/// only from root's regular file that neither may write.
pub proof fn law_identity_files_are_checked_exactly(
    facts: &FileFacts,
    identity: Result<(), WireError>,
    manifest: Result<(), WireError>,
)
    requires
        call_ensures(crate::identity::require_private_identity_permissions, (facts,), identity),
        call_ensures(crate::identity::require_root_manifest_permissions, (facts,), manifest),
    ensures
        identity is Ok <==> facts.kind is Regular && facts.mode & 0o77 == 0,
        identity matches Err(e) ==> e@ == (WireErrorView {
            code: WireErrorCode::UnauthenticatedPeer,
            message: "application identity must be a regular non-symlink file with mode 0600 or stricter"@,
        }),
        manifest is Ok <==> facts.kind is Regular && facts.uid == 0 && facts.mode & 0o22 == 0,
        manifest matches Err(e) ==> e@ == (WireErrorView {
            code: WireErrorCode::UnauthenticatedPeer,
            message: "edge manifest must be a root-owned, non-symlink file not writable by group or other"@,
        }),
{
}

/// A log's destination is an absolute path; a log has mode `0640` until another is named, and
/// naming one changes nothing else.
pub proof fn law_logs_are_opened_as_named(
    is_absolute: bool,
    path: std::path::PathBuf,
    uid: u32,
    gid: u32,
    mode: u32,
    checked: Result<(), LogFault>,
    log: SecureLogFile,
    other: SecureLogFile,
)
    requires
        call_ensures(crate::observability::check_log_path, (is_absolute,), checked),
        call_ensures(SecureLogFile::new, (path, uid, gid), log),
        call_ensures(SecureLogFile::with_mode, (log, mode), other),
    ensures
        checked is Ok <==> is_absolute,
        checked is Err ==> checked == Err::<(), LogFault>(LogFault::NotAbsolute),
        log.path == path && log.expected_uid == uid && log.expected_gid == gid,
        log.expected_mode == 0o640,
        other.path == path && other.expected_uid == uid && other.expected_gid == gid,
        other.expected_mode == mode,
{
}

/// An envelope is live exactly before its deadline; a request can be answered exactly before its
/// deadline, which the response then keeps.
pub proof fn law_deadlines_end_the_work_on_time<T>(
    envelope: &SignedEnvelope<T>,
    at_ms: u64,
    live: Result<(), WireError>,
    answerable: Result<u64, WireError>,
)
    requires
        call_ensures(crate::sealing::require_live_deadline::<T>, (envelope, at_ms), live),
        call_ensures(crate::sealing::require_answerable::<T>, (envelope, at_ms), answerable),
    ensures
        live is Ok <==> at_ms < envelope.unsigned.deadline_ms@,
        live matches Err(e) ==> e@ == (WireErrorView {
            code: WireErrorCode::ServiceUnavailable,
            message: "authenticated local request deadline expired"@,
        }),
        answerable is Ok <==> at_ms < envelope.unsigned.deadline_ms@,
        answerable matches Ok(deadline) ==> deadline == envelope.unsigned.deadline_ms@,
        answerable matches Err(e) ==> e@ == (WireErrorView {
            code: WireErrorCode::ServiceUnavailable,
            message: "request deadline expired before response"@,
        }),
{
}

/// A frame's length is read high byte first and refused above one mebibyte; a refused body keeps
/// the reason as its message.
pub proof fn law_announced_lengths_are_bounded(
    prefix: [u8; 4],
    text: &str,
    length: Result<usize, WireError>,
    error: WireError,
)
    requires
        call_ensures(crate::codec::announced_length, (prefix,), length),
        call_ensures(crate::codec::body_error, (text,), error),
    ensures
        ({
            let n = 16_777_216 * prefix@[0] + 65_536 * prefix@[1] + 256 * prefix@[2] + prefix@[3];
            &&& length is Ok <==> n <= 1_048_576
            &&& length matches Ok(bytes) ==> bytes == n
        }),
        length matches Err(e) ==> e@ == (WireErrorView {
            code: WireErrorCode::LimitExceededFrame,
            message: "local frame exceeds 1 MiB"@,
        }),
        error@.message == text@,
        error@.code is UnknownField <==> crate::text::contains_text(text@, "unknown field"@),
        error@.code is UnknownField || error@.code is MalformedFrame,
{
    assert(prefix@ =~= seq![prefix@[0], prefix@[1], prefix@[2], prefix@[3]]);
    crate::value_laws::law_lengths_are_read_high_byte_first(
        prefix@[0],
        prefix@[1],
        prefix@[2],
        prefix@[3],
    );
}

/// This side speaks version 1.1.
pub proof fn law_this_side_speaks_one_version(r: ProtocolVersion)
    requires
        call_ensures(ProtocolVersion::current, (), r),
    ensures
        r.major == 1,
        r.minor == 1,
{
}

/// New quotas and a new bound hold the numbers that they were made of, and nothing accepted yet.
pub proof fn law_new_bounds_hold_their_numbers(
    maximum: usize,
    window_ms: u64,
    requests: usize,
    request_window_ms: u64,
    mutations: usize,
    bound: SlidingAdmission,
    quota: Result<EndpointQuota, WireError>,
)
    requires
        call_ensures(SlidingAdmission::new, (maximum, window_ms), bound),
        call_ensures(
            EndpointQuota::new,
            (mutations, requests, request_window_ms, maximum, window_ms),
            quota,
        ),
    ensures
        bound@.maximum == maximum && bound@.window_ms == window_ms && bound@.accepted.len() == 0,
        quota is Ok <==> mutations > 0 && requests > 0 && request_window_ms > 0 && maximum > 0
            && window_ms > 0,
        quota matches Ok(q) ==> {
            &&& q@.maximum_in_flight == mutations
            &&& q@.in_flight == 0
            &&& q@.requests.maximum == requests
            &&& q@.requests.window_ms == request_window_ms
            &&& q@.requests.accepted.len() == 0
            &&& q@.journal.maximum == maximum
            &&& q@.journal.window_ms == window_ms
            &&& q@.journal.accepted.len() == 0
        },
        quota matches Err(e) ==> e@ == (WireErrorView {
            code: WireErrorCode::MalformedFrame,
            message: "endpoint quota values must be nonzero"@,
        }),
{
}

/// A call under its own operation keeps it.
pub proof fn law_own_operation_is_kept(id: OperationId, r: Result<OperationId, WireError>)
    requires
        call_ensures(crate::exchange::operation_for_call, (Some(id),), r),
    ensures
        r == Ok::<OperationId, WireError>(id),
{
}

/// A handshake begins exactly with the user that is expected, knows whom it talks to, and has
/// nothing answered yet. The server's first hello carries its fresh challenge.
pub proof fn law_handshakes_begin_with_the_expected_user(
    identity: &LocalIdentity,
    peer: &PeerAcl,
    observed_uid: u32,
    fresh: Digest32,
    client: Result<ClientHandshake, WireError>,
    server: Result<(ServerHandshake, HelloChallenge), WireError>,
)
    requires
        call_ensures(ClientHandshake::start, (identity, peer, observed_uid), client),
        call_ensures(ServerHandshake::start, (identity, peer, observed_uid, fresh), server),
    ensures
        client is Ok <==> observed_uid == peer@.uid,
        server is Ok <==> observed_uid == peer@.uid,
        client matches Ok(c) ==> c@.identity == identity@ && c@.server == peer@ && c@.sent is None,
        server matches Ok(pair) ==> {
            &&& pair.0@.identity == identity@
            &&& pair.0@.only
            &&& pair.0@.peers == seq![peer@]
            &&& pair.0@.observed_uid == observed_uid
            &&& pair.0@.sent == fresh@
            &&& pair.0@.client is None
            &&& pair.1@.challenge == fresh@
            &&& pair.1@.service == identity@.service
        },
        client matches Err(e) ==> e@.code is UnauthenticatedPeer,
        server matches Err(e) ==> e@.code is UnauthenticatedPeer,
{
    crate::hello_laws::law_users_are_accepted_exactly(observed_uid, peer@.uid, Seq::empty());
}

/// A handshake with one of several peers begins exactly if one of them has the user, and then
/// knows all of them.
pub proof fn law_handshake_begins_with_a_known_user(
    identity: &LocalIdentity,
    peers: Vec<PeerAcl>,
    observed_uid: u32,
    fresh: Digest32,
    r: Result<(ServerHandshake, HelloChallenge), WireError>,
)
    requires
        call_ensures(ServerHandshake::start_one_of, (identity, peers, observed_uid, fresh), r),
    ensures
        r is Ok <==> exists|i: int|
            0 <= i < peers@.len() && (#[trigger] peers@[i])@.uid == observed_uid,
        r matches Ok(pair) ==> {
            &&& !pair.0@.only
            &&& pair.0@.identity == identity@
            &&& pair.0@.peers.len() == peers@.len()
            &&& forall|i: int|
                0 <= i < peers@.len() ==> #[trigger] pair.0@.peers[i] == peers@[i]@
            &&& pair.0@.observed_uid == observed_uid
            &&& pair.0@.sent == fresh@
            &&& pair.0@.client is None
            &&& pair.1@.challenge == fresh@
            &&& pair.1@.service == identity@.service
        },
        r matches Err(e) ==> e@ == (WireErrorView {
            code: WireErrorCode::UnauthenticatedPeer,
            message: "OS peer effective UID is not allowed"@,
        }),
{
    let all = crate::checkpoint::views(peers@);
    if exists|i: int| 0 <= i < peers@.len() && (#[trigger] peers@[i])@.uid == observed_uid {
        let i = choose|i: int| 0 <= i < peers@.len() && (#[trigger] peers@[i])@.uid == observed_uid;
        assert(all[i].uid == observed_uid);
    }
    if crate::hello::user_known(all, observed_uid) {
        let i = choose|i: int| 0 <= i < all.len() && (#[trigger] all[i]).uid == observed_uid;
        assert(peers@[i]@.uid == observed_uid);
    }
}

/// Verifying an envelope succeeds exactly if it speaks a known version and schema, comes from the
/// expected peer, ends after it was sent, carries its body's digest if it is a request, is signed
/// over all of it under the peer's key, and carries the journal head that its edge demands.
pub proof fn law_verified_envelope_is_authentic<T: WireValue>(
    envelope: &SignedEnvelope<T>,
    observed_uid: u32,
    expected: &AuthenticatedPeer,
    r: Result<(), WireError>,
)
    requires
        call_ensures(SignedEnvelope::<T>::verify, (envelope, observed_uid, expected), r),
    ensures
        ({
            let u = envelope.unsigned;
            let key = expected.application_public_key@;
            r is Ok <==> {
                &&& u.protocol.major == 1
                &&& u.protocol.minor <= 1
                &&& u.schema@ == "bloom.rpc-envelope.1"@
                &&& crate::envelope_laws::comes_from_peer(u, observed_uid, *expected)
                &&& u.sent_at_ms@ < u.deadline_ms@
                &&& u.kind is Request ==> (crate::wire::wire_bytes(u.body.wire()) matches Ok(body)
                    && u.request_digest@ == crate::hex_text::hex_chars(
                    crate::crypto::sha256_of(body),
                ))
                &&& crate::crypto::ed25519_key_accepted(key)
                &&& envelope.signature@.len() == 64
                &&& crate::wire::wire_bytes(u.wire()) matches Ok(bytes)
                &&& crate::crypto::ed25519_verifies(key, bytes, envelope.signature@)
                &&& crate::envelope::head_check(u, key) is Ok
            }
        }),
{
    crate::envelope_laws::law_envelope_is_authentic_exactly(*envelope, observed_uid, *expected);
}

/// Verifying a response succeeds exactly if it is authentic and answers the request: the two have
/// one method, one operation and one digest.
pub proof fn law_verified_response_answers_its_request<T: WireValue, U: WireValue>(
    response: &SignedEnvelope<T>,
    observed_uid: u32,
    expected: &AuthenticatedPeer,
    request: &SignedEnvelope<U>,
    authentic: Result<(), WireError>,
    r: Result<(), WireError>,
)
    requires
        call_ensures(SignedEnvelope::<T>::verify, (response, observed_uid, expected), authentic),
        call_ensures(
            SignedEnvelope::<T>::verify_response_to::<U>,
            (response, observed_uid, expected, request),
            r,
        ),
    ensures
        r is Ok <==> authentic is Ok && response.unsigned.kind is Response && request.unsigned.kind
            is Request && response.unsigned.method@ == request.unsigned.method@
            && response.unsigned.operation_id@ == request.unsigned.operation_id@
            && response.unsigned.request_digest@ == request.unsigned.request_digest@,
        authentic matches Err(e) ==> (r matches Err(error) && error@ == e@),
        authentic is Ok && r is Err ==> r->Err_0@.code is MalformedFrame,
{
    crate::envelope_laws::law_response_is_accepted_exactly(
        *response,
        observed_uid,
        *expected,
        request.unsigned,
    );
}

/// What is decoded from a frame is the tree whose canonical form the frame carries, and what is
/// encoded is that frame.
pub proof fn law_frames_carry_one_canonical_tree(
    bytes: &[u8],
    value: &Json,
    decoded: Result<Json, WireError>,
    encoded: Result<Vec<u8>, WireError>,
)
    requires
        call_ensures(crate::codec::decode_frame, (bytes,), decoded),
        call_ensures(crate::codec::encode_frame, (value,), encoded),
    ensures
        decoded matches Ok(json) ==> {
            &&& 4 <= bytes@.len() <= 4 + 1_048_576
            &&& crate::frame_laws::announced(bytes@) == bytes@.len() - 4
            &&& crate::codec::json_parsed(bytes@.skip(4)) == Ok::<JsonView, Seq<char>>(json@)
            &&& crate::codec::jcs_encoding(json@) == Ok::<Seq<u8>, Seq<char>>(bytes@.skip(4))
        },
        encoded matches Ok(frame) ==> {
            &&& 4 <= frame@.len() <= 4 + 1_048_576
            &&& crate::frame_laws::announced(frame@) == frame@.len() - 4
            &&& crate::codec::canonical(value@) == Ok::<Seq<u8>, Seq<char>>(frame@.skip(4))
        },
        encoded is Ok <==> (crate::codec::canonical(value@) matches Ok(payload) && payload.len()
            <= 1_048_576),
        decoded is Ok && decoded->Ok_0@ == value@ ==> (encoded matches Ok(frame) && frame@ == bytes@),
{
    if let Ok(json) = decoded {
        crate::frame_laws::law_frame_is_accepted_exactly(bytes@, json@);
    }
    if let Ok(frame) = encoded {
        crate::frame_laws::law_frame_is_written_exactly(value@, frame@);
    }
    crate::frame_laws::law_frame_is_written_exactly(value@, bytes@);
}

} // verus!
