//! What the library demands of files, by their kind, owner and permission bits.

use vstd::prelude::*;

use crate::checkpoint::{CheckpointErrorView, HandoverView, PinView};
use crate::containment::{
    contained, guard_ok, status_check, status_file_ok, time_of_check, NetworkContainmentStatus,
};
use crate::developer::{
    developer_directory_ok, developer_file_accepted, developer_file_ok, developer_root_ok,
    developer_user_ok, encloses, lies_below, walks_up,
};
use crate::error::{WireErrorCode, WireErrorView};
use crate::files::{FileFacts, FileKind};
use crate::history::{
    handovers_of, history_file_ok, history_schema_ok, pin_of, pins_for, wanted, HistoricalKeyView,
};
use crate::ids::Token;
use crate::observability::{default_log_mode, is_complete, log_check, LogFault, SecureLogFile};

verus! {

/// A private file is a regular one that its owner may read and write, and on which no other bit is
/// set. Bits beyond the permissions do not count.
pub proof fn law_private_files_are_recognized_exactly(facts: FileFacts, other: FileFacts)
    ensures
        facts.is_private_file() <==> facts.kind is Regular && facts.mode & 0o7777 == 0o600,
        facts.kind == other.kind && facts.mode & 0o7777 == other.mode & 0o7777
            ==> facts.is_private_file() == other.is_private_file(),
        facts.mode == 0o100600 && facts.kind is Regular ==> facts.is_private_file(),
{
    assert(0o100600u32 & 0o7777u32 == 0o600u32) by (bit_vector);
}

/// Developer mode runs for every user but root, and only with an absolute root.
pub proof fn law_developer_users_are_accepted_exactly(uid: u32, root_is_absolute: bool)
    ensures
        developer_user_ok(uid, root_is_absolute) <==> uid > 0 && root_is_absolute,
{
}

/// The root of developer mode is the user's own directory with mode `0700`; a file in it is the
/// user's own regular file under one name with mode `0600`; a directory between grants group and
/// other nothing.
pub proof fn law_developer_metadata_is_accepted_exactly(facts: FileFacts, uid: u32)
    ensures
        developer_root_ok(facts, uid) <==> facts.kind is Directory && facts.uid == uid && facts.mode
            & 0o7777 == 0o700 && facts.links > 1,
        developer_file_ok(facts, uid) <==> facts.kind is Regular && facts.uid == uid && facts.mode
            & 0o7777 == 0o600 && facts.links == 1,
        developer_directory_ok(facts, uid) <==> facts.kind is Directory && facts.uid == uid
            && facts.mode & 0o77 == 0,
{
}

/// A path lies within another exactly if it is that path with further names behind it; it lies
/// below it if there is at least one.
pub proof fn law_paths_lie_within_what_they_begin_with(
    root: Seq<Seq<u8>>,
    path: Seq<Seq<u8>>,
    rest: Seq<Seq<u8>>,
)
    ensures
        encloses(root, root + rest),
        lies_below(root, root + rest) <==> rest.len() > 0,
        encloses(root, path) ==> path == root + path.skip(root.len() as int),
        encloses(root, path) <==> root.len() <= path.len() && forall|i: int|
            0 <= i < root.len() ==> #[trigger] root[i] == path[i],
        lies_below(root, path) ==> encloses(root, path) && root != path,
{
    assert((root + rest).take(root.len() as int) =~= root);
    if encloses(root, path) {
        assert(path =~= path.take(root.len() as int) + path.skip(root.len() as int));
        assert forall|i: int| 0 <= i < root.len() implies #[trigger] root[i] == path[i] by {
            assert(path.take(root.len() as int)[i] == path[i]);
        }
    }
    if root.len() <= path.len() && forall|i: int|
        0 <= i < root.len() ==> #[trigger] root[i] == path[i] {
        assert(root =~= path.take(root.len() as int));
    }
}

/// A developer file is accepted exactly if it is named by its canonical path, is private to the
/// user under one name, and lies below the root. Every directory between the two is then named
/// for inspection, from the file upwards, each once.
pub proof fn law_developer_files_are_accepted_exactly(
    root: Seq<Seq<u8>>,
    path: Seq<Seq<u8>>,
    canonical: Seq<Seq<u8>>,
    facts: FileFacts,
    uid: u32,
    directories: Seq<usize>,
    names: int,
)
    ensures
        developer_file_accepted(root, path, canonical, facts, uid) <==> path == canonical
            && facts.kind is Regular && facts.uid == uid && facts.mode & 0o7777 == 0o600
            && facts.links == 1 && root.len() < path.len() && forall|i: int|
            0 <= i < root.len() ==> #[trigger] root[i] == path[i],
        walks_up(directories, path.len(), root.len()) && root.len() < names < path.len() ==> {
            &&& 0 <= path.len() - 1 - names < directories.len()
            &&& directories[path.len() - 1 - names] == names
        },
        walks_up(directories, path.len(), root.len()) ==> forall|i: int|
            0 <= i < directories.len() ==> root.len() < #[trigger] directories[i] < path.len(),
{
    law_paths_lie_within_what_they_begin_with(root, path, Seq::empty());
}

/// The network is contained exactly if the attestation has the known schema, is of this user and
/// this build, names the managed time service, says that everything is in place, was made at most
/// a second in the future, and is no older than allowed. Whatever is missing, the service is
/// unavailable.
pub proof fn law_containment_is_accepted_exactly(
    status: NetworkContainmentStatus,
    login_uid: u32,
    build_digest: Seq<char>,
    now_ms: u64,
    maximum_age_ms: u64,
)
    ensures
        ({
            let verdict = status_check(
                Ok(status),
                login_uid,
                build_digest,
                now_ms,
                maximum_age_ms,
            );
            &&& verdict is Ok <==> {
                &&& status.schema@ == "bloom.macos-platform-status.2"@
                &&& status.login_uid == login_uid
                &&& status.build_digest@ == build_digest
                &&& status.trusted_time_source@ == "macos-managed-timed"@
                &&& status.automatic_time_enabled
                &&& status.timed_service_loaded
                &&& status.trusted_time_available
                &&& status.available
                &&& status.checked_at_unix_ms - now_ms <= 1000
                &&& status.checked_at_unix_ms + maximum_age_ms >= now_ms
            }
            &&& verdict is Err ==> verdict == Err::<(), WireErrorView>(
                WireErrorView {
                    code: WireErrorCode::ServiceUnavailable,
                    message: "root packet-filter containment is unavailable or stale"@,
                },
            )
        }),
{
}

/// An attestation that holds now holds at every later time that is within its age, and at no
/// time beyond it.
pub proof fn law_containment_lasts_for_its_age(
    status: NetworkContainmentStatus,
    login_uid: u32,
    build_digest: Seq<char>,
    now_ms: u64,
    later_ms: u64,
    maximum_age_ms: u64,
)
    requires
        contained(status, login_uid, build_digest, now_ms, maximum_age_ms),
        now_ms <= later_ms,
    ensures
        contained(status, login_uid, build_digest, later_ms, maximum_age_ms) <==> later_ms
            <= status.checked_at_unix_ms + maximum_age_ms,
{
}

/// An attestation that cannot be read makes the service unavailable, with the reason.
pub proof fn law_unreadable_attestation_is_refused(
    text: String,
    login_uid: u32,
    build_digest: Seq<char>,
    now_ms: u64,
    maximum_age_ms: u64,
)
    ensures
        status_check(Err(text), login_uid, build_digest, now_ms, maximum_age_ms) == Err::<
            (),
            WireErrorView,
        >(
            WireErrorView {
                code: WireErrorCode::ServiceUnavailable,
                message: "decode containment status: "@ + text@,
            },
        ),
{
}

/// The attestation's file is root's, of root's group, a regular file under one name that all may
/// read and root alone may write.
pub proof fn law_attestation_files_are_accepted_exactly(facts: FileFacts)
    ensures
        status_file_ok(facts) <==> facts.kind is Regular && facts.uid == 0 && facts.gid == 0
            && facts.links == 1 && facts.mode & 0o7777 == 0o644,
{
}

/// A guard has a user other than root and some age; a check has a time if the wall clock gives
/// one of 64 bits, and it is that one.
pub proof fn law_guards_and_check_times_are_exact(
    login_uid: u32,
    maximum_age_ms: u64,
    millis: Option<u128>,
    time: u64,
)
    ensures
        guard_ok(login_uid, maximum_age_ms) <==> login_uid > 0 && maximum_age_ms > 0,
        time_of_check(Some(time as u128)) == Some(time),
        time_of_check(millis) is Some <==> millis is Some && millis->Some_0
            <= 0xffff_ffff_ffff_ffff,
        time_of_check(millis) matches Some(ms) ==> millis == Some(ms as u128),
{
}

/// A log is accepted exactly if it is a regular file of the expected owner and group with exactly
/// the expected permissions. The first of these that fails is named.
pub proof fn law_logs_are_accepted_exactly(facts: FileFacts, expected: SecureLogFile)
    ensures
        ({
            let owned = facts.uid == expected.expected_uid && facts.gid == expected.expected_gid;
            let moded = facts.mode & 0o7777 == expected.expected_mode;
            let verdict = log_check(facts, expected);
            &&& verdict is Ok <==> facts.kind is Regular && owned && moded
            &&& verdict == Err::<(), LogFault>(LogFault::NotRegular) <==> !(facts.kind is Regular)
            &&& verdict == Err::<(), LogFault>(LogFault::WrongOwner) <==> facts.kind is Regular
                && !owned
            &&& verdict == Err::<(), LogFault>(LogFault::WrongMode) <==> facts.kind is Regular
                && owned && !moded
        }),
{
}

/// Where nothing else is said, a log may be written by its owner alone and read by owner and
/// group alone.
pub proof fn law_logs_are_closed_to_others()
    ensures
        default_log_mode() & 0o222 == 0o200,
        default_log_mode() & 0o444 == 0o440,
        default_log_mode() & 0o7111 == 0,
{
    assert(0o640u32 & 0o222u32 == 0o200u32) by (bit_vector);
    assert(0o640u32 & 0o444u32 == 0o440u32) by (bit_vector);
    assert(0o640u32 & 0o7111u32 == 0u32) by (bit_vector);
}

/// What an operator is told of a refused log names the fault.
pub proof fn law_log_faults_are_named(fault: LogFault)
    ensures
        fault is NotAbsolute ==> fault.text() == "log destination must be absolute"@,
        fault is NotRegular ==> fault.text() == "log destination is not a regular file"@,
        fault is WrongOwner ==> fault.text() == "log destination owner or group is unexpected"@,
        fault is WrongMode ==> fault.text() == "log destination mode is unexpected"@,
{
}

/// An event is complete exactly when its last byte is a line feed, whatever stands before.
pub proof fn law_events_end_with_a_line_feed(held: Seq<u8>, byte: u8)
    ensures
        is_complete(held.push(byte)) <==> byte == 0x0a,
        !is_complete(Seq::<u8>::empty()),
{
    assert(held.push(byte).last() == byte);
}

/// The history's file is a regular one of the expected owner under one name that neither group
/// nor other may write; its document has the one known schema.
pub proof fn law_history_files_are_accepted_exactly(
    facts: FileFacts,
    expected_uid: u32,
    schema: Seq<char>,
)
    ensures
        history_file_ok(facts, expected_uid) <==> facts.kind is Regular && facts.uid
            == expected_uid && facts.links == 1 && facts.mode & 0o20 == 0 && facts.mode & 0o2 == 0,
        history_schema_ok(schema) <==> schema
            == "bloom.authority-edge-application-history.1"@,
{
    let mode = facts.mode;
    assert((mode & 0o022u32 == 0) <==> (mode & 0o20u32 == 0 && mode & 0o2u32 == 0))
        by (bit_vector);
}

/// A historical key is pinned exactly if it is written as 64 hexadecimal digits, stands for a
/// public key, and names its service and itself by tokens. The pin says what the key says.
pub proof fn law_historical_key_is_pinned_exactly(key: HistoricalKeyView)
    ensures
        ({
            let digits = crate::hex_text::is_hex_text(key.public_key_hex);
            let bytes = crate::hex_text::hex_bytes(key.public_key_hex);
            let named = crate::ids::is_token_text(key.service) && crate::ids::is_token_text(
                key.key_id,
            );
            &&& pin_of(key) is Ok <==> digits && key.public_key_hex.len() == 64 && named
                && crate::crypto::ed25519_key_accepted(bytes)
            &&& pin_of(key) matches Ok(pin) ==> pin.service == key.service && pin.key_id
                == key.key_id && pin.key == bytes && pin.key.len() == 32
            &&& !digits ==> pin_of(key) == Err::<PinView, CheckpointErrorView>(
                CheckpointErrorView::Malformed("history key is not hex"@),
            )
            &&& digits && key.public_key_hex.len() != 64 ==> pin_of(key) == Err::<
                PinView,
                CheckpointErrorView,
            >(CheckpointErrorView::Malformed("history key must be 32 bytes"@))
            &&& digits && key.public_key_hex.len() == 64 && named && pin_of(key) is Err ==> pin_of(
                key,
            ) == Err::<PinView, CheckpointErrorView>(
                CheckpointErrorView::Malformed("invalid history key"@),
            )
        }),
{
}

/// A service is wanted exactly if it is one of those that were asked for.
pub proof fn law_wanted_services_were_asked_for(services: Seq<&Token>, service: Seq<char>)
    ensures
        wanted(services, service) <==> services.map_values(|s: &Token| s@).contains(service),
{
    let names = services.map_values(|s: &Token| s@);
    if wanted(services, service) {
        let i = choose|i: int| 0 <= i < services.len() && (#[trigger] services[i])@ == service;
        assert(names[i] == service);
    }
    if names.contains(service) {
        let i = choose|i: int| 0 <= i < names.len() && names[i] == service;
        assert(services[i]@ == service);
    }
}

/// The handovers that are given are those of the wanted services, each as often as it was
/// recorded, in the order in which they were recorded.
pub proof fn law_handovers_of_wanted_services_are_given(
    handovers: Seq<HandoverView>,
    services: Seq<&Token>,
)
    ensures
        handovers_of(handovers, services) == handovers.filter(
            |h: HandoverView| wanted(services, h.service),
        ),
    decreases handovers.len(),
{
    reveal(Seq::filter);
    if handovers.len() == 0 {
        assert(handovers_of(handovers, services) =~= handovers.filter(
            |h: HandoverView| wanted(services, h.service),
        ));
    } else {
        law_handovers_of_wanted_services_are_given(handovers.drop_last(), services);
    }
}

/// The pins that are given are those of the wanted services' keys, in order, and there are none
/// if any of those keys has no pin. Keys of other services do not count.
pub proof fn law_pins_of_wanted_services_are_given(
    keys: Seq<HistoricalKeyView>,
    services: Seq<&Token>,
)
    ensures
        ({
            let asked = keys.filter(|k: HistoricalKeyView| wanted(services, k.service));
            &&& pins_for(keys, services) is Ok <==> forall|i: int|
                0 <= i < asked.len() ==> pin_of(#[trigger] asked[i]) is Ok
            &&& pins_for(keys, services) matches Ok(pins) ==> pins.len() == asked.len()
                && forall|i: int|
                0 <= i < asked.len() ==> Ok::<PinView, CheckpointErrorView>(#[trigger] pins[i])
                    == pin_of(asked[i])
            &&& pins_for(keys, services) matches Err(e) ==> exists|i: int|
                0 <= i < asked.len() && #[trigger] pin_of(asked[i]) == Err::<
                    PinView,
                    CheckpointErrorView,
                >(e) && forall|j: int| 0 <= j < i ==> pin_of(#[trigger] asked[j]) is Ok
        }),
    decreases keys.len(),
{
    reveal(Seq::filter);
    let pred = |k: HistoricalKeyView| wanted(services, k.service);
    let asked = keys.filter(pred);
    if keys.len() > 0 {
        let head = keys.drop_last();
        let before = head.filter(pred);
        law_pins_of_wanted_services_are_given(head, services);
        if wanted(services, keys.last().service) {
            assert(asked == before.push(keys.last()));
            assert forall|i: int| 0 <= i < before.len() implies #[trigger] before[i]
                == asked[i] by {}
            assert(asked[asked.len() - 1] == keys.last());
            if pins_for(keys, services) is Ok {
                assert forall|i: int| 0 <= i < asked.len() implies pin_of(
                    #[trigger] asked[i],
                ) is Ok by {
                    if i < before.len() {
                        assert(pin_of(before[i]) is Ok);
                    }
                }
                let pins = pins_for(keys, services)->Ok_0;
                let earlier = pins_for(head, services)->Ok_0;
                assert forall|i: int| 0 <= i < asked.len() implies Ok::<
                    PinView,
                    CheckpointErrorView,
                >(#[trigger] pins[i]) == pin_of(asked[i]) by {
                    if i < before.len() {
                        assert(pins[i] == earlier[i]);
                    }
                }
            } else if pins_for(head, services) is Err {
                let e = pins_for(head, services)->Err_0;
                let i = choose|i: int|
                    0 <= i < before.len() && #[trigger] pin_of(before[i]) == Err::<
                        PinView,
                        CheckpointErrorView,
                    >(e) && forall|j: int| 0 <= j < i ==> pin_of(#[trigger] before[j]) is Ok;
                assert(pin_of(asked[i]) == Err::<PinView, CheckpointErrorView>(e));
                assert forall|j: int| 0 <= j < i implies pin_of(#[trigger] asked[j]) is Ok by {
                    assert(pin_of(before[j]) is Ok);
                }
            } else {
                let i = asked.len() - 1;
                assert(pin_of(asked[i]) is Err);
                assert forall|j: int| 0 <= j < i implies pin_of(#[trigger] asked[j]) is Ok by {
                    assert(pin_of(before[j]) is Ok);
                }
            }
        } else {
            assert(asked == before);
        }
    }
}

} // verus!
