//! What is asked of an identity and of the manifest that pins it, in terms of their fields.

use vstd::prelude::*;

use crate::error::{WireErrorCode, WireErrorView};
use crate::files::{FileFacts, FileKind};
use crate::hex_text::{hex_bytes, is_hex_text};
use crate::identity::{
    acl_of, bound_identity, identity_of, AclView, EdgeManifest, IdentityFileView, IdentityView,
    ManifestPeerView,
};
use crate::ids::is_token_text;
use crate::trusted_time::HostPlatform;

verus! {

/// Sixty-four hexadecimal digits of either case.
pub open spec fn is_key_hex(text: Seq<char>) -> bool {
    text.len() == 64 && is_hex_text(text)
}

/// Texts that name a service, a boot and a key.
pub open spec fn are_names(service: Seq<char>, boot_epoch: Seq<char>, key_id: Seq<char>) -> bool {
    is_token_text(service) && crate::hex_text::is_lower_hex_text(boot_epoch, 32) && is_token_text(
        key_id,
    )
}

/// A manifest entry pins a peer exactly if its texts name a service, a boot and a key and its
/// public key is written in 64 hexadecimal digits. It pins exactly what it says.
pub proof fn law_manifest_entry_pins_what_it_says(peer: ManifestPeerView)
    ensures
        acl_of(peer) is Ok <==> are_names(peer.service, peer.boot_epoch, peer.key_id)
            && is_key_hex(peer.public_key_hex),
        acl_of(peer) matches Ok(acl) ==> acl.uid == peer.uid && acl.service == peer.service
            && acl.boot_epoch == peer.boot_epoch && acl.key_id == peer.key_id && acl.public_key
            == hex_bytes(peer.public_key_hex),
        acl_of(peer) matches Err(e) ==> e.code == (if are_names(
            peer.service,
            peer.boot_epoch,
            peer.key_id,
        ) {
            WireErrorCode::UnauthenticatedPeer
        } else {
            WireErrorCode::MalformedFrame
        }),
{
}

/// A file holds an identity exactly if its texts name a service, a boot and a key and its seed is
/// written in 64 hexadecimal digits. It holds exactly what it says.
pub proof fn law_identity_file_holds_what_it_says(file: IdentityFileView)
    ensures
        identity_of(file) is Ok <==> are_names(file.service, file.boot_epoch, file.key_id)
            && is_key_hex(file.seed_hex),
        identity_of(file) matches Ok(identity) ==> identity.service == file.service
            && identity.boot_epoch == file.boot_epoch && identity.key_id == file.key_id
            && identity.seed == hex_bytes(file.seed_hex),
        identity_of(file) matches Err(e) ==> e.code == (if is_key_hex(file.seed_hex) {
            WireErrorCode::MalformedFrame
        } else {
            WireErrorCode::UnauthenticatedPeer
        }),
{
}

/// The name of a time source that packaging reviewed for a platform.
pub open spec fn reviewed_source(platform: HostPlatform, source_id: Seq<char>) -> bool {
    (platform == HostPlatform::Linux && (source_id == "linux-system-clock"@ || source_id
        == "linux-chrony-nts"@)) || (platform == HostPlatform::Macos && source_id
        == "macos-managed-timed"@)
}

/// An identity file and a manifest entry speak of one service, boot and key pair.
pub open spec fn agrees(file: IdentityFileView, entry: ManifestPeerView, service: Seq<char>) -> bool {
    &&& file.service == service
    &&& entry.service == service
    &&& entry.boot_epoch == file.boot_epoch
    &&& entry.key_id == file.key_id
    &&& are_names(service, file.boot_epoch, file.key_id)
    &&& is_key_hex(file.seed_hex)
    &&& is_key_hex(entry.public_key_hex)
    &&& hex_bytes(entry.public_key_hex) == crate::crypto::ed25519_public(hex_bytes(file.seed_hex))
}

/// A manifest that may be used on a platform.
pub open spec fn usable(manifest: EdgeManifest, platform: HostPlatform) -> bool {
    manifest.schema@ == "bloom.edge-manifest.1"@ && reviewed_source(
        platform,
        manifest.trusted_time_source@,
    )
}

/// Machine is accepted exactly if its file agrees with the manifest's `machine`.
pub proof fn law_machine_is_bound_to_its_own_entry(
    file: IdentityFileView,
    manifest: EdgeManifest,
    platform: HostPlatform,
)
    ensures
        bound_identity(file, manifest, platform, "bloom-machine"@) is Ok <==> usable(
            manifest,
            platform,
        ) && agrees(file, manifest.machine@, "bloom-machine"@),
{
    law_manifest_entry_pins_what_it_says(manifest.machine@);
    law_identity_file_holds_what_it_says(file);
}

/// Broker is accepted exactly if its file agrees with the manifest's `broker`.
pub proof fn law_broker_is_bound_to_its_own_entry(
    file: IdentityFileView,
    manifest: EdgeManifest,
    platform: HostPlatform,
)
    ensures
        bound_identity(file, manifest, platform, "bloom-broker"@) is Ok <==> usable(
            manifest,
            platform,
        ) && agrees(file, manifest.broker@, "bloom-broker"@),
{
    lemma_service_names_differ();
    law_manifest_entry_pins_what_it_says(manifest.broker@);
    law_identity_file_holds_what_it_says(file);
}

/// Signer is accepted exactly if its file agrees with the manifest's `signer`.
pub proof fn law_signer_is_bound_to_its_own_entry(
    file: IdentityFileView,
    manifest: EdgeManifest,
    platform: HostPlatform,
)
    ensures
        bound_identity(file, manifest, platform, "bloom-signer"@) is Ok <==> usable(
            manifest,
            platform,
        ) && agrees(file, manifest.signer@, "bloom-signer"@),
{
    lemma_service_names_differ();
    law_manifest_entry_pins_what_it_says(manifest.signer@);
    law_identity_file_holds_what_it_says(file);
}

/// The login session is accepted exactly if the manifest has a `session` and the file agrees with
/// it.
pub proof fn law_session_is_bound_to_its_own_entry(
    file: IdentityFileView,
    manifest: EdgeManifest,
    platform: HostPlatform,
)
    ensures
        bound_identity(file, manifest, platform, "bloom-session"@) is Ok <==> usable(
            manifest,
            platform,
        ) && (manifest.session matches Some(entry) && agrees(file, entry@, "bloom-session"@)),
{
    lemma_service_names_differ();
    if let Some(entry) = manifest.session {
        law_manifest_entry_pins_what_it_says(entry@);
    }
    law_identity_file_holds_what_it_says(file);
}

/// No other service is accepted.
pub proof fn law_no_other_service_has_an_identity(
    file: IdentityFileView,
    manifest: EdgeManifest,
    platform: HostPlatform,
    service: Seq<char>,
)
    requires
        service != "bloom-machine"@,
        service != "bloom-broker"@,
        service != "bloom-signer"@,
        service != "bloom-session"@,
    ensures
        bound_identity(file, manifest, platform, service) is Err,
{
}

proof fn lemma_service_names_differ()
    ensures
        "bloom-machine"@ != "bloom-broker"@,
        "bloom-machine"@ != "bloom-signer"@,
        "bloom-machine"@ != "bloom-session"@,
        "bloom-broker"@ != "bloom-signer"@,
        "bloom-broker"@ != "bloom-session"@,
        "bloom-signer"@ != "bloom-session"@,
{
    reveal_strlit("bloom-machine");
    reveal_strlit("bloom-broker");
    reveal_strlit("bloom-signer");
    reveal_strlit("bloom-session");
    assert("bloom-machine"@[6] == 'm');
    assert("bloom-broker"@[6] == 'b');
    assert("bloom-signer"@[6] == 's');
    assert("bloom-signer"@[7] == 'i');
    assert("bloom-session"@[6] == 's');
    assert("bloom-session"@[7] == 'e');
}

/// An accepted identity is the one that its file says. A manifest of another schema is refused as
/// unsupported before anything else is looked at; a source that packaging did not review, an
/// identity of another service and one that the manifest does not pin are not authenticated.
pub proof fn law_accepted_identity_is_the_files_own(
    file: IdentityFileView,
    manifest: EdgeManifest,
    platform: HostPlatform,
    service: Seq<char>,
)
    ensures
        bound_identity(file, manifest, platform, service) matches Ok(identity) ==> identity.service
            == file.service && file.service == service && identity.boot_epoch == file.boot_epoch
            && identity.key_id == file.key_id && identity.seed == hex_bytes(file.seed_hex),
        manifest.schema@ != "bloom.edge-manifest.1"@ ==> bound_identity(
            file,
            manifest,
            platform,
            service,
        )->Err_0.code == WireErrorCode::UnsupportedVersion,
        manifest.schema@ == "bloom.edge-manifest.1"@ && !reviewed_source(
            platform,
            manifest.trusted_time_source@,
        ) ==> bound_identity(file, manifest, platform, service)->Err_0.code
            == WireErrorCode::UnauthenticatedPeer,
        usable(manifest, platform) && identity_of(file) is Ok && file.service != service
            ==> bound_identity(file, manifest, platform, service)->Err_0.code
            == WireErrorCode::UnauthenticatedPeer,
{
}

/// A file may hold an identity exactly if it is regular and grants nothing to group and other.
pub proof fn law_identity_files_are_private(facts: FileFacts)
    ensures
        crate::identity::identity_file_ok(facts) <==> facts.kind == FileKind::Regular && facts.mode
            & 0o077 == 0,
{
}

/// A file may hold the manifest exactly if it is regular, belongs to root and is not writable by
/// group and other.
pub proof fn law_manifest_files_are_roots(facts: FileFacts)
    ensures
        crate::identity::manifest_file_ok(facts) <==> facts.kind == FileKind::Regular && facts.uid
            == 0 && facts.mode & 0o022 == 0,
{
}

/// Two peers that an ACL and an identity tell apart in any field do not pin one another.
pub proof fn law_identity_is_pinned_field_by_field(acl: AclView, identity: IdentityView)
    ensures
        crate::sealing::pins(acl, identity) <==> acl.service == identity.service && acl.boot_epoch
            == identity.boot_epoch && acl.key_id == identity.key_id && acl.public_key
            == crate::crypto::ed25519_public(identity.seed),
{
}

} // verus!
