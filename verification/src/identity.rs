//! Local application identities and the peers that the edge manifest pins.

use vstd::prelude::*;
use vstd::string::*;

use crate::audit::{unauthenticated, unauthenticated_error};
use crate::bytes::{array32, wipe, wipe32};
use crate::codec::malformed_error;
use crate::crypto::{public_key, sign};
use crate::envelope::AuthenticatedPeer;
use crate::error::{WireError, WireErrorCode, WireErrorView};
use crate::files::{FileFacts, FileKind};
use crate::hex_text::hex_decode;
use crate::ids::{BootEpoch, Token};
use crate::text::{same_bytes, same_text};
use crate::trusted_time::{HostPlatform, TrustedTimeSource};

verus! {

/// An Ed25519 signing key.
pub struct SigningKey([u8; 32]);

impl View for SigningKey {
    type V = Seq<u8>;

    closed spec fn view(&self) -> Seq<u8> {
        self.0@
    }
}

impl Clone for SigningKey {
    fn clone(&self) -> (r: Self)
        ensures
            r@ == self@,
    {
        SigningKey(self.0)
    }
}

impl SigningKey {
    pub fn from_bytes(seed: &[u8; 32]) -> (r: Self)
        ensures
            r@ == seed@,
    {
        SigningKey(*seed)
    }

    /// The public key.
    pub fn verifying_key(&self) -> (r: [u8; 32])
        ensures
            r@ == crate::crypto::ed25519_public(self@),
            crate::crypto::ed25519_key_accepted(r@),
    {
        public_key(&self.0)
    }

    pub fn sign(&self, message: &[u8]) -> (r: [u8; 64])
        ensures
            crate::crypto::signed_by(self@, message@, r@),
    {
        sign(&self.0, message)
    }
}

pub struct LocalIdentity {
    pub service_id: Token,
    pub boot_epoch: BootEpoch,
    pub application_key_id: Token,
    pub signing_key: SigningKey,
}

/// What a [`LocalIdentity`] says.
pub struct IdentityView {
    pub service: Seq<char>,
    pub boot_epoch: Seq<char>,
    pub key_id: Seq<char>,
    pub seed: Seq<u8>,
}

impl View for LocalIdentity {
    type V = IdentityView;

    open spec fn view(&self) -> IdentityView {
        IdentityView {
            service: self.service_id@,
            boot_epoch: self.boot_epoch@,
            key_id: self.application_key_id@,
            seed: self.signing_key@,
        }
    }
}

impl Clone for LocalIdentity {
    fn clone(&self) -> (r: Self)
        ensures
            r@ == self@,
    {
        LocalIdentity {
            service_id: self.service_id.clone(),
            boot_epoch: self.boot_epoch.clone(),
            application_key_id: self.application_key_id.clone(),
            signing_key: self.signing_key.clone(),
        }
    }
}

#[derive(Debug)]
pub struct PeerAcl {
    pub effective_uid: u32,
    pub service_id: Token,
    pub boot_epoch: BootEpoch,
    pub application_key_id: Token,
    pub application_public_key: [u8; 32],
}

/// What a [`PeerAcl`] says.
pub struct AclView {
    pub uid: u32,
    pub service: Seq<char>,
    pub boot_epoch: Seq<char>,
    pub key_id: Seq<char>,
    pub public_key: Seq<u8>,
}

impl View for PeerAcl {
    type V = AclView;

    open spec fn view(&self) -> AclView {
        AclView {
            uid: self.effective_uid,
            service: self.service_id@,
            boot_epoch: self.boot_epoch@,
            key_id: self.application_key_id@,
            public_key: self.application_public_key@,
        }
    }
}

impl Clone for PeerAcl {
    fn clone(&self) -> (r: Self)
        ensures
            r@ == self@,
    {
        PeerAcl {
            effective_uid: self.effective_uid,
            service_id: self.service_id.clone(),
            boot_epoch: self.boot_epoch.clone(),
            application_key_id: self.application_key_id.clone(),
            application_public_key: self.application_public_key,
        }
    }
}

impl PeerAcl {
    /// The peer as it must show itself to an audience.
    pub fn authenticated_for(&self, audience: Token) -> (r: AuthenticatedPeer)
        ensures
            expects_peer(r, self@, audience@),
    {
        AuthenticatedPeer {
            effective_uid: self.effective_uid,
            service_id: self.service_id.clone(),
            boot_epoch: self.boot_epoch.clone(),
            audience,
            application_key_id: self.application_key_id.clone(),
            application_public_key: self.application_public_key,
        }
    }
}

/// What is expected of an envelope is what the ACL pins, for the audience.
pub open spec fn expects_peer(peer: AuthenticatedPeer, acl: AclView, audience: Seq<char>) -> bool {
    &&& peer.effective_uid == acl.uid
    &&& peer.service_id@ == acl.service
    &&& peer.boot_epoch@ == acl.boot_epoch
    &&& peer.audience@ == audience
    &&& peer.application_key_id@ == acl.key_id
    &&& peer.application_public_key@ == acl.public_key
}

#[derive(Debug)]
pub struct ManifestPeer {
    pub effective_uid: u32,
    pub service_id: String,
    pub boot_epoch: String,
    pub application_key_id: String,
    pub application_public_key_hex: String,
}

/// What a [`ManifestPeer`] says.
pub struct ManifestPeerView {
    pub uid: u32,
    pub service: Seq<char>,
    pub boot_epoch: Seq<char>,
    pub key_id: Seq<char>,
    pub public_key_hex: Seq<char>,
}

impl View for ManifestPeer {
    type V = ManifestPeerView;

    open spec fn view(&self) -> ManifestPeerView {
        ManifestPeerView {
            uid: self.effective_uid,
            service: self.service_id@,
            boot_epoch: self.boot_epoch@,
            key_id: self.application_key_id@,
            public_key_hex: self.application_public_key_hex@,
        }
    }
}

impl Clone for ManifestPeer {
    fn clone(&self) -> (r: Self)
        ensures
            r@ == self@,
    {
        ManifestPeer {
            effective_uid: self.effective_uid,
            service_id: self.service_id.clone(),
            boot_epoch: self.boot_epoch.clone(),
            application_key_id: self.application_key_id.clone(),
            application_public_key_hex: self.application_public_key_hex.clone(),
        }
    }
}

/// Why a text is no token, if it is none.
pub open spec fn token_check(text: Seq<char>) -> Result<(), WireErrorView> {
    if crate::ids::is_token_text(text) {
        Ok(())
    } else {
        Err(
            malformed_error("token must be a 1-64 byte lowercase ASCII protocol identifier"@),
        )
    }
}

/// Why three texts do not name a service, a boot and a key, if they do not.
pub open spec fn names_check(
    service: Seq<char>,
    boot_epoch: Seq<char>,
    key_id: Seq<char>,
) -> Result<(), WireErrorView> {
    if !crate::ids::is_token_text(service) {
        token_check(service)
    } else if !crate::hex_text::is_lower_hex_text(boot_epoch, 32) {
        Err(malformed_error("boot epoch must be fixed-length lowercase hexadecimal"@))
    } else {
        token_check(key_id)
    }
}

/// The ACL that a manifest entry pins, or why it pins none.
pub open spec fn acl_of(peer: ManifestPeerView) -> Result<AclView, WireErrorView> {
    match names_check(peer.service, peer.boot_epoch, peer.key_id) {
        Err(e) => Err(e),
        Ok(_) => if !crate::hex_text::is_hex_text(peer.public_key_hex) {
            Err(unauthenticated_error("manifest application public key is not hexadecimal"@))
        } else if peer.public_key_hex.len() != 64 {
            Err(unauthenticated_error("manifest application public key must contain 32 bytes"@))
        } else {
            Ok(
                AclView {
                    uid: peer.uid,
                    service: peer.service,
                    boot_epoch: peer.boot_epoch,
                    key_id: peer.key_id,
                    public_key: crate::hex_text::hex_bytes(peer.public_key_hex),
                },
            )
        },
    }
}

impl ManifestPeer {
    pub fn into_acl(self) -> (r: Result<PeerAcl, WireError>)
        ensures
            match r {
                Ok(acl) => acl_of(self@) == Ok::<AclView, WireErrorView>(acl@),
                Err(e) => acl_of(self@) == Err::<AclView, WireErrorView>(e@),
            },
    {
        let service_id = match Token::new(self.service_id.as_str()) {
            Ok(service_id) => service_id,
            Err(error) => {
                return Err(error);
            },
        };
        let boot_epoch = match BootEpoch::new(self.boot_epoch.as_str()) {
            Ok(boot_epoch) => boot_epoch,
            Err(error) => {
                return Err(error);
            },
        };
        let application_key_id = match Token::new(self.application_key_id.as_str()) {
            Ok(application_key_id) => application_key_id,
            Err(error) => {
                return Err(error);
            },
        };
        let decoded = match hex_decode(self.application_public_key_hex.as_str()) {
            Some(decoded) => decoded,
            None => {
                return Err(unauthenticated("manifest application public key is not hexadecimal"));
            },
        };
        match array32(decoded.as_slice()) {
            Some(application_public_key) => Ok(
                PeerAcl {
                    effective_uid: self.effective_uid,
                    service_id,
                    boot_epoch,
                    application_key_id,
                    application_public_key,
                },
            ),
            None => Err(
                unauthenticated("manifest application public key must contain 32 bytes"),
            ),
        }
    }
}

#[derive(Debug)]
pub struct EdgeManifest {
    pub schema: String,
    pub trusted_time_source: String,
    pub machine: ManifestPeer,
    pub broker: ManifestPeer,
    pub signer: ManifestPeer,
    pub revoke_client: ManifestPeer,
    /// macOS Unix-principal login-session identity. Older and non-macOS manifests omit it.
    pub session: Option<ManifestPeer>,
    /// Group owning the macOS session sentinel socket. It is kept in the root-owned manifest so
    /// that the login process never chooses an access edge.
    pub session_socket_gid: Option<u32>,
}

/// An identity as its file holds it.
pub struct IdentityFile {
    pub service_id: String,
    pub boot_epoch: String,
    pub application_key_id: String,
    pub private_key_seed_hex: String,
}

/// What an [`IdentityFile`] says.
pub struct IdentityFileView {
    pub service: Seq<char>,
    pub boot_epoch: Seq<char>,
    pub key_id: Seq<char>,
    pub seed_hex: Seq<char>,
}

impl View for IdentityFile {
    type V = IdentityFileView;

    open spec fn view(&self) -> IdentityFileView {
        IdentityFileView {
            service: self.service_id@,
            boot_epoch: self.boot_epoch@,
            key_id: self.application_key_id@,
            seed_hex: self.private_key_seed_hex@,
        }
    }
}

/// The identity that a file holds, or why it holds none.
pub open spec fn identity_of(file: IdentityFileView) -> Result<IdentityView, WireErrorView> {
    if !crate::hex_text::is_hex_text(file.seed_hex) {
        Err(unauthenticated_error("identity seed is not hexadecimal"@))
    } else if file.seed_hex.len() != 64 {
        Err(unauthenticated_error("identity seed must contain 32 bytes"@))
    } else {
        match names_check(file.service, file.boot_epoch, file.key_id) {
            Err(e) => Err(e),
            Ok(_) => Ok(
                IdentityView {
                    service: file.service,
                    boot_epoch: file.boot_epoch,
                    key_id: file.key_id,
                    seed: crate::hex_text::hex_bytes(file.seed_hex),
                },
            ),
        }
    }
}

impl IdentityFile {
    pub fn into_identity(self) -> (r: Result<LocalIdentity, WireError>)
        ensures
            match r {
                Ok(identity) => identity_of(self@) == Ok::<IdentityView, WireErrorView>(identity@),
                Err(e) => identity_of(self@) == Err::<IdentityView, WireErrorView>(e@),
            },
    {
        let mut decoded = match hex_decode(self.private_key_seed_hex.as_str()) {
            Some(decoded) => decoded,
            None => {
                return Err(unauthenticated("identity seed is not hexadecimal"));
            },
        };
        let mut seed = match array32(decoded.as_slice()) {
            Some(seed) => seed,
            None => {
                wipe(&mut decoded);
                return Err(unauthenticated("identity seed must contain 32 bytes"));
            },
        };
        wipe(&mut decoded);
        let signing_key = SigningKey::from_bytes(&seed);
        wipe32(&mut seed);
        let service_id = match Token::new(self.service_id.as_str()) {
            Ok(service_id) => service_id,
            Err(error) => {
                return Err(error);
            },
        };
        let boot_epoch = match BootEpoch::new(self.boot_epoch.as_str()) {
            Ok(boot_epoch) => boot_epoch,
            Err(error) => {
                return Err(error);
            },
        };
        let application_key_id = match Token::new(self.application_key_id.as_str()) {
            Ok(application_key_id) => application_key_id,
            Err(error) => {
                return Err(error);
            },
        };
        Ok(LocalIdentity { service_id, boot_epoch, application_key_id, signing_key })
    }
}

/// The manifest entry of a service, or why there is none.
pub open spec fn pinned_entry(manifest: EdgeManifest, service: Seq<char>) -> Result<
    ManifestPeerView,
    WireErrorView,
> {
    if service == "bloom-machine"@ {
        Ok(manifest.machine@)
    } else if service == "bloom-broker"@ {
        Ok(manifest.broker@)
    } else if service == "bloom-signer"@ {
        Ok(manifest.signer@)
    } else if service == "bloom-session"@ {
        match manifest.session {
            Some(peer) => Ok(peer@),
            None => Err(unauthenticated_error("edge manifest has no session identity"@)),
        }
    } else {
        Err(unauthenticated_error("unknown local service identity"@))
    }
}

/// The text of the error for a time source that no reviewed packaging names.
pub open spec fn time_source_error(source_id: Seq<char>) -> WireErrorView {
    unauthenticated_error(
        "edge manifest trusted time source is invalid: "@ + ("trusted time source "@
            + crate::trusted_time::quoted_text(source_id)
            + " does not match this platform or reviewed packaging"@),
    )
}

/// The identity that a file and a manifest agree on for a service on a platform, or why they do
/// not.
pub open spec fn bound_identity(
    file: IdentityFileView,
    manifest: EdgeManifest,
    platform: HostPlatform,
    expected_service: Seq<char>,
) -> Result<IdentityView, WireErrorView> {
    if manifest.schema@ != "bloom.edge-manifest.1"@ {
        Err(
            WireErrorView {
                code: WireErrorCode::UnsupportedVersion,
                message: "unsupported edge manifest schema"@,
            },
        )
    } else if crate::trusted_time::source_of(platform, manifest.trusted_time_source@) is None {
        Err(time_source_error(manifest.trusted_time_source@))
    } else {
        match identity_of(file) {
            Err(e) => Err(e),
            Ok(identity) => if identity.service != expected_service {
                Err(unauthenticated_error("application identity file has the wrong service ID"@))
            } else {
                match pinned_entry(manifest, expected_service) {
                    Err(e) => Err(e),
                    Ok(entry) => match acl_of(entry) {
                        Err(e) => Err(e),
                        Ok(acl) => if acl.service != identity.service || acl.boot_epoch
                            != identity.boot_epoch || acl.key_id != identity.key_id
                            || acl.public_key != crate::crypto::ed25519_public(identity.seed) {
                            Err(
                                unauthenticated_error(
                                    "application identity does not match the pinned edge manifest"@,
                                ),
                            )
                        } else {
                            Ok(identity)
                        },
                    },
                }
            },
        }
    }
}

/// An identity that was accepted is the one that the manifest pins for the service.
pub proof fn law_accepted_identity_is_pinned(
    file: IdentityFileView,
    manifest: EdgeManifest,
    platform: HostPlatform,
    expected_service: Seq<char>,
)
    requires
        bound_identity(file, manifest, platform, expected_service) is Ok,
    ensures
        ({
            let identity = bound_identity(file, manifest, platform, expected_service)->Ok_0;
            let acl = acl_of(pinned_entry(manifest, expected_service)->Ok_0)->Ok_0;
            &&& identity.service == expected_service
            &&& acl.service == identity.service
            &&& acl.boot_epoch == identity.boot_epoch
            &&& acl.key_id == identity.key_id
            &&& acl.public_key == crate::crypto::ed25519_public(identity.seed)
        }),
{
}

/// Binds an identity file to the edge manifest that pins it.
pub fn decode_identity_and_manifest(
    identity_file: IdentityFile,
    manifest: EdgeManifest,
    platform: HostPlatform,
    expected_service_id: &str,
) -> (r: Result<(LocalIdentity, EdgeManifest), WireError>)
    ensures
        match r {
            Ok(pair) => bound_identity(identity_file@, manifest, platform, expected_service_id@)
                == Ok::<IdentityView, WireErrorView>(pair.0@) && pair.1 == manifest,
            Err(e) => bound_identity(identity_file@, manifest, platform, expected_service_id@)
                == Err::<IdentityView, WireErrorView>(e@),
        },
{
    if !same_text(manifest.schema.as_str(), "bloom.edge-manifest.1") {
        return Err(
            WireError::new(
                WireErrorCode::UnsupportedVersion,
                "unsupported edge manifest schema",
            ),
        );
    }
    if let Err(error) = TrustedTimeSource::for_current_platform(
        platform,
        manifest.trusted_time_source.as_str(),
    ) {
        let mut message = "edge manifest trusted time source is invalid: ".to_owned();
        message.append(error.message().as_str());
        return Err(unauthenticated(message.as_str()));
    }
    let identity = match identity_file.into_identity() {
        Ok(identity) => identity,
        Err(error) => {
            return Err(error);
        },
    };
    if !same_text(identity.service_id.as_str(), expected_service_id) {
        return Err(unauthenticated("application identity file has the wrong service ID"));
    }
    let entry = if same_text(expected_service_id, "bloom-machine") {
        manifest.machine.clone()
    } else if same_text(expected_service_id, "bloom-broker") {
        manifest.broker.clone()
    } else if same_text(expected_service_id, "bloom-signer") {
        manifest.signer.clone()
    } else if same_text(expected_service_id, "bloom-session") {
        match &manifest.session {
            Some(peer) => peer.clone(),
            None => {
                return Err(unauthenticated("edge manifest has no session identity"));
            },
        }
    } else {
        return Err(unauthenticated("unknown local service identity"));
    };
    let pinned = match entry.into_acl() {
        Ok(pinned) => pinned,
        Err(error) => {
            return Err(error);
        },
    };
    if !pinned.service_id.same_as(&identity.service_id) || !pinned.boot_epoch.same_as(
        &identity.boot_epoch,
    ) || !pinned.application_key_id.same_as(&identity.application_key_id) || !same_bytes(
        pinned.application_public_key.as_slice(),
        identity.signing_key.verifying_key().as_slice(),
    ) {
        return Err(
            unauthenticated("application identity does not match the pinned edge manifest"),
        );
    }
    Ok((identity, manifest))
}

/// A file that may hold an identity: regular, with nothing granted to group and other.
pub open spec fn identity_file_ok(facts: FileFacts) -> bool {
    facts.kind == FileKind::Regular && facts.mode & 0o077 == 0
}

pub fn require_private_identity_permissions(facts: &FileFacts) -> (r: Result<(), WireError>)
    ensures
        crate::error::outcome(r) == (if identity_file_ok(*facts) {
            Ok::<(), WireErrorView>(())
        } else {
            Err(
                unauthenticated_error(
                    "application identity must be a regular non-symlink file with mode 0600 or stricter"@,
                ),
            )
        }),
{
    if facts.kind != FileKind::Regular || facts.mode & 0o077 != 0 {
        return Err(
            unauthenticated(
                "application identity must be a regular non-symlink file with mode 0600 or stricter",
            ),
        );
    }
    Ok(())
}

/// A file that may hold the edge manifest: regular, owned by root, writable by root alone.
pub open spec fn manifest_file_ok(facts: FileFacts) -> bool {
    facts.kind == FileKind::Regular && facts.uid == 0 && facts.mode & 0o022 == 0
}

pub fn require_root_manifest_permissions(facts: &FileFacts) -> (r: Result<(), WireError>)
    ensures
        crate::error::outcome(r) == (if manifest_file_ok(*facts) {
            Ok::<(), WireErrorView>(())
        } else {
            Err(
                unauthenticated_error(
                    "edge manifest must be a root-owned, non-symlink file not writable by group or other"@,
                ),
            )
        }),
{
    if facts.kind != FileKind::Regular || facts.uid != 0 || facts.mode & 0o022 != 0 {
        return Err(
            unauthenticated(
                "edge manifest must be a root-owned, non-symlink file not writable by group or other",
            ),
        );
    }
    Ok(())
}

} // verus!
