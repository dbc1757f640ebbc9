use bloom_triad::developer::{
    check_developer_directory, check_developer_file_location, check_developer_user,
    require_developer_root, require_developer_security_file,
};
use bloom_triad::files::{FileFacts, FileKind};
use bloom_triad::identity::{
    decode_identity_and_manifest, require_private_identity_permissions,
    require_root_manifest_permissions, IdentityFile,
};
use bloom_triad::trusted_time::HostPlatform;
use bloom_triad::{EdgeManifest, ManifestPeer, ProtocolErrorCode, SigningKey, VerifyingKey};

fn hex(bytes: &[u8]) -> String {
    bytes.iter().map(|byte| format!("{byte:02x}")).collect()
}

fn identity_file() -> IdentityFile {
    IdentityFile {
        service_id: "bloom-machine".to_owned(),
        boot_epoch: "11".repeat(16),
        application_key_id: "machine-app".to_owned(),
        private_key_seed_hex: "42".repeat(32),
    }
}

fn peer(service_id: &str, key_id: &str) -> ManifestPeer {
    ManifestPeer {
        effective_uid: 501,
        service_id: service_id.to_owned(),
        boot_epoch: "11".repeat(16),
        application_key_id: key_id.to_owned(),
        application_public_key_hex: hex(&SigningKey::from_bytes(&[0x42; 32]).verifying_key()),
    }
}

fn manifest() -> EdgeManifest {
    EdgeManifest {
        schema: "bloom.edge-manifest.1".to_owned(),
        trusted_time_source: "linux-chrony-nts".to_owned(),
        machine: peer("bloom-machine", "machine-app"),
        broker: peer("bloom-broker", "broker-app"),
        signer: peer("bloom-signer", "signer-app"),
        revoke_client: peer("bloom-revoke-client", "revoke-app"),
        session: Some(peer("bloom-session", "session-app")),
        session_socket_gid: Some(501),
    }
}

#[test]
fn a_pinned_identity_is_accepted() {
    let (identity, _) =
        decode_identity_and_manifest(identity_file(), manifest(), HostPlatform::Linux, "bloom-machine").unwrap();
    assert_eq!(identity.service_id.as_str(), "bloom-machine");
    assert_eq!(
        identity.signing_key.verifying_key(),
        SigningKey::from_bytes(&[0x42; 32]).verifying_key()
    );
}

#[test]
fn an_identity_that_is_not_pinned_is_refused() {
    let refused = |file: IdentityFile, manifest: EdgeManifest, service: &str| {
        decode_identity_and_manifest(file, manifest, HostPlatform::Linux, service)
            .err()
            .expect("the identity is refused")
    };
    let mut other_key = identity_file();
    other_key.private_key_seed_hex = "43".repeat(32);
    assert_eq!(
        refused(other_key, manifest(), "bloom-machine").code,
        ProtocolErrorCode::UnauthenticatedPeer
    );
    let mut other_epoch = identity_file();
    other_epoch.boot_epoch = "12".repeat(16);
    assert_eq!(
        refused(other_epoch, manifest(), "bloom-machine").code,
        ProtocolErrorCode::UnauthenticatedPeer
    );
    refused(identity_file(), manifest(), "bloom-broker");
    refused(identity_file(), manifest(), "bloom-unknown");
    let mut short_seed = identity_file();
    short_seed.private_key_seed_hex = "42".to_owned();
    refused(short_seed, manifest(), "bloom-machine");
    let mut bad_seed = identity_file();
    bad_seed.private_key_seed_hex = "zz".repeat(32);
    refused(bad_seed, manifest(), "bloom-machine");
    let mut schema = manifest();
    schema.schema = "bloom.edge-manifest.0".to_owned();
    refused(identity_file(), schema, "bloom-machine");
}

#[test]
fn manifest_peers_become_acls() {
    let acl = peer("bloom-broker", "broker-app").into_acl().unwrap();
    assert_eq!(acl.effective_uid, 501);
    assert_eq!(
        acl.application_public_key,
        SigningKey::from_bytes(&[0x42; 32]).verifying_key()
    );
    let mut bad = peer("bloom-broker", "broker-app");
    bad.application_public_key_hex = "00".to_owned();
    assert!(bad.into_acl().is_err());
    let mut bad = peer("bloom-broker", "broker-app");
    bad.application_public_key_hex = "0g".repeat(32);
    assert!(bad.into_acl().is_err());
    assert!(peer("Bloom Broker", "broker-app").into_acl().is_err());
}

#[test]
fn keys_sign_what_they_verify() {
    let key = SigningKey::from_bytes(&[7; 32]);
    let public = VerifyingKey::from_bytes(&key.verifying_key()).unwrap();
    let signature = key.sign(b"message");
    assert!(public.verify(b"message", &signature));
    assert!(!public.verify(b"another", &signature));
    assert!(!public.verify(b"message", &[0; 64]));
    assert!(VerifyingKey::from_bytes(&[2; 32]).is_none());
}

fn file(mode: u32, uid: u32) -> FileFacts {
    FileFacts {
        kind: FileKind::Regular,
        device: 1,
        inode: 2,
        mode: 0o100000 | mode,
        uid,
        gid: uid,
        links: 1,
        size: 3,
        modified_secs: 4,
        modified_nanos: 5,
        changed_secs: 6,
        changed_nanos: 7,
    }
}

fn directory(mode: u32, uid: u32) -> FileFacts {
    FileFacts {
        kind: FileKind::Directory,
        mode: 0o040000 | mode,
        links: 2,
        ..file(mode, uid)
    }
}

#[test]
fn identity_and_manifest_files_have_strict_permissions() {
    require_private_identity_permissions(&file(0o600, 501)).unwrap();
    assert!(require_private_identity_permissions(&file(0o640, 501)).is_err());
    require_root_manifest_permissions(&file(0o644, 0)).unwrap();
    assert!(require_root_manifest_permissions(&file(0o664, 0)).is_err());
    assert!(require_root_manifest_permissions(&file(0o644, 501)).is_err());
    let mut linked = file(0o644, 0);
    linked.kind = FileKind::Symlink;
    assert!(require_root_manifest_permissions(&linked).is_err());
}

fn path(text: &str) -> Vec<Vec<u8>> {
    text.split('/').map(|part| part.as_bytes().to_vec()).collect()
}

#[test]
fn developer_files_stay_inside_a_private_root() {
    check_developer_user(501, true).unwrap();
    assert!(check_developer_user(0, true).is_err());
    assert!(check_developer_user(501, false).is_err());
    require_developer_root(&directory(0o700, 501), 501).unwrap();
    assert!(require_developer_root(&directory(0o750, 501), 501).is_err());
    assert!(require_developer_root(&directory(0o700, 501), 0).is_err());
    assert!(require_developer_root(&file(0o700, 501), 501).is_err());

    let root = path("/dev/root");
    let inside = path("/dev/root/a/b/identity.json");
    check_developer_file_location(&root, &inside, "identity").unwrap();
    assert!(check_developer_file_location(&root, &path("/dev/rooted/x"), "identity").is_err());
    let checked = require_developer_security_file(
        &root,
        &inside,
        &inside,
        &file(0o600, 501),
        501,
        "identity",
    )
    .unwrap();
    assert_eq!(checked, [5, 4]);
    assert!(require_developer_security_file(
        &root,
        &root,
        &root,
        &file(0o600, 501),
        501,
        "identity"
    )
    .is_err());

    let mut hardlinked = file(0o600, 501);
    hardlinked.links = 2;
    let mut linked = file(0o600, 501);
    linked.kind = FileKind::Symlink;
    for refused in [hardlinked, linked, file(0o640, 501), file(0o600, 502)] {
        assert!(require_developer_security_file(
            &root, &inside, &inside, &refused, 501, "identity"
        )
        .is_err());
    }
    let elsewhere = path("/dev/root/link.json");
    assert!(require_developer_security_file(
        &root,
        &elsewhere,
        &inside,
        &file(0o600, 501),
        501,
        "identity"
    )
    .is_err());
    check_developer_directory(&directory(0o700, 501), 501).unwrap();
    assert!(check_developer_directory(&directory(0o770, 501), 501).is_err());
    assert!(check_developer_directory(&directory(0o700, 0), 501).is_err());
}
