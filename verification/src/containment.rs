//! Verification of the root-owned macOS packet-filter health attestation.

use vstd::prelude::*;
use vstd::string::*;

use crate::error::{WireError, WireErrorView};
use crate::files::{FileFacts, FileKind};
use crate::ids::Digest32;
use crate::sealing::{unavailable, unavailable_error};
use crate::text::same_text;

verus! {

pub const STATUS_SCHEMA: &'static str = "bloom.macos-platform-status.2";

pub const TRUSTED_TIME_SOURCE: &'static str = "macos-managed-timed";

pub const MAX_FUTURE_SKEW_MS: u64 = 1000;

/// A path of the file system, carried through unread.
#[verifier::external_type_specification]
#[verifier::external_body]
pub struct ExPathBuf(std::path::PathBuf);

/// Where the attestation lies, and what it must say.
#[derive(Debug)]
pub struct NetworkContainmentGuard {
    path: std::path::PathBuf,
    login_uid: u32,
    build_digest: Digest32,
    maximum_age_ms: u64,
}

/// What a [`NetworkContainmentGuard`] says.
pub struct GuardView {
    pub path: std::path::PathBuf,
    pub login_uid: u32,
    pub build_digest: Seq<char>,
    pub maximum_age_ms: u64,
}

impl View for NetworkContainmentGuard {
    type V = GuardView;

    closed spec fn view(&self) -> GuardView {
        GuardView {
            path: self.path,
            login_uid: self.login_uid,
            build_digest: self.build_digest@,
            maximum_age_ms: self.maximum_age_ms,
        }
    }
}

/// The attestation as its file holds it.
#[derive(Debug)]
pub struct NetworkContainmentStatus {
    pub schema: String,
    pub login_uid: u32,
    pub build_digest: Digest32,
    pub anchor_sha256: Digest32,
    pub trusted_time_source: String,
    pub automatic_time_enabled: bool,
    pub timed_service_loaded: bool,
    pub trusted_time_available: bool,
    pub checked_at_unix_ms: u64,
    pub available: bool,
}

/// The attestation is of this build and this user, says that everything is in place, and is
/// neither from the future, but for a small skew, nor too old.
pub open spec fn contained(
    status: NetworkContainmentStatus,
    login_uid: u32,
    build_digest: Seq<char>,
    now_ms: u64,
    maximum_age_ms: u64,
) -> bool {
    &&& status.schema@ == STATUS_SCHEMA@
    &&& status.login_uid == login_uid
    &&& status.build_digest@ == build_digest
    &&& status.trusted_time_source@ == TRUSTED_TIME_SOURCE@
    &&& status.automatic_time_enabled
    &&& status.timed_service_loaded
    &&& status.trusted_time_available
    &&& status.available
    &&& status.checked_at_unix_ms <= now_ms + MAX_FUTURE_SKEW_MS
    &&& now_ms - status.checked_at_unix_ms <= maximum_age_ms
}

/// Why an attestation is not enough, if it is not. One that did not parse is handed in as the
/// parser's text.
pub open spec fn status_check(
    status: Result<NetworkContainmentStatus, String>,
    login_uid: u32,
    build_digest: Seq<char>,
    now_ms: u64,
    maximum_age_ms: u64,
) -> Result<(), WireErrorView> {
    match status {
        Err(text) => Err(unavailable_error("decode containment status: "@ + text@)),
        Ok(status) => if contained(status, login_uid, build_digest, now_ms, maximum_age_ms) {
            Ok(())
        } else {
            Err(unavailable_error("root packet-filter containment is unavailable or stale"@))
        },
    }
}

pub fn validate_status(
    status: &Result<NetworkContainmentStatus, String>,
    login_uid: u32,
    build_digest: &Digest32,
    now_ms: u64,
    maximum_age_ms: u64,
) -> (r: Result<(), WireError>)
    ensures
        crate::error::outcome(r) == status_check(
            *status,
            login_uid,
            build_digest@,
            now_ms,
            maximum_age_ms,
        ),
{
    let status = match status {
        Ok(status) => status,
        Err(text) => {
            let mut message = "decode containment status: ".to_owned();
            message.append(text.as_str());
            return Err(unavailable(message.as_str()));
        },
    };
    if !same_text(status.schema.as_str(), STATUS_SCHEMA) || status.login_uid != login_uid
        || !status.build_digest.same_as(build_digest) || !same_text(
        status.trusted_time_source.as_str(),
        TRUSTED_TIME_SOURCE,
    ) || !status.automatic_time_enabled || !status.timed_service_loaded
        || !status.trusted_time_available || !status.available || status.checked_at_unix_ms
        > now_ms.saturating_add(MAX_FUTURE_SKEW_MS) || now_ms.saturating_sub(
        status.checked_at_unix_ms,
    ) > maximum_age_ms {
        return Err(unavailable("root packet-filter containment is unavailable or stale"));
    }
    Ok(())
}

/// A singly linked regular file of root's with mode `0644`.
pub open spec fn status_file_ok(facts: FileFacts) -> bool {
    &&& facts.kind == FileKind::Regular
    &&& facts.uid == 0
    &&& facts.gid == 0
    &&& facts.permissions() == 0o644
    &&& facts.links == 1
}

/// A guard watches over a user other than root and allows some age.
pub open spec fn guard_ok(login_uid: u32, maximum_age_ms: u64) -> bool {
    login_uid != 0 && maximum_age_ms != 0
}

/// The time of a check: a reading of at most 64 bits.
pub open spec fn time_of_check(millis: Option<u128>) -> Option<u64> {
    match millis {
        Some(ms) => if ms > u64::MAX {
            None
        } else {
            Some(ms as u64)
        },
        None => None,
    }
}

/// The time of a check, or why the wall clock gives none.
pub fn check_time(millis: Option<u128>) -> (r: Result<u64, WireError>)
    ensures
        match r {
            Ok(ms) => millis == Some(ms as u128),
            Err(e) => match millis {
                None => e@ == unavailable_error("system time precedes the Unix epoch"@),
                Some(ms) => ms > u64::MAX && e@ == unavailable_error(
                    "system time does not fit u64 milliseconds"@,
                ),
            },
        },
        match r {
            Ok(ms) => time_of_check(millis) == Some(ms),
            Err(_) => time_of_check(millis) is None,
        },
{
    match millis {
        None => Err(unavailable("system time precedes the Unix epoch")),
        Some(ms) => if ms > u64::MAX as u128 {
            Err(unavailable("system time does not fit u64 milliseconds"))
        } else {
            Ok(ms as u64)
        },
    }
}

impl NetworkContainmentGuard {
    pub fn new(
        path: std::path::PathBuf,
        login_uid: u32,
        build_digest: Digest32,
        maximum_age_ms: u64,
    ) -> (r: Result<Self, WireError>)
        ensures
            match r {
                Ok(guard) => login_uid != 0 && maximum_age_ms != 0 && guard@ == (GuardView {
                    path,
                    login_uid,
                    build_digest: build_digest@,
                    maximum_age_ms,
                }),
                Err(e) => (login_uid == 0 || maximum_age_ms == 0) && e@ == unavailable_error(
                    "invalid network-containment guard"@,
                ),
            },
            r is Ok == guard_ok(login_uid, maximum_age_ms),
    {
        if login_uid == 0 || maximum_age_ms == 0 {
            return Err(unavailable("invalid network-containment guard"));
        }
        Ok(NetworkContainmentGuard { path, login_uid, build_digest, maximum_age_ms })
    }

    /// Accepts the attestation's metadata, before it is read.
    pub fn check_metadata(&self, facts: &FileFacts) -> (r: Result<(), WireError>)
        ensures
            crate::error::outcome(r) == (if status_file_ok(*facts) {
                Ok::<(), WireErrorView>(())
            } else {
                Err(unavailable_error("network-containment status has unsafe metadata"@))
            }),
    {
        if facts.kind != FileKind::Regular || facts.uid != 0 || facts.gid != 0 || facts.mode
            & 0o7777 != 0o644 || facts.links != 1 {
            return Err(unavailable("network-containment status has unsafe metadata"));
        }
        Ok(())
    }

    /// Accepts the attestation.
    pub fn check(&self, status: &Result<NetworkContainmentStatus, String>, now_ms: u64) -> (r:
        Result<(), WireError>)
        ensures
            crate::error::outcome(r) == status_check(
                *status,
                self@.login_uid,
                self@.build_digest,
                now_ms,
                self@.maximum_age_ms,
            ),
    {
        validate_status(status, self.login_uid, &self.build_digest, now_ms, self.maximum_age_ms)
    }

    pub fn path(&self) -> (r: &std::path::PathBuf)
        ensures
            *r == self@.path,
    {
        &self.path
    }
}

} // verus!
