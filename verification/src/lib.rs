//! Verified core of the Bloom service triad.
//!
//! Machine, Broker and Signer talk over local sockets. This library holds what decides whether
//! they believe each other: the closed wire formats, signed envelopes and journal heads, the
//! mutual challenge, admission quotas, trusted time, independently retained audit checkpoints,
//! and what files, sockets and logs must look like before they are used. It performs no I/O but
//! for reading the wall clock and the operating system's random numbers: where the disk or a socket
//! is needed, a value says what to ask, and a function takes the answer.

pub mod activation;
pub mod activation_laws;
pub mod audit;
pub mod base64url;
pub mod bytes;
pub mod chain;
pub mod checkpoint;
pub mod clock_laws;
pub mod codec;
pub mod containment;
pub mod crypto;
pub mod decimal;
pub mod developer;
pub mod directory;
pub mod directory_laws;
pub mod envelope;
pub mod envelope_laws;
pub mod error;
pub mod exchange;
pub mod file_laws;
pub mod files;
pub mod frame_laws;
pub mod hello;
pub mod hello_laws;
pub mod hex_text;
pub mod history;
pub mod identity;
pub mod identity_laws;
pub mod ids;
pub mod json;
pub mod listener;
pub mod observability;
pub mod operation_laws;
pub mod peer_trust;
pub mod quota;
pub mod quota_laws;
pub mod record_laws;
pub mod refusal_laws;
pub mod restart;
pub mod sealing;
pub mod store;
pub mod store_laws;
pub mod text;
pub mod trust_laws;
pub mod trusted_time;
pub mod typed;
pub mod value_laws;
pub mod wire;

pub use activation::{ActivationError, NamedActivation};
pub use audit::SignedJournalHead;
pub use base64url::Base64UrlBytes;
pub use checkpoint::{
    ApplicationKeyHandover, AppendOutcome, CheckpointError, CheckpointRecord, CheckpointSink,
    PinnedAuditKey, VerifyingKey,
};
pub use codec::{
    decode_frame, encode_frame, FRAME_MAX_BYTES, JSON_MAX_DEPTH, JSON_MAX_LIST_LENGTH,
    JSON_MAX_STRING_BYTES,
};
pub use containment::NetworkContainmentGuard;
pub use envelope::{
    AuthenticatedPeer, EnvelopeKind, ProtocolVersion, SignedEnvelope, UnsignedEnvelope,
    RPC_ENVELOPE_SCHEMA_V1,
};
pub use error::{
    WireError, WireError as ProtocolError, WireErrorCode, WireErrorCode as ProtocolErrorCode,
};
pub use hello::HelloChallenge;
pub use history::AuthorityEdgeHistory;
pub use identity::{EdgeManifest, LocalIdentity, ManifestPeer, PeerAcl, SigningKey};
pub use ids::{BootEpoch, DecimalU256, DecimalU64, Digest32, OperationId, RequestNonce, Token};
pub use json::Json;
pub use observability::SecureLogFile;
pub use quota::{EndpointAdmission, EndpointQuota};
pub use sealing::{
    sign_journal_head, sign_request, sign_request_with_journal_head, sign_response,
    sign_response_with_journal_head,
};
pub use store::CheckpointStore;
pub use trusted_time::{
    evaluate_durable_clock, DurableClockCondition, DurableClockDecision, DurableClockError,
    PersistedClockState, PlatformTimeReading, PlatformTimeSampler, TrustedTimeError,
    TrustedTimeSource, MAX_FORWARD_STEP_MS,
};
pub use typed::TypedRequestMethod;
pub use wire::WireValue;
