//! Canonical service logs: which files may be appended to, and when an event is complete.

use vstd::prelude::*;

use crate::files::{FileFacts, FileKind};

verus! {

/// Installer-owned identity and mode expected for a canonical service log.
#[derive(Debug)]
pub struct SecureLogFile {
    pub path: std::path::PathBuf,
    pub expected_uid: u32,
    pub expected_gid: u32,
    pub expected_mode: u32,
}

impl SecureLogFile {
    /// A log with mode `0640`.
    pub fn new(path: std::path::PathBuf, expected_uid: u32, expected_gid: u32) -> (r: Self)
        ensures
            r == (SecureLogFile { path, expected_uid, expected_gid, expected_mode: 0o640 }),
            r.expected_mode == default_log_mode(),
    {
        SecureLogFile { path, expected_uid, expected_gid, expected_mode: 0o640 }
    }

    pub fn with_mode(self, expected_mode: u32) -> (r: Self)
        ensures
            r == (SecureLogFile { expected_mode, ..self }),
    {
        SecureLogFile {
            path: self.path,
            expected_uid: self.expected_uid,
            expected_gid: self.expected_gid,
            expected_mode,
        }
    }
}

/// The permissions of a log where none are named.
pub open spec fn default_log_mode() -> u32 {
    0o640
}

/// Why a log destination is refused.
#[derive(Clone, Copy, Debug, PartialEq, Eq, Structural)]
pub enum LogFault {
    NotAbsolute,
    NotRegular,
    WrongOwner,
    WrongMode,
}

impl LogFault {
    /// The message for the operator.
    pub open spec fn text(self) -> Seq<char> {
        match self {
            LogFault::NotAbsolute => "log destination must be absolute"@,
            LogFault::NotRegular => "log destination is not a regular file"@,
            LogFault::WrongOwner => "log destination owner or group is unexpected"@,
            LogFault::WrongMode => "log destination mode is unexpected"@,
        }
    }

    pub fn message(self) -> (r: &'static str)
        ensures
            r@ == self.text(),
    {
        match self {
            LogFault::NotAbsolute => "log destination must be absolute",
            LogFault::NotRegular => "log destination is not a regular file",
            LogFault::WrongOwner => "log destination owner or group is unexpected",
            LogFault::WrongMode => "log destination mode is unexpected",
        }
    }
}

/// Accepts a destination that is named by an absolute path.
pub fn check_log_path(is_absolute: bool) -> (r: Result<(), LogFault>)
    ensures
        r == (if is_absolute {
            Ok::<(), LogFault>(())
        } else {
            Err(LogFault::NotAbsolute)
        }),
{
    if is_absolute {
        Ok(())
    } else {
        Err(LogFault::NotAbsolute)
    }
}

/// Why an opened file is not the expected log, if it is not.
pub open spec fn log_check(facts: FileFacts, expected: SecureLogFile) -> Result<(), LogFault> {
    if facts.kind != FileKind::Regular {
        Err(LogFault::NotRegular)
    } else if facts.uid != expected.expected_uid || facts.gid != expected.expected_gid {
        Err(LogFault::WrongOwner)
    } else if facts.permissions() != expected.expected_mode {
        Err(LogFault::WrongMode)
    } else {
        Ok(())
    }
}

/// Accepts an opened file that is the expected log.
pub fn validate_file(facts: &FileFacts, expected: &SecureLogFile) -> (r: Result<(), LogFault>)
    ensures
        r == log_check(*facts, *expected),
{
    if facts.kind != FileKind::Regular {
        return Err(LogFault::NotRegular);
    }
    if facts.uid != expected.expected_uid || facts.gid != expected.expected_gid {
        return Err(LogFault::WrongOwner);
    }
    if facts.mode & 0o7777 != expected.expected_mode {
        return Err(LogFault::WrongMode);
    }
    Ok(())
}

/// The bytes of an event that were written but not appended to the log yet.
#[derive(Debug)]
pub struct EventBuffer {
    bytes: Vec<u8>,
}

impl View for EventBuffer {
    type V = Seq<u8>;

    closed spec fn view(&self) -> Seq<u8> {
        self.bytes@
    }
}

impl EventBuffer {
    pub fn new() -> (r: Self)
        ensures
            r@ == Seq::<u8>::empty(),
    {
        EventBuffer { bytes: Vec::new() }
    }

    /// Adds bytes, and says whether the event is complete: it ends with a line feed.
    pub fn write(&mut self, bytes: &[u8]) -> (complete: bool)
        ensures
            final(self)@ == old(self)@ + bytes@,
            complete == (final(self)@.len() > 0 && final(self)@.last() == 10),
            complete == is_complete(final(self)@),
    {
        self.bytes.extend_from_slice(bytes);
        assert(self.bytes@ =~= old(self)@ + bytes@);
        self.bytes.len() > 0 && self.bytes[self.bytes.len() - 1] == 10
    }

    /// What is to be appended to the log.
    pub fn pending(&self) -> (r: &[u8])
        ensures
            r@ == self@,
    {
        self.bytes.as_slice()
    }

    /// Forgets what was appended to the log.
    pub fn clear(&mut self)
        ensures
            final(self)@ == Seq::<u8>::empty(),
    {
        self.bytes.clear();
    }
}

/// An event ends with a line feed.
pub open spec fn is_complete(held: Seq<u8>) -> bool {
    held.len() > 0 && held.last() == 10
}

/// A buffer that was cleared whenever an event was complete never holds more than one event: what
/// it holds has no line feed but at its end, as long as no write has one elsewhere.
pub proof fn law_events_stay_whole(held: Seq<u8>, written: Seq<u8>)
    requires
        forall|i: int| 0 <= i < held.len() ==> #[trigger] held[i] != 10,
        forall|i: int| 0 <= i < written.len() - 1 ==> #[trigger] written[i] != 10,
    ensures
        ({
            let now = held + written;
            &&& forall|i: int| 0 <= i < now.len() - 1 ==> #[trigger] now[i] != 10
            &&& !(now.len() > 0 && now.last() == 10) ==> forall|i: int|
                0 <= i < now.len() ==> #[trigger] now[i] != 10
        }),
{
    let now = held + written;
    assert forall|i: int| 0 <= i < now.len() - 1 implies #[trigger] now[i] != 10 by {
        if i < held.len() {
            assert(now[i] == held[i]);
        } else {
            assert(now[i] == written[i - held.len()]);
        }
    }
}

} // verus!
