//! Publication of a Unix listener in a service-owned endpoint directory.
//!
//! This is an explicit activation mode, not a fallback from OS activation. The parent must be a
//! real directory owned by the effective service UID with mode `0710`. Its group becomes the
//! socket group. Existing live sockets and unsafe stale entries are rejected.

use vstd::prelude::*;
use vstd::string::*;

use crate::activation::{ActivationError, ActivationErrorView};
use crate::decimal::push_decimal;
use crate::files::{FileFacts, FileKind};

verus! {

/// The path at which a listener is to be published, and the user that owns it.
#[derive(Debug)]
pub struct ListenerPath {
    pub is_absolute: bool,
    pub has_file_name: bool,
    pub has_parent: bool,
    /// The file name, where it is UTF-8.
    pub file_name: Option<String>,
    /// The path, its parent and the temporary path beside it, as they are shown.
    pub shown: String,
    pub shown_parent: String,
    pub shown_temporary: String,
    pub effective_uid: u32,
}

/// The name beside an endpoint's own that belongs to one process.
pub open spec fn temporary_name_of(file_name: Seq<char>, pid: u32) -> Seq<char> {
    "."@ + file_name + ".new."@ + crate::decimal::decimal_chars(pid as nat)
}

/// The name under which a process binds its listener before it is published.
pub fn temporary_name(file_name: &str, pid: u32) -> (r: String)
    ensures
        r@ == "."@ + file_name@ + ".new."@ + crate::decimal::decimal_chars(pid as nat),
        r@ == temporary_name_of(file_name@, pid),
{
    let mut name = ".".to_owned();
    name.append(file_name);
    name.append(".new.");
    push_decimal(&mut name, pid as u64);
    name
}

/// What is asked of the operating system next, or how the work ended.
#[derive(Debug)]
pub enum BindAction {
    /// Read the parent's metadata: [`BindReply::Facts`].
    StatParent,
    /// Read the endpoint's metadata: [`BindReply::Facts`] or [`BindReply::Missing`].
    StatEndpoint,
    /// Connect to the endpoint: [`BindReply::Connected`], [`BindReply::Refused`] or
    /// [`BindReply::NotConnected`].
    Connect,
    /// Remove the endpoint: [`BindReply::Done`].
    RemoveStale,
    /// Look for the temporary path: [`BindReply::Facts`] or [`BindReply::Missing`], whatever
    /// prevents its metadata.
    StatTemporary,
    /// Bind a listener at the temporary path: [`BindReply::Done`].
    Bind,
    /// Set the temporary path's mode to `0660`: [`BindReply::Done`].
    SetMode,
    /// Set the temporary path's group: [`BindReply::Done`].
    SetGroup(u32),
    /// Read the temporary path's metadata: [`BindReply::Facts`].
    StatNew,
    /// Rename the temporary path to the endpoint: [`BindReply::Done`].
    Publish,
    /// Read the published endpoint's metadata: [`BindReply::Facts`].
    StatPublished,
    /// Make the listener nonblocking: [`BindReply::Done`].
    SetNonblocking,
    Listening,
    /// The work failed; the temporary path is to be removed where `cleanup` is set.
    Failed { error: ActivationError, cleanup: bool },
}

/// What the operating system answered. Every request may also fail.
#[derive(Debug)]
pub enum BindReply {
    Facts(FileFacts),
    Missing,
    Connected,
    Refused,
    /// The connection failed otherwise, with this text.
    NotConnected(String),
    Done,
    Failed(std::io::Error),
}

/// Which request is outstanding.
#[derive(Clone, Copy, Debug, PartialEq, Eq, Structural)]
pub enum BindPhase {
    Parent,
    Endpoint,
    Connecting,
    Removing,
    Temporary,
    Binding,
    Mode,
    Group,
    New,
    Publishing,
    Published,
    Nonblocking,
    Done,
}

/// The publication of a listener, as far as it has come.
#[derive(Debug)]
pub struct BindTask {
    path: ListenerPath,
    phase: BindPhase,
    gid: u32,
}

/// What a [`BindTask`] says.
pub struct BindView {
    pub path: ListenerPath,
    pub phase: BindPhase,
    /// The parent's group, once it was read.
    pub gid: u32,
}

impl View for BindTask {
    type V = BindView;

    closed spec fn view(&self) -> BindView {
        BindView { path: self.path, phase: self.phase, gid: self.gid }
    }
}

/// What a [`BindAction`] says.
pub enum BindActionView {
    StatParent,
    StatEndpoint,
    Connect,
    RemoveStale,
    StatTemporary,
    Bind,
    SetMode,
    SetGroup(u32),
    StatNew,
    Publish,
    StatPublished,
    SetNonblocking,
    Listening,
    Failed { error: ActivationErrorView, cleanup: bool },
}

impl View for BindAction {
    type V = BindActionView;

    open spec fn view(&self) -> BindActionView {
        match *self {
            BindAction::StatParent => BindActionView::StatParent,
            BindAction::StatEndpoint => BindActionView::StatEndpoint,
            BindAction::Connect => BindActionView::Connect,
            BindAction::RemoveStale => BindActionView::RemoveStale,
            BindAction::StatTemporary => BindActionView::StatTemporary,
            BindAction::Bind => BindActionView::Bind,
            BindAction::SetMode => BindActionView::SetMode,
            BindAction::SetGroup(gid) => BindActionView::SetGroup(gid),
            BindAction::StatNew => BindActionView::StatNew,
            BindAction::Publish => BindActionView::Publish,
            BindAction::StatPublished => BindActionView::StatPublished,
            BindAction::SetNonblocking => BindActionView::SetNonblocking,
            BindAction::Listening => BindActionView::Listening,
            BindAction::Failed { error, cleanup } => BindActionView::Failed {
                error: error@,
                cleanup,
            },
        }
    }
}

/// A directory that the user owns with mode `0710`.
pub open spec fn endpoint_directory_ok(facts: FileFacts, uid: u32) -> bool {
    facts.kind == FileKind::Directory && facts.uid == uid && facts.mode & 0o777 == 0o710
}

/// A singly linked socket that the user owns.
pub open spec fn stale_socket_ok(facts: FileFacts, uid: u32) -> bool {
    facts.kind == FileKind::Socket && facts.uid == uid && facts.links == 1
}

/// A singly linked socket of the user and the group with mode `0660`.
pub open spec fn endpoint_ok(facts: FileFacts, uid: u32, gid: u32) -> bool {
    &&& facts.kind == FileKind::Socket
    &&& facts.uid == uid
    &&& facts.gid == gid
    &&& facts.mode & 0o777 == 0o660
    &&& facts.links == 1
}

pub open spec fn reject(text: Seq<char>) -> ActivationErrorView {
    ActivationErrorView::Rejected(text)
}

/// The task in its next phase, and the next request.
pub struct BindStep {
    pub task: BindView,
    pub action: BindActionView,
}

pub open spec fn bind_wait(task: BindView, phase: BindPhase, action: BindActionView) -> BindStep {
    BindStep { task: BindView { phase, ..task }, action }
}

pub open spec fn bind_fail(task: BindView, error: ActivationErrorView, cleanup: bool) -> BindStep {
    bind_wait(task, BindPhase::Done, BindActionView::Failed { error, cleanup })
}

/// Once the listener is bound, whatever fails leaves its temporary path to be removed.
pub open spec fn is_bound(phase: BindPhase) -> bool {
    match phase {
        BindPhase::Mode => true,
        BindPhase::Group => true,
        BindPhase::New => true,
        BindPhase::Publishing => true,
        BindPhase::Published => true,
        BindPhase::Nonblocking => true,
        _ => false,
    }
}

/// What follows once nothing stands at the endpoint.
pub open spec fn endpoint_free(task: BindView) -> BindStep {
    match task.path.file_name {
        None => bind_fail(task, reject("socket filename is not UTF-8"@), false),
        Some(_) => bind_wait(task, BindPhase::Temporary, BindActionView::StatTemporary),
    }
}

pub open spec fn unsafe_endpoint(description: Seq<char>, shown: Seq<char>) -> ActivationErrorView {
    reject(description + " "@ + shown + " has unsafe type, ownership, mode, or link count"@)
}

/// What follows on a reply.
pub open spec fn bind_next(task: BindView, reply: BindReply) -> BindStep {
    let uid = task.path.effective_uid;
    match (task.phase, reply) {
        (_, BindReply::Failed(error)) => bind_fail(
            task,
            ActivationErrorView::Io(error),
            is_bound(task.phase),
        ),
        (BindPhase::Parent, BindReply::Facts(facts)) => if !endpoint_directory_ok(facts, uid) {
            bind_fail(
                task,
                reject(
                    "endpoint directory "@ + task.path.shown_parent@
                        + " must be a non-symlink directory owned by effective UID "@
                        + crate::decimal::decimal_chars(uid as nat) + " with mode 0710"@,
                ),
                false,
            )
        } else {
            bind_wait(
                BindView { gid: facts.gid, ..task },
                BindPhase::Endpoint,
                BindActionView::StatEndpoint,
            )
        },
        (BindPhase::Endpoint, BindReply::Missing) => endpoint_free(task),
        (BindPhase::Endpoint, BindReply::Facts(facts)) => if !stale_socket_ok(facts, uid) {
            bind_fail(
                task,
                reject(
                    "existing endpoint "@ + task.path.shown@
                        + " is not a singly-linked socket owned by effective UID "@
                        + crate::decimal::decimal_chars(uid as nat),
                ),
                false,
            )
        } else {
            bind_wait(task, BindPhase::Connecting, BindActionView::Connect)
        },
        (BindPhase::Connecting, BindReply::Connected) => bind_fail(
            task,
            reject("existing endpoint "@ + task.path.shown@ + " is live"@),
            false,
        ),
        (BindPhase::Connecting, BindReply::Refused) => bind_wait(
            task,
            BindPhase::Removing,
            BindActionView::RemoveStale,
        ),
        (BindPhase::Connecting, BindReply::NotConnected(text)) => bind_fail(
            task,
            reject(
                "cannot prove existing endpoint "@ + task.path.shown@ + " is stale: "@ + text@,
            ),
            false,
        ),
        (BindPhase::Removing, BindReply::Done) => endpoint_free(task),
        (BindPhase::Temporary, BindReply::Facts(_)) => bind_fail(
            task,
            reject("temporary endpoint "@ + task.path.shown_temporary@ + " already exists"@),
            false,
        ),
        (BindPhase::Temporary, BindReply::Missing) => bind_wait(
            task,
            BindPhase::Binding,
            BindActionView::Bind,
        ),
        (BindPhase::Binding, BindReply::Done) => bind_wait(
            task,
            BindPhase::Mode,
            BindActionView::SetMode,
        ),
        (BindPhase::Mode, BindReply::Done) => bind_wait(
            task,
            BindPhase::Group,
            BindActionView::SetGroup(task.gid),
        ),
        (BindPhase::Group, BindReply::Done) => bind_wait(
            task,
            BindPhase::New,
            BindActionView::StatNew,
        ),
        (BindPhase::New, BindReply::Facts(facts)) => if !endpoint_ok(facts, uid, task.gid) {
            bind_fail(
                task,
                unsafe_endpoint("new endpoint"@, task.path.shown_temporary@),
                true,
            )
        } else {
            bind_wait(task, BindPhase::Publishing, BindActionView::Publish)
        },
        (BindPhase::Publishing, BindReply::Done) => bind_wait(
            task,
            BindPhase::Published,
            BindActionView::StatPublished,
        ),
        (BindPhase::Published, BindReply::Facts(facts)) => if !endpoint_ok(facts, uid, task.gid) {
            bind_fail(task, unsafe_endpoint("published endpoint"@, task.path.shown@), true)
        } else {
            bind_wait(task, BindPhase::Nonblocking, BindActionView::SetNonblocking)
        },
        (BindPhase::Nonblocking, BindReply::Done) => bind_wait(
            task,
            BindPhase::Done,
            BindActionView::Listening,
        ),
        _ => bind_fail(
            task,
            reject("endpoint reply does not answer the request"@),
            is_bound(task.phase),
        ),
    }
}

/// How the publication begins.
pub open spec fn bind_begin(path: ListenerPath) -> BindStep {
    let task = BindView { path, phase: BindPhase::Parent, gid: 0 };
    if !path.is_absolute || !path.has_file_name {
        bind_fail(
            task,
            reject("owned Unix listener path must be an absolute file path"@),
            false,
        )
    } else if !path.has_parent {
        bind_fail(task, reject("owned Unix listener path has no parent"@), false)
    } else {
        bind_wait(task, BindPhase::Parent, BindActionView::StatParent)
    }
}

/// A listener is reported only behind a published endpoint whose metadata is exact, and a live
/// or foreign endpoint is never removed.
pub proof fn law_only_safe_endpoints_are_touched(task: BindView, reply: BindReply)
    ensures
        bind_next(task, reply).action is SetNonblocking ==> (reply matches BindReply::Facts(facts)
            && endpoint_ok(facts, task.path.effective_uid, task.gid)),
        bind_next(task, reply).action is RemoveStale ==> reply is Refused,
        bind_next(task, reply).action is Connect ==> (reply matches BindReply::Facts(facts)
            && stale_socket_ok(facts, task.path.effective_uid)),
        bind_next(task, reply).action is Listening ==> task.phase == BindPhase::Nonblocking,
{
}

fn rejection(text: &str, cleanup: bool) -> (r: BindAction)
    ensures
        r@ == (BindActionView::Failed { error: reject(text@), cleanup }),
{
    BindAction::Failed { error: ActivationError::Rejected(text.to_owned()), cleanup }
}

impl BindTask {
    /// Begins to publish a listener.
    pub fn start(path: ListenerPath) -> (r: (Self, BindAction))
        ensures
            (BindStep { task: r.0@, action: r.1@ }) == bind_begin(path),
    {
        let absolute_file = path.is_absolute && path.has_file_name;
        let has_parent = path.has_parent;
        let mut task = BindTask { path, phase: BindPhase::Parent, gid: 0 };
        if !absolute_file {
            task.phase = BindPhase::Done;
            return (
                task,
                rejection("owned Unix listener path must be an absolute file path", false),
            );
        }
        if !has_parent {
            task.phase = BindPhase::Done;
            return (task, rejection("owned Unix listener path has no parent", false));
        }
        (task, BindAction::StatParent)
    }

    fn parent_read(&mut self, facts: &FileFacts) -> (r: BindAction)
        requires
            old(self)@.phase == BindPhase::Parent,
        ensures
            (BindStep { task: final(self)@, action: r@ }) == bind_next(
                old(self)@,
                BindReply::Facts(*facts),
            ),
    {
        let uid: u32 = self.path.effective_uid;
        if facts.kind != FileKind::Directory || facts.uid != uid || facts.mode & 0o777 != 0o710 {
            let mut text = "endpoint directory ".to_owned();
            text.append(self.path.shown_parent.as_str());
            text.append(" must be a non-symlink directory owned by effective UID ");
            push_decimal(&mut text, uid as u64);
            text.append(" with mode 0710");
            self.phase = BindPhase::Done;
            return rejection(text.as_str(), false);
        }
        self.gid = facts.gid;
        self.phase = BindPhase::Endpoint;
        BindAction::StatEndpoint
    }

    fn free_endpoint(&mut self) -> (r: BindAction)
        ensures
            (BindStep { task: final(self)@, action: r@ }) == endpoint_free(old(self)@),
    {
        if self.path.file_name.is_none() {
            self.phase = BindPhase::Done;
            return rejection("socket filename is not UTF-8", false);
        }
        self.phase = BindPhase::Temporary;
        BindAction::StatTemporary
    }

    fn endpoint_read(&mut self, facts: &FileFacts) -> (r: BindAction)
        requires
            old(self)@.phase == BindPhase::Endpoint,
        ensures
            (BindStep { task: final(self)@, action: r@ }) == bind_next(
                old(self)@,
                BindReply::Facts(*facts),
            ),
    {
        let uid: u32 = self.path.effective_uid;
        if facts.kind != FileKind::Socket || facts.uid != uid || facts.links != 1 {
            let mut text = "existing endpoint ".to_owned();
            text.append(self.path.shown.as_str());
            text.append(" is not a singly-linked socket owned by effective UID ");
            push_decimal(&mut text, uid as u64);
            self.phase = BindPhase::Done;
            return rejection(text.as_str(), false);
        }
        self.phase = BindPhase::Connecting;
        BindAction::Connect
    }

    fn connection_tried(&mut self, reply: &BindReply) -> (r: BindAction)
        requires
            old(self)@.phase == BindPhase::Connecting,
            reply is Connected || reply is Refused || reply is NotConnected,
        ensures
            (BindStep { task: final(self)@, action: r@ }) == bind_next(old(self)@, *reply),
    {
        match reply {
            BindReply::Refused => {
                self.phase = BindPhase::Removing;
                BindAction::RemoveStale
            },
            BindReply::NotConnected(error) => {
                let mut text = "cannot prove existing endpoint ".to_owned();
                text.append(self.path.shown.as_str());
                text.append(" is stale: ");
                text.append(error.as_str());
                self.phase = BindPhase::Done;
                rejection(text.as_str(), false)
            },
            _ => {
                let mut text = "existing endpoint ".to_owned();
                text.append(self.path.shown.as_str());
                text.append(" is live");
                self.phase = BindPhase::Done;
                rejection(text.as_str(), false)
            },
        }
    }

    /// Whether an endpoint's metadata is exact.
    fn endpoint_exact(&self, facts: &FileFacts) -> (r: bool)
        ensures
            r == endpoint_ok(*facts, self@.path.effective_uid, self@.gid),
    {
        facts.kind == FileKind::Socket && facts.uid == self.path.effective_uid && facts.gid
            == self.gid && facts.mode & 0o777 == 0o660 && facts.links == 1
    }

    fn new_read(&mut self, facts: &FileFacts) -> (r: BindAction)
        requires
            old(self)@.phase == BindPhase::New,
        ensures
            (BindStep { task: final(self)@, action: r@ }) == bind_next(
                old(self)@,
                BindReply::Facts(*facts),
            ),
    {
        if !self.endpoint_exact(facts) {
            let text = unsafe_text("new endpoint", self.path.shown_temporary.as_str());
            self.phase = BindPhase::Done;
            return rejection(text.as_str(), true);
        }
        self.phase = BindPhase::Publishing;
        BindAction::Publish
    }

    fn published_read(&mut self, facts: &FileFacts) -> (r: BindAction)
        requires
            old(self)@.phase == BindPhase::Published,
        ensures
            (BindStep { task: final(self)@, action: r@ }) == bind_next(
                old(self)@,
                BindReply::Facts(*facts),
            ),
    {
        if !self.endpoint_exact(facts) {
            let text = unsafe_text("published endpoint", self.path.shown.as_str());
            self.phase = BindPhase::Done;
            return rejection(text.as_str(), true);
        }
        self.phase = BindPhase::Nonblocking;
        BindAction::SetNonblocking
    }

    /// Goes on with the publication on an answer of the operating system.
    pub fn answer(&mut self, reply: BindReply) -> (r: BindAction)
        ensures
            (BindStep { task: final(self)@, action: r@ }) == bind_next(old(self)@, reply),
    {
        let phase = self.phase;
        let cleanup = match phase {
            BindPhase::Mode => true,
            BindPhase::Group => true,
            BindPhase::New => true,
            BindPhase::Publishing => true,
            BindPhase::Published => true,
            BindPhase::Nonblocking => true,
            _ => false,
        };
        match (phase, reply) {
            (_, BindReply::Failed(error)) => {
                self.phase = BindPhase::Done;
                BindAction::Failed { error: ActivationError::Io(error), cleanup }
            },
            (BindPhase::Parent, BindReply::Facts(facts)) => self.parent_read(&facts),
            (BindPhase::Endpoint, BindReply::Missing) => self.free_endpoint(),
            (BindPhase::Endpoint, BindReply::Facts(facts)) => self.endpoint_read(&facts),
            (BindPhase::Connecting, BindReply::Connected) => self.connection_tried(
                &BindReply::Connected,
            ),
            (BindPhase::Connecting, BindReply::Refused) => self.connection_tried(
                &BindReply::Refused,
            ),
            (BindPhase::Connecting, BindReply::NotConnected(text)) => self.connection_tried(
                &BindReply::NotConnected(text),
            ),
            (BindPhase::Removing, BindReply::Done) => self.free_endpoint(),
            (BindPhase::Temporary, BindReply::Facts(_)) => {
                let mut text = "temporary endpoint ".to_owned();
                text.append(self.path.shown_temporary.as_str());
                text.append(" already exists");
                self.phase = BindPhase::Done;
                rejection(text.as_str(), false)
            },
            (BindPhase::Temporary, BindReply::Missing) => {
                self.phase = BindPhase::Binding;
                BindAction::Bind
            },
            (BindPhase::Binding, BindReply::Done) => {
                self.phase = BindPhase::Mode;
                BindAction::SetMode
            },
            (BindPhase::Mode, BindReply::Done) => {
                self.phase = BindPhase::Group;
                BindAction::SetGroup(self.gid)
            },
            (BindPhase::Group, BindReply::Done) => {
                self.phase = BindPhase::New;
                BindAction::StatNew
            },
            (BindPhase::New, BindReply::Facts(facts)) => self.new_read(&facts),
            (BindPhase::Publishing, BindReply::Done) => {
                self.phase = BindPhase::Published;
                BindAction::StatPublished
            },
            (BindPhase::Published, BindReply::Facts(facts)) => self.published_read(&facts),
            (BindPhase::Nonblocking, BindReply::Done) => {
                self.phase = BindPhase::Done;
                BindAction::Listening
            },
            _ => {
                self.phase = BindPhase::Done;
                rejection("endpoint reply does not answer the request", cleanup)
            },
        }
    }
}

fn unsafe_text(description: &str, shown: &str) -> (r: String)
    ensures
        reject(r@) == unsafe_endpoint(description@, shown@),
{
    let mut text = description.to_owned();
    text.append(" ");
    text.append(shown);
    text.append(" has unsafe type, ownership, mode, or link count");
    text
}

} // verus!
