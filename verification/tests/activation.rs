use bloom_triad::activation::{activated_names, check_listener_name, parse_number, split_at_colons};
use bloom_triad::files::{FileFacts, FileKind};
use bloom_triad::listener::{temporary_name, BindAction, BindReply, BindTask, ListenerPath};
use bloom_triad::observability::{check_log_path, validate_file, EventBuffer, LogFault};
use bloom_triad::{ActivationError, NamedActivation, SecureLogFile};
use std::path::PathBuf;

fn rejection<T>(result: Result<T, ActivationError>) -> String {
    match result {
        Err(ActivationError::Rejected(text)) => text,
        Err(ActivationError::Io(error)) => panic!("{error}"),
        Ok(_) => panic!("the activation was accepted"),
    }
}

#[test]
fn two_named_listeners_are_selected_and_consumed_independently() {
    let mut activation = NamedActivation::new(vec![
        ("signer".to_owned(), "/run/signer.sock"),
        ("signer-control".to_owned(), "/run/signer-control.sock"),
    ])
    .unwrap();
    assert_eq!(
        activation.take("signer-control").unwrap(),
        "/run/signer-control.sock"
    );
    assert_eq!(activation.take("signer").unwrap(), "/run/signer.sock");
    assert_eq!(
        rejection(activation.take("signer")),
        "activation socket \"signer\" was not provided or was already consumed"
    );
}

#[test]
fn listener_names_are_valid_and_unique() {
    check_listener_name("signer").unwrap();
    for invalid in ["", "sig\0ner"] {
        assert_eq!(
            rejection(check_listener_name(invalid)),
            "activation socket name is invalid"
        );
        assert_eq!(
            rejection(NamedActivation::new(vec![(invalid.to_owned(), 3)])),
            "activation socket name is invalid"
        );
    }
    assert_eq!(
        rejection(NamedActivation::new(vec![
            ("a\"b".to_owned(), 3),
            ("a\"b".to_owned(), 4),
        ])),
        "activation socket name \"a\\\"b\" is duplicated"
    );
}

fn names(pid: Option<&str>, fds: Option<&str>, names: Option<&str>) -> Result<Vec<String>, String> {
    activated_names(
        &pid.map(str::to_owned),
        42,
        &fds.map(str::to_owned),
        &names.map(str::to_owned),
    )
}

#[test]
fn activation_environment_is_checked_in_order() {
    assert_eq!(
        names(Some("42"), Some("2"), Some("signer:signer-control")).unwrap(),
        ["signer", "signer-control"]
    );
    assert_eq!(names(Some("+42"), Some("01"), Some("")).unwrap(), [""]);
    for missing in [None, Some("x"), Some(""), Some("-1"), Some("18446744073709551616")] {
        assert_eq!(
            names(Some("42"), missing, Some("a")).unwrap_err(),
            "systemd LISTEN_FDS is missing or invalid"
        );
    }
    for foreign in [None, Some("41"), Some("4294967338"), Some("forty-two")] {
        assert_eq!(
            names(foreign, Some("0"), None).unwrap_err(),
            "systemd LISTEN_PID does not identify this process"
        );
    }
    for count in ["0", "1025"] {
        assert_eq!(
            names(Some("42"), Some(count), None).unwrap_err(),
            "systemd LISTEN_FDS is outside the reviewed range"
        );
    }
    assert_eq!(
        names(Some("42"), Some("1"), None).unwrap_err(),
        "systemd LISTEN_FDNAMES is missing"
    );
    assert_eq!(
        names(Some("42"), Some("1"), Some("a:b")).unwrap_err(),
        "systemd descriptor count and name count differ"
    );
}

#[test]
fn numbers_and_names_are_split_as_written() {
    assert_eq!(parse_number("0007"), Some(7));
    assert_eq!(parse_number("+7"), Some(7));
    assert_eq!(parse_number("+"), None);
    assert_eq!(parse_number("7 "), None);
    assert_eq!(parse_number("18446744073709551615"), Some(u64::MAX));
    assert_eq!(split_at_colons("a::b:"), ["a", "", "b", ""]);
    assert_eq!(split_at_colons(""), [""]);
}

fn facts(kind: FileKind, mode: u32) -> FileFacts {
    FileFacts {
        kind,
        device: 1,
        inode: 2,
        mode,
        uid: 501,
        gid: 20,
        links: 1,
        size: 0,
        modified_secs: 0,
        modified_nanos: 0,
        changed_secs: 0,
        changed_nanos: 0,
    }
}

fn endpoint() -> ListenerPath {
    ListenerPath {
        is_absolute: true,
        has_file_name: true,
        has_parent: true,
        file_name: Some("broker.sock".to_owned()),
        shown: "/run/edge/broker.sock".to_owned(),
        shown_parent: "/run/edge".to_owned(),
        shown_temporary: "/run/edge/.broker.sock.new.42".to_owned(),
        effective_uid: 501,
    }
}

/// The metadata that the operating system reports while a listener is published.
struct Host {
    parent: FileFacts,
    existing: Option<FileFacts>,
    live: bool,
    group: u32,
}

impl Host {
    fn new() -> Self {
        Host {
            parent: facts(FileKind::Directory, 0o040710),
            existing: None,
            live: false,
            group: 0,
        }
    }

    fn publish(&mut self, path: ListenerPath) -> (Vec<String>, BindAction) {
        let (mut task, mut action) = BindTask::start(path);
        let mut asked = Vec::new();
        loop {
            let mut socket = facts(FileKind::Socket, 0o140660);
            socket.gid = self.group;
            let reply = match &action {
                BindAction::StatParent => BindReply::Facts(self.parent),
                BindAction::StatEndpoint => match self.existing {
                    Some(facts) => BindReply::Facts(facts),
                    None => BindReply::Missing,
                },
                BindAction::Connect if self.live => BindReply::Connected,
                BindAction::Connect => BindReply::Refused,
                BindAction::RemoveStale => {
                    self.existing = None;
                    BindReply::Done
                }
                BindAction::StatTemporary => BindReply::Missing,
                BindAction::SetGroup(gid) => {
                    self.group = *gid;
                    BindReply::Done
                }
                BindAction::StatNew | BindAction::StatPublished => BindReply::Facts(socket),
                BindAction::Bind
                | BindAction::SetMode
                | BindAction::Publish
                | BindAction::SetNonblocking => BindReply::Done,
                BindAction::Listening | BindAction::Failed { .. } => return (asked, action),
            };
            asked.push(format!("{action:?}"));
            action = task.answer(reply);
        }
    }
}

fn failure(action: BindAction) -> (String, bool) {
    match action {
        BindAction::Failed {
            error: ActivationError::Rejected(text),
            cleanup,
        } => (text, cleanup),
        other => panic!("the work ended in {other:?}"),
    }
}

#[test]
fn owned_listener_publishes_exact_edge_metadata_and_rejects_live_replacement() {
    let host = &mut Host::new();
    let (asked, end) = host.publish(endpoint());
    assert!(matches!(end, BindAction::Listening));
    assert_eq!(
        asked,
        [
            "StatParent",
            "StatEndpoint",
            "StatTemporary",
            "Bind",
            "SetMode",
            "SetGroup(20)",
            "StatNew",
            "Publish",
            "StatPublished",
            "SetNonblocking",
        ]
    );
    assert_eq!(host.group, 20);

    host.existing = Some(facts(FileKind::Socket, 0o140660));
    host.live = true;
    let (_, end) = host.publish(endpoint());
    assert_eq!(
        failure(end),
        ("existing endpoint /run/edge/broker.sock is live".to_owned(), false)
    );
}

#[test]
fn owned_listener_replaces_only_a_safe_stale_socket() {
    let host = &mut Host::new();
    host.existing = Some(facts(FileKind::Socket, 0o140660));
    let (asked, end) = host.publish(endpoint());
    assert!(matches!(end, BindAction::Listening));
    assert!(asked.contains(&"RemoveStale".to_owned()));

    let mut twice_linked = facts(FileKind::Socket, 0o140660);
    twice_linked.links = 2;
    let mut foreign = facts(FileKind::Socket, 0o140660);
    foreign.uid = 0;
    for unsafe_socket in [twice_linked, foreign] {
        host.existing = Some(unsafe_socket);
        let (asked, end) = host.publish(endpoint());
        assert!(failure(end).0.contains("not a singly-linked socket"));
        assert!(!asked.contains(&"RemoveStale".to_owned()));
    }
}

#[test]
fn owned_listener_rejects_non_socket_substitution() {
    let host = &mut Host::new();
    host.existing = Some(facts(FileKind::Regular, 0o100644));
    let (_, end) = host.publish(endpoint());
    assert_eq!(
        failure(end).0,
        "existing endpoint /run/edge/broker.sock is not a singly-linked socket owned by effective \
         UID 501"
    );
}

#[test]
fn owned_listener_needs_a_safe_path_and_directory() {
    let host = &mut Host::new();
    let mut relative = endpoint();
    relative.is_absolute = false;
    assert_eq!(
        failure(host.publish(relative).1).0,
        "owned Unix listener path must be an absolute file path"
    );
    let mut orphan = endpoint();
    orphan.has_parent = false;
    assert_eq!(
        failure(host.publish(orphan).1).0,
        "owned Unix listener path has no parent"
    );
    let mut unnamed = endpoint();
    unnamed.file_name = None;
    assert_eq!(
        failure(host.publish(unnamed).1).0,
        "socket filename is not UTF-8"
    );
    host.parent.mode = 0o040750;
    assert_eq!(
        failure(host.publish(endpoint()).1).0,
        "endpoint directory /run/edge must be a non-symlink directory owned by effective UID 501 \
         with mode 0710"
    );
}

#[test]
fn a_bound_listener_that_fails_leaves_nothing_behind() {
    let (mut task, _) = BindTask::start(endpoint());
    let mut action = task.answer(BindReply::Facts(facts(FileKind::Directory, 0o040710)));
    for reply in [
        BindReply::Missing,
        BindReply::Missing,
        BindReply::Done,
        BindReply::Done,
        BindReply::Done,
    ] {
        action = task.answer(reply);
    }
    assert!(matches!(action, BindAction::StatNew));
    let (text, cleanup) = failure(task.answer(BindReply::Facts(facts(FileKind::Socket, 0o140777))));
    assert_eq!(
        text,
        "new endpoint /run/edge/.broker.sock.new.42 has unsafe type, ownership, mode, or link count"
    );
    assert!(cleanup);

    let (mut task, _) = BindTask::start(endpoint());
    let failed = task.answer(BindReply::Failed(std::io::Error::new(
        std::io::ErrorKind::PermissionDenied,
        "no",
    )));
    assert!(matches!(
        failed,
        BindAction::Failed { error: ActivationError::Io(_), cleanup: false }
    ));

    let (mut task, _) = BindTask::start(endpoint());
    task.answer(BindReply::Facts(facts(FileKind::Directory, 0o040710)));
    task.answer(BindReply::Facts(facts(FileKind::Socket, 0o140660)));
    assert_eq!(
        failure(task.answer(BindReply::NotConnected("timed out".to_owned()))).0,
        "cannot prove existing endpoint /run/edge/broker.sock is stale: timed out"
    );
}

#[test]
fn log_files_are_regular_owned_and_of_the_expected_mode() {
    let expected = SecureLogFile::new(PathBuf::from("/var/log/bloom.log"), 501, 20);
    check_log_path(expected.path.is_absolute()).unwrap();
    assert!(matches!(check_log_path(false), Err(LogFault::NotAbsolute)));
    assert_eq!(expected.expected_mode, 0o640);
    let file = facts(FileKind::Regular, 0o100640);
    validate_file(&file, &expected).unwrap();
    let mut changed = file;
    changed.kind = FileKind::Directory;
    assert!(matches!(
        validate_file(&changed, &expected),
        Err(LogFault::NotRegular)
    ));
    let mut changed = file;
    changed.gid = 0;
    assert!(matches!(
        validate_file(&changed, &expected),
        Err(LogFault::WrongOwner)
    ));
    let mut changed = file;
    changed.mode = 0o100600;
    assert!(matches!(
        validate_file(&changed, &expected),
        Err(LogFault::WrongMode)
    ));
    validate_file(&changed, &expected.with_mode(0o600)).unwrap();
    assert_ne!(LogFault::WrongMode.message(), LogFault::WrongOwner.message());
}

#[test]
fn events_are_flushed_whole() {
    let mut buffer = EventBuffer::new();
    assert!(!buffer.write(b"{\"event\":"));
    assert_eq!(buffer.pending(), b"{\"event\":");
    assert!(buffer.write(b"1}\n"));
    assert_eq!(buffer.pending(), b"{\"event\":1}\n");
    buffer.clear();
    assert!(buffer.pending().is_empty());
}

#[test]
fn a_temporary_name_holds_the_file_and_the_process() {
    assert_eq!(temporary_name("broker.sock", 42), ".broker.sock.new.42");
    assert_eq!(
        temporary_name("b", u32::MAX),
        ".b.new.4294967295".to_owned()
    );
}
