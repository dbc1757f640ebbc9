//! What listener acquisition promises of names, numbers and published endpoints.

use vstd::prelude::*;

use crate::activation::{
    colon_parts, environment_check, holds_name, listener_name_ok, names_check, not_provided,
    parsed_number, without, ActivationErrorView,
};
use crate::files::{FileFacts, FileKind};
use crate::listener::{
    bind_begin, bind_next, endpoint_directory_ok, endpoint_ok, stale_socket_ok, BindActionView,
    BindPhase, BindReply, BindStep, BindView, ListenerPath,
};

verus! {

/// A listener can have every name that is not empty and holds no NUL.
pub proof fn law_listener_names_are_accepted_exactly(name: Seq<char>)
    ensures
        listener_name_ok(name) <==> name.len() > 0 && forall|i: int|
            0 <= i < name.len() ==> #[trigger] name[i] != '\0',
{
    reveal_strlit("\0");
    let nul = "\0"@;
    if crate::text::contains_text(name, nul) {
        let i = choose|i: int|
            0 <= i && i + nul.len() <= name.len() && #[trigger] name.subrange(i, i + nul.len()) == nul;
        assert(name[i] == name.subrange(i, i + nul.len())[0]);
    }
    assert forall|i: int| 0 <= i < name.len() && name[i] == '\0' implies crate::text::contains_text(
        name,
        nul,
    ) by {
        assert(name.subrange(i, i + nul.len()) =~= nul);
    }
}

/// Listeners are accepted exactly if each has a name that it can have and no two have one name.
pub proof fn law_named_listeners_are_accepted_exactly<D>(entries: Seq<(Seq<char>, D)>)
    ensures
        names_check(entries) is Ok <==> {
            &&& forall|i: int|
                0 <= i < entries.len() ==> listener_name_ok((#[trigger] entries[i]).0)
            &&& forall|i: int, j: int|
                0 <= i < j < entries.len() ==> (#[trigger] entries[i]).0 != (#[trigger] entries[j]).0
        },
    decreases entries.len(),
{
    if entries.len() > 0 {
        let head = entries.drop_last();
        law_named_listeners_are_accepted_exactly(head);
        assert forall|i: int| 0 <= i < head.len() implies #[trigger] head[i] == entries[i] by {}
        if names_check(entries) is Ok {
            assert forall|i: int| 0 <= i < entries.len() implies listener_name_ok(
                (#[trigger] entries[i]).0,
            ) by {
                if i < head.len() {
                    assert(head[i] == entries[i]);
                }
            }
            assert forall|i: int, j: int| 0 <= i < j < entries.len() implies (
            #[trigger] entries[i]).0 != (#[trigger] entries[j]).0 by {
                assert(head[i] == entries[i]);
                if j < head.len() {
                    assert(head[j] == entries[j]);
                }
            }
        }
        if (forall|i: int| 0 <= i < entries.len() ==> listener_name_ok((#[trigger] entries[i]).0))
            && (forall|i: int, j: int|
            0 <= i < j < entries.len() ==> (#[trigger] entries[i]).0 != (#[trigger] entries[j]).0) {
            assert forall|i: int| 0 <= i < head.len() implies listener_name_ok(
                (#[trigger] head[i]).0,
            ) by {
                assert(head[i] == entries[i]);
            }
            assert forall|i: int, j: int| 0 <= i < j < head.len() implies (#[trigger] head[i]).0
                != (#[trigger] head[j]).0 by {
                assert(head[i] == entries[i]);
                assert(head[j] == entries[j]);
            }
            let last = entries[entries.len() - 1];
            assert(last == entries.last());
            assert(listener_name_ok(last.0));
            if holds_name(head, last.0) {
                let k = choose|k: int| 0 <= k < head.len() && (#[trigger] head[k]).0 == last.0;
                assert(entries[k].0 == last.0);
            }
        }
    }
}

/// The first listener with a bad name decides what is said: that its name is invalid, or that it
/// is taken.
pub proof fn law_first_bad_listener_is_named<D>(entries: Seq<(Seq<char>, D)>, n: int)
    requires
        0 <= n < entries.len(),
        names_check(entries.take(n)) is Ok,
        names_check(entries.take(n + 1)) is Err,
    ensures
        names_check(entries) == Err::<(), ActivationErrorView>(
            ActivationErrorView::Rejected(
                if entries[n].0.len() == 0 || exists|i: int|
                    0 <= i < entries[n].0.len() && #[trigger] entries[n].0[i] == '\0' {
                    "activation socket name is invalid"@
                } else {
                    "activation socket name "@ + crate::trusted_time::quoted_text(entries[n].0)
                        + " is duplicated"@
                },
            ),
        ),
    decreases entries.len(),
{
    law_listener_names_are_accepted_exactly(entries[n].0);
    assert(entries.take(n + 1).drop_last() =~= entries.take(n));
    assert(entries.take(n + 1).last() == entries[n]);
    if n + 1 < entries.len() {
        let head = entries.drop_last();
        assert(head.take(n) =~= entries.take(n));
        assert(head.take(n + 1) =~= entries.take(n + 1));
        assert(head[n] == entries[n]);
        law_first_bad_listener_is_named(head, n);
    } else {
        assert(entries.take(n + 1) =~= entries);
    }
}

/// Taking a listener leaves the others in their order; one that is not there is said not to be.
pub proof fn law_taking_leaves_the_others<D>(
    entries: Seq<(Seq<char>, D)>,
    i: int,
    name: Seq<char>,
)
    requires
        0 <= i < entries.len(),
    ensures
        without(entries, i) == entries.take(i) + entries.skip(i + 1),
        holds_name(entries, entries[i].0),
        not_provided(name) == ActivationErrorView::Rejected(
            "activation socket "@ + crate::trusted_time::quoted_text(name)
                + " was not provided or was already consumed"@,
        ),
{
    assert(without(entries, i) =~= entries.take(i) + entries.skip(i + 1));
}

/// Digits are read as the decimal number that they write, one digit after the other. One plus
/// sign may stand before them, and nothing else anywhere.
pub proof fn law_numbers_are_read_digit_by_digit(text: Seq<char>, c: char)
    ensures
        parsed_number(Seq::<char>::empty()) is None,
        parsed_number(seq!['+']) is None,
        '0' <= c <= '9' ==> parsed_number(seq![c]) == Some((c as int - '0' as int) as nat),
        '0' <= c <= '9' ==> parsed_number(seq!['+', c]) == Some((c as int - '0' as int) as nat),
        text.len() > 0 && text != seq!['+'] && '0' <= c <= '9' ==> parsed_number(text.push(c)) == (
        match parsed_number(text) {
            Some(n) => Some((10 * n + (c as int - '0' as int)) as nat),
            None => None,
        }),
        text.len() > 0 && !('0' <= c <= '9') ==> parsed_number(text.push(c)) is None,
        !('0' <= c <= '9') ==> parsed_number(seq![c]) is None,
{
    let none = Seq::<char>::empty();
    reveal_with_fuel(crate::decimal::decimal_value, 2);
    assert(seq!['+'].skip(1) =~= none);
    assert(seq!['+', c].skip(1) =~= seq![c]);
    assert(seq![c].drop_last() =~= none);
    assert(seq![c][0] == c);
    assert(seq![c].skip(1) =~= none);
    if '0' <= c <= '9' {
        assert(forall|i: int|
            0 <= i < seq![c].len() ==> crate::decimal::is_digit(#[trigger] seq![c][i]));
    }
    if text.len() > 0 {
        let longer = text.push(c);
        let digits = crate::activation::unsigned_part(text);
        let grown = crate::activation::unsigned_part(longer);
        assert(grown =~= digits.push(c));
        assert(grown.drop_last() =~= digits);
        assert(grown[grown.len() - 1] == c);
        if digits.len() > 0 && '0' <= c <= '9' {
            if parsed_number(text) is Some {
                assert forall|i: int| 0 <= i < grown.len() implies crate::decimal::is_digit(
                    #[trigger] grown[i],
                ) by {
                    if i < digits.len() {
                        assert(grown[i] == digits[i]);
                    }
                }
            } else {
                let i = choose|i: int|
                    0 <= i < digits.len() && !crate::decimal::is_digit(#[trigger] digits[i]);
                assert(grown[i] == digits[i]);
            }
        }
        if digits.len() == 0 {
            assert(text =~= seq!['+']);
        }
        if !('0' <= c <= '9') {
            assert(!crate::decimal::is_digit(grown[grown.len() - 1]));
        }
    }
    if !('0' <= c <= '9') && c != '+' {
        assert(!crate::decimal::is_digit(seq![c][0]));
    }
}

/// Parts with colons between them.
pub open spec fn joined(parts: Seq<Seq<char>>) -> Seq<char>
    decreases parts.len(),
{
    if parts.len() == 0 {
        Seq::empty()
    } else if parts.len() == 1 {
        parts[0]
    } else {
        joined(parts.drop_last()) + seq![':'] + parts.last()
    }
}

/// The parts of a text hold no colon, and with colons between them they are the text.
pub proof fn law_parts_make_up_the_text(text: Seq<char>)
    ensures
        colon_parts(text).len() > 0,
        joined(colon_parts(text)) == text,
        forall|p: int, i: int|
            0 <= p < colon_parts(text).len() && 0 <= i < colon_parts(text)[p].len()
                ==> #[trigger] colon_parts(text)[p][i] != ':',
    decreases text.len(),
{
    let parts = colon_parts(text);
    if text.len() == 0 {
        assert(parts[0].len() == 0);
        assert(joined(parts) =~= text);
    } else {
        let before = colon_parts(text.drop_last());
        law_parts_make_up_the_text(text.drop_last());
        assert(text =~= text.drop_last() + seq![text.last()]);
        if text.last() == ':' {
            assert(parts.drop_last() =~= before);
            assert(parts.last().len() == 0);
            assert(joined(parts) =~= text);
            assert forall|p: int, i: int|
                0 <= p < parts.len() && 0 <= i < parts[p].len() implies #[trigger] parts[p][i]
                != ':' by {
                assert(p < before.len());
                assert(parts[p] == before[p]);
                assert(before[p][i] != ':');
            }
        } else {
            assert(parts.last() =~= before.last() + seq![text.last()]);
            if parts.len() > 1 {
                assert(parts.drop_last() =~= before.drop_last());
            }
            assert(joined(parts) =~= text);
            assert forall|p: int, i: int|
                0 <= p < parts.len() && 0 <= i < parts[p].len() implies #[trigger] parts[p][i]
                != ':' by {
                if p < before.len() - 1 {
                    assert(parts[p] == before[p]);
                    assert(before[p][i] != ':');
                } else if i < before[p].len() {
                    assert(parts[p][i] == before[p][i]);
                    assert(before[p][i] != ':');
                }
            }
        }
    }
}

/// Descriptors are taken over exactly if the environment was meant for this process, passes from
/// one to 1024 of them, and names each.
pub proof fn law_environment_is_accepted_exactly(
    listen_pid: Option<String>,
    own_pid: u32,
    listen_fds: Option<String>,
    listen_names: Option<String>,
)
    ensures
        ({
            let verdict = environment_check(listen_pid, own_pid, listen_fds, listen_names);
            let count = match listen_fds {
                Some(text) => parsed_number(text@),
                None => None,
            };
            let for_us = listen_pid matches Some(text) && parsed_number(text@) == Some(
                own_pid as nat,
            );
            let counted = count matches Some(n) && n <= usize::MAX;
            let in_range = count matches Some(n) && 1 <= n <= 1024;
            &&& verdict is Ok <==> for_us && in_range && (listen_names matches Some(names)
                && count == Some(colon_parts(names@).len()))
            &&& !counted ==> verdict == Err::<(), Seq<char>>(
                "systemd LISTEN_FDS is missing or invalid"@,
            )
            &&& counted && !for_us ==> verdict == Err::<(), Seq<char>>(
                "systemd LISTEN_PID does not identify this process"@,
            )
            &&& counted && for_us && !in_range ==> verdict == Err::<(), Seq<char>>(
                "systemd LISTEN_FDS is outside the reviewed range"@,
            )
            &&& for_us && in_range && listen_names is None ==> verdict == Err::<(), Seq<char>>(
                "systemd LISTEN_FDNAMES is missing"@,
            )
            &&& for_us && in_range && listen_names is Some && verdict is Err ==> verdict == Err::<
                (),
                Seq<char>,
            >("systemd descriptor count and name count differ"@)
        }),
{
}

/// An endpoint directory is the service's own, searchable by its group and by nobody else; a
/// stale endpoint is the service's own socket under one name; a published one is that, of the
/// directory's group, and open to owner and group alone.
pub proof fn law_endpoint_metadata_is_accepted_exactly(facts: FileFacts, uid: u32, gid: u32)
    ensures
        endpoint_directory_ok(facts, uid) <==> facts.kind is Directory && facts.uid == uid
            && facts.mode & 0o777 == 0o710,
        stale_socket_ok(facts, uid) <==> facts.kind is Socket && facts.uid == uid && facts.links
            == 1,
        endpoint_ok(facts, uid, gid) <==> stale_socket_ok(facts, uid) && facts.gid == gid
            && facts.mode & 0o777 == 0o660,
{
}

/// Publication begins with the directory of every absolute path that names a file in one, and
/// with no other.
pub proof fn law_publication_begins_exactly(path: ListenerPath)
    ensures
        ({
            let step = bind_begin(path);
            &&& step.task.path == path
            &&& step.action is StatParent || step.action is Failed
            &&& step.action is StatParent <==> path.is_absolute && path.has_file_name
                && path.has_parent
            &&& step.action is StatParent ==> step.task.phase == BindPhase::Parent
            &&& step.action is Failed ==> step.task.phase == BindPhase::Done
            &&& step.action matches BindActionView::Failed { error, cleanup } ==> !cleanup
                && error == ActivationErrorView::Rejected(
                if path.is_absolute && path.has_file_name {
                    "owned Unix listener path has no parent"@
                } else {
                    "owned Unix listener path must be an absolute file path"@
                },
            )
        }),
{
}

/// The task that follows on a reply, where it is not over.
pub open spec fn onward(step: BindStep, reply: BindReply) -> BindStep {
    bind_next(step.task, reply)
}

/// Where every request succeeds, a listener is bound beside its endpoint, given its mode and the
/// directory's group, looked at, renamed, looked at again, and then reported: in this order, with
/// nothing left out.
pub proof fn law_publication_runs_to_its_end(
    path: ListenerPath,
    directory: FileFacts,
    made: FileFacts,
    published: FileFacts,
)
    requires
        path.is_absolute,
        path.has_file_name,
        path.has_parent,
        path.file_name is Some,
        directory.kind is Directory,
        directory.uid == path.effective_uid,
        directory.mode & 0o777 == 0o710,
        made.kind is Socket,
        made.uid == path.effective_uid,
        made.gid == directory.gid,
        made.mode & 0o777 == 0o660,
        made.links == 1,
        published.kind is Socket,
        published.uid == path.effective_uid,
        published.gid == directory.gid,
        published.mode & 0o777 == 0o660,
        published.links == 1,
    ensures
        ({
            let s0 = bind_begin(path);
            let s1 = onward(s0, BindReply::Facts(directory));
            let s2 = onward(s1, BindReply::Missing);
            let s3 = onward(s2, BindReply::Missing);
            let s4 = onward(s3, BindReply::Done);
            let s5 = onward(s4, BindReply::Done);
            let s6 = onward(s5, BindReply::Done);
            let s7 = onward(s6, BindReply::Facts(made));
            let s8 = onward(s7, BindReply::Done);
            let s9 = onward(s8, BindReply::Facts(published));
            let s10 = onward(s9, BindReply::Done);
            &&& s0.action is StatParent
            &&& s1.action is StatEndpoint
            &&& s2.action is StatTemporary
            &&& s3.action is Bind
            &&& s4.action is SetMode
            &&& s5.action == BindActionView::SetGroup(directory.gid)
            &&& s6.action is StatNew
            &&& s7.action is Publish
            &&& s8.action is StatPublished
            &&& s9.action is SetNonblocking
            &&& s10.action is Listening
            &&& s10.task.path == path
        }),
{
}

/// A stale endpoint, the service's own socket to which nobody can connect, is removed, and the
/// work goes on as if nothing had stood there.
pub proof fn law_stale_endpoint_is_replaced(task: BindView, found: FileFacts)
    requires
        task.phase == BindPhase::Endpoint,
        found.kind is Socket,
        found.uid == task.path.effective_uid,
        found.links == 1,
    ensures
        ({
            let probing = bind_next(task, BindReply::Facts(found));
            let removing = onward(probing, BindReply::Refused);
            &&& probing.action is Connect
            &&& removing.action is RemoveStale
            &&& onward(removing, BindReply::Done) == bind_next(task, BindReply::Missing)
            &&& onward(probing, BindReply::Connected).action
                == (BindActionView::Failed {
                error: ActivationErrorView::Rejected(
                    "existing endpoint "@ + task.path.shown@ + " is live"@,
                ),
                cleanup: false,
            })
            &&& forall|text: String|
                (#[trigger] onward(probing, BindReply::NotConnected(text))).action
                    == (BindActionView::Failed {
                    error: ActivationErrorView::Rejected(
                        "cannot prove existing endpoint "@ + task.path.shown@ + " is stale: "@
                            + text@,
                    ),
                    cleanup: false,
                })
        }),
{
}

/// What is found in the way ends the work with words of its own, and the temporary path is
/// removed exactly where the listener was bound.
pub proof fn law_unsafe_findings_end_the_work(task: BindView, facts: FileFacts)
    ensures
        ({
            let step = bind_next(task, BindReply::Facts(facts));
            let uid = task.path.effective_uid;
            let shown_uid = crate::decimal::decimal_chars(uid as nat);
            &&& task.phase == BindPhase::Parent && !(facts.kind is Directory && facts.uid == uid
                && facts.mode & 0o777 == 0o710) ==> step.action == (BindActionView::Failed {
                error: ActivationErrorView::Rejected(
                    "endpoint directory "@ + task.path.shown_parent@
                        + " must be a non-symlink directory owned by effective UID "@ + shown_uid
                        + " with mode 0710"@,
                ),
                cleanup: false,
            })
            &&& task.phase == BindPhase::Endpoint && !(facts.kind is Socket && facts.uid == uid
                && facts.links == 1) ==> step.action == (BindActionView::Failed {
                error: ActivationErrorView::Rejected(
                    "existing endpoint "@ + task.path.shown@
                        + " is not a singly-linked socket owned by effective UID "@ + shown_uid,
                ),
                cleanup: false,
            })
            &&& task.phase == BindPhase::Temporary ==> step.action == (BindActionView::Failed {
                error: ActivationErrorView::Rejected(
                    "temporary endpoint "@ + task.path.shown_temporary@ + " already exists"@,
                ),
                cleanup: false,
            })
            &&& task.phase == BindPhase::New && !(facts.kind is Socket && facts.uid == uid
                && facts.gid == task.gid && facts.mode & 0o777 == 0o660 && facts.links == 1)
                ==> step.action == (BindActionView::Failed {
                error: ActivationErrorView::Rejected(
                    "new endpoint"@ + " "@ + task.path.shown_temporary@
                        + " has unsafe type, ownership, mode, or link count"@,
                ),
                cleanup: true,
            })
            &&& task.phase == BindPhase::Published && !(facts.kind is Socket && facts.uid == uid
                && facts.gid == task.gid && facts.mode & 0o777 == 0o660 && facts.links == 1)
                ==> step.action == (BindActionView::Failed {
                error: ActivationErrorView::Rejected(
                    "published endpoint"@ + " "@ + task.path.shown@
                        + " has unsafe type, ownership, mode, or link count"@,
                ),
                cleanup: true,
            })
            &&& step.action is Failed ==> step.task.phase == BindPhase::Done
        }),
{
}

/// A request that the operating system refuses ends the work with its error. From the moment the
/// listener was bound until it is reported, the temporary path is then to be removed; before, it
/// is not.
pub proof fn law_refused_request_ends_the_work(task: BindView, error: std::io::Error)
    ensures
        ({
            let step = bind_next(task, BindReply::Failed(error));
            let unbound = task.phase == BindPhase::Parent || task.phase == BindPhase::Endpoint
                || task.phase == BindPhase::Connecting || task.phase == BindPhase::Removing
                || task.phase == BindPhase::Temporary || task.phase == BindPhase::Binding
                || task.phase == BindPhase::Done;
            &&& step.action == (BindActionView::Failed {
                error: ActivationErrorView::Io(error),
                cleanup: !unbound,
            })
            &&& step.task.phase == BindPhase::Done
            &&& step.task.path == task.path
        }),
{
}

/// A path whose file name is not text is refused once its endpoint is free.
pub proof fn law_unreadable_names_are_refused(task: BindView)
    requires
        task.phase == BindPhase::Endpoint,
        task.path.file_name is None,
    ensures
        bind_next(task, BindReply::Missing).action == (BindActionView::Failed {
            error: ActivationErrorView::Rejected("socket filename is not UTF-8"@),
            cleanup: false,
        }),
{
}

/// A reply that does not answer the outstanding request ends the work, whatever it says.
pub proof fn law_stray_replies_end_the_work(task: BindView, reply: BindReply)
    ensures
        task.phase == BindPhase::Done ==> bind_next(task, reply).action is Failed,
        reply is Done && (task.phase == BindPhase::Parent || task.phase == BindPhase::Endpoint
            || task.phase == BindPhase::Connecting || task.phase == BindPhase::Temporary
            || task.phase == BindPhase::New || task.phase == BindPhase::Published) ==> bind_next(
            task,
            reply,
        ).action is Failed,
        reply is Missing && task.phase != BindPhase::Endpoint && task.phase != BindPhase::Temporary
            ==> bind_next(task, reply).action is Failed,
        (reply is Connected || reply is Refused || reply is NotConnected) && task.phase
            != BindPhase::Connecting ==> bind_next(task, reply).action is Failed,
        reply is Facts && (task.phase == BindPhase::Connecting || task.phase == BindPhase::Removing
            || task.phase == BindPhase::Binding || task.phase == BindPhase::Mode || task.phase
            == BindPhase::Group || task.phase == BindPhase::Publishing || task.phase
            == BindPhase::Nonblocking) ==> bind_next(task, reply).action is Failed,
{
}

} // verus!
