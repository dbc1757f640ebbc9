//! Reviewed Unix listener acquisition with no opportunistic fallback.
//!
//! Linux services consume systemd-activated listeners. The root-requiring macOS profile explicitly
//! selects service-owned path binding because a launchd-created Unix socket reports launchd's UID
//! to the connecting peer.

use vstd::prelude::*;
use vstd::string::*;
use vstd::utf8::*;

use crate::text::{same_text, text_contains};
use crate::trusted_time::quoted;

verus! {

#[derive(Debug)]
pub enum ActivationError {
    Rejected(String),
    Io(std::io::Error),
}

/// What an [`ActivationError`] says.
pub enum ActivationErrorView {
    Rejected(Seq<char>),
    Io(std::io::Error),
}

impl View for ActivationError {
    type V = ActivationErrorView;

    open spec fn view(&self) -> ActivationErrorView {
        match *self {
            ActivationError::Rejected(text) => ActivationErrorView::Rejected(text@),
            ActivationError::Io(error) => ActivationErrorView::Io(error),
        }
    }
}

/// The outcome of a check: nothing, or what the error says.
pub open spec fn activation_outcome<T>(r: Result<T, ActivationError>) -> Result<
    (),
    ActivationErrorView,
> {
    match r {
        Ok(_) => Ok(()),
        Err(e) => Err(e@),
    }
}

fn rejected(text: &str) -> (r: ActivationError)
    ensures
        r@ == ActivationErrorView::Rejected(text@),
{
    ActivationError::Rejected(text.to_owned())
}

/// A name that a listener can have: not empty, and without NUL.
pub open spec fn listener_name_ok(name: Seq<char>) -> bool {
    name.len() > 0 && !crate::text::contains_text(name, "\0"@)
}

/// Accepts a name that a listener can have.
pub fn check_listener_name(name: &str) -> (r: Result<(), ActivationError>)
    ensures
        activation_outcome(r) == (if listener_name_ok(name@) {
            Ok::<(), ActivationErrorView>(())
        } else {
            Err(ActivationErrorView::Rejected("activation socket name is invalid"@))
        }),
{
    if name.is_empty() || text_contains(name, "\0") {
        return Err(rejected("activation socket name is invalid"));
    }
    Ok(())
}

/// Listeners by name. Each can be taken once.
pub struct NamedActivation<D> {
    descriptors: Vec<(String, D)>,
}

/// Names with what they stand for.
pub open spec fn named<D>(descriptors: Seq<(String, D)>) -> Seq<(Seq<char>, D)> {
    descriptors.map_values(|d: (String, D)| (d.0@, d.1))
}

/// Whether a name is among the entries.
pub open spec fn holds_name<D>(entries: Seq<(Seq<char>, D)>, name: Seq<char>) -> bool {
    exists|i: int| 0 <= i < entries.len() && (#[trigger] entries[i]).0 == name
}

/// No two entries have one name.
pub open spec fn distinct_names<D>(entries: Seq<(Seq<char>, D)>) -> bool {
    forall|i: int, j: int|
        0 <= i < j < entries.len() ==> (#[trigger] entries[i]).0 != (#[trigger] entries[j]).0
}

/// Why entries are refused, if they are: by the first whose name is invalid or taken.
pub open spec fn names_check<D>(entries: Seq<(Seq<char>, D)>) -> Result<(), ActivationErrorView>
    decreases entries.len(),
{
    if entries.len() == 0 {
        Ok(())
    } else {
        match names_check(entries.drop_last()) {
            Err(e) => Err(e),
            Ok(_) => if !listener_name_ok(entries.last().0) {
                Err(ActivationErrorView::Rejected("activation socket name is invalid"@))
            } else if holds_name(entries.drop_last(), entries.last().0) {
                Err(
                    ActivationErrorView::Rejected(
                        "activation socket name "@ + crate::trusted_time::quoted_text(
                            entries.last().0,
                        ) + " is duplicated"@,
                    ),
                )
            } else {
                Ok(())
            },
        }
    }
}

/// The entries without the one at an index.
pub open spec fn without<D>(entries: Seq<(Seq<char>, D)>, i: int) -> Seq<(Seq<char>, D)> {
    entries.remove(i)
}

pub open spec fn not_provided(name: Seq<char>) -> ActivationErrorView {
    ActivationErrorView::Rejected(
        "activation socket "@ + crate::trusted_time::quoted_text(name)
            + " was not provided or was already consumed"@,
    )
}

/// A refusal among the first entries is the refusal of all of them.
proof fn lemma_names_error<D>(entries: Seq<(Seq<char>, D)>, n: int)
    requires
        0 <= n <= entries.len(),
        names_check(entries.take(n)) is Err,
    ensures
        names_check(entries) == names_check(entries.take(n)),
    decreases entries.len(),
{
    if n < entries.len() {
        assert(entries.drop_last().take(n) =~= entries.take(n));
        lemma_names_error(entries.drop_last(), n);
    } else {
        assert(entries.take(n) =~= entries);
    }
}

/// Accepted entries have distinct names.
proof fn lemma_accepted_names_are_distinct<D>(entries: Seq<(Seq<char>, D)>)
    requires
        names_check(entries) is Ok,
    ensures
        distinct_names(entries),
    decreases entries.len(),
{
    if entries.len() > 0 {
        let head = entries.drop_last();
        lemma_accepted_names_are_distinct(head);
        assert forall|i: int, j: int| 0 <= i < j < entries.len() implies (#[trigger] entries[i]).0
            != (#[trigger] entries[j]).0 by {
            assert(head[i] == entries[i]);
            if j < head.len() {
                assert(head[j] == entries[j]);
            }
        }
    }
}

impl<D> View for NamedActivation<D> {
    type V = Seq<(Seq<char>, D)>;

    closed spec fn view(&self) -> Seq<(Seq<char>, D)> {
        named(self.descriptors@)
    }
}

impl<D> NamedActivation<D> {
    /// Accepts descriptors with valid, distinct names.
    pub fn new(descriptors: Vec<(String, D)>) -> (r: Result<Self, ActivationError>)
        ensures
            match r {
                Ok(activation) => names_check(named(descriptors@)) is Ok && activation@ == named(
                    descriptors@,
                ) && distinct_names(activation@),
                Err(e) => names_check(named(descriptors@)) == Err::<(), ActivationErrorView>(e@),
            },
    {
        let ghost entries = named(descriptors@);
        let mut i: usize = 0;
        assert(entries.take(0) =~= Seq::<(Seq<char>, D)>::empty());
        while i < descriptors.len()
            invariant
                entries == named(descriptors@),
                i <= descriptors@.len(),
                names_check(entries.take(i as int)) is Ok,
            decreases descriptors@.len() - i,
        {
            proof {
                assert(entries.take(i + 1).drop_last() =~= entries.take(i as int));
                assert(entries.take(i + 1).last() == entries[i as int]);
            }
            let name = descriptors[i].0.as_str();
            if let Err(error) = check_listener_name(name) {
                proof {
                    lemma_names_error(entries, i + 1);
                }
                return Err(error);
            }
            let mut j: usize = 0;
            while j < i
                invariant
                    entries == named(descriptors@),
                    j <= i < descriptors@.len(),
                    name@ == entries[i as int].0,
                    names_check(entries.take(i as int)) is Ok,
                    listener_name_ok(name@),
                    entries.take(i + 1).drop_last() == entries.take(i as int),
                    entries.take(i + 1).last() == entries[i as int],
                    forall|k: int| 0 <= k < j ==> (#[trigger] entries[k]).0 != name@,
                decreases i - j,
            {
                if same_text(descriptors[j].0.as_str(), name) {
                    proof {
                        assert(entries.take(i as int)[j as int].0 == name@);
                        lemma_names_error(entries, i + 1);
                    }
                    let mut text = "activation socket name ".to_owned();
                    text.append(quoted(name).as_str());
                    text.append(" is duplicated");
                    return Err(rejected(text.as_str()));
                }
                j = j + 1;
            }
            i = i + 1;
        }
        proof {
            assert(entries.take(i as int) =~= entries);
            lemma_accepted_names_are_distinct(entries);
        }
        Ok(NamedActivation { descriptors })
    }

    /// Takes the descriptor of a name. It is gone then.
    pub fn take(&mut self, name: &str) -> (r: Result<D, ActivationError>)
        ensures
            match r {
                Ok(descriptor) => exists|i: int|
                    0 <= i < old(self)@.len() && #[trigger] old(self)@[i] == (name@, descriptor)
                        && final(self)@ == without(old(self)@, i),
                Err(e) => !holds_name(old(self)@, name@) && e@ == not_provided(name@)
                    && final(self)@ == old(self)@,
            },
    {
        let ghost entries = self@;
        let mut i: usize = 0;
        while i < self.descriptors.len()
            invariant
                entries == self@,
                entries == old(self)@,
                entries == named(self.descriptors@),
                i <= self.descriptors@.len(),
                forall|k: int| 0 <= k < i ==> (#[trigger] entries[k]).0 != name@,
            decreases self.descriptors@.len() - i,
        {
            if same_text(self.descriptors[i].0.as_str(), name) {
                let (_, descriptor) = self.descriptors.remove(i);
                proof {
                    assert(entries[i as int] == (name@, descriptor));
                    assert(self@ =~= without(entries, i as int));
                }
                return Ok(descriptor);
            }
            i = i + 1;
        }
        let mut text = "activation socket ".to_owned();
        text.append(quoted(name).as_str());
        text.append(" was not provided or was already consumed");
        Err(rejected(text.as_str()))
    }
}

/// A listener can be taken once, and taking it leaves every other one to be taken.
pub proof fn law_listeners_are_taken_once<D>(
    entries: Seq<(Seq<char>, D)>,
    i: int,
    other: Seq<char>,
)
    requires
        distinct_names(entries),
        0 <= i < entries.len(),
    ensures
        !holds_name(without(entries, i), entries[i].0),
        distinct_names(without(entries, i)),
        other != entries[i].0 ==> holds_name(without(entries, i), other) == holds_name(
            entries,
            other,
        ),
{
    let rest = without(entries, i);
    assert forall|k: int| 0 <= k < rest.len() implies #[trigger] rest[k] == (if k < i {
        entries[k]
    } else {
        entries[k + 1]
    }) by {}
    assert forall|j: int, k: int| 0 <= j < k < rest.len() implies (#[trigger] rest[j]).0 != (
    #[trigger] rest[k]).0 by {}
    if holds_name(entries, other) && other != entries[i].0 {
        let k = choose|k: int| 0 <= k < entries.len() && (#[trigger] entries[k]).0 == other;
        if k < i {
            assert(rest[k].0 == other);
        } else {
            assert(rest[k - 1].0 == other);
        }
    }
}

/// A text without its plus sign, where it starts with one.
pub open spec fn unsigned_part(text: Seq<char>) -> Seq<char> {
    if text.len() > 0 && text[0] == '+' {
        text.skip(1)
    } else {
        text
    }
}

/// The number that `parse` reads from a text: digits, with a sign before them where there is one.
pub open spec fn parsed_number(text: Seq<char>) -> Option<nat> {
    let digits = unsigned_part(text);
    if digits.len() > 0 && forall|i: int|
        0 <= i < digits.len() ==> crate::decimal::is_digit(#[trigger] digits[i]) {
        Some(crate::decimal::decimal_value(digits))
    } else {
        None
    }
}

/// Reads a number of at most 64 bits.
pub fn parse_number(text: &str) -> (r: Option<u64>)
    ensures
        r == (match parsed_number(text@) {
            Some(n) => if n <= u64::MAX {
                Some(n as u64)
            } else {
                None
            },
            None => None,
        }),
{
    let count: usize = text.unicode_len();
    let start: usize = if count > 0 && text.get_char(0) == '+' {
        1
    } else {
        0
    };
    let ghost digits = text@.skip(start as int);
    assert(digits =~= unsigned_part(text@));
    if start == count {
        return None;
    }
    let mut n: u64 = 0;
    let mut overflow = false;
    let mut i: usize = start;
    assert(digits.take(0) =~= Seq::<char>::empty());
    while i < count
        invariant
            start <= i <= count,
            count == text@.len(),
            digits == text@.skip(start as int),
            digits == unsigned_part(text@),
            forall|k: int| 0 <= k < i - start ==> crate::decimal::is_digit(#[trigger] digits[k]),
            overflow ==> crate::decimal::decimal_value(digits.take(i - start)) > u64::MAX,
            !overflow ==> n == crate::decimal::decimal_value(digits.take(i - start)),
        decreases count - i,
    {
        let c: char = text.get_char(i);
        assert(c == digits[i - start]);
        if !('0' <= c && c <= '9') {
            return None;
        }
        proof {
            let grown = digits.take(i - start + 1);
            assert(grown.drop_last() =~= digits.take(i - start));
            assert(grown.last() == c);
        }
        let digit: u64 = (c as u32 - '0' as u32) as u64;
        match n.checked_mul(10) {
            Some(scaled) => match scaled.checked_add(digit) {
                Some(sum) => {
                    n = sum;
                },
                None => {
                    overflow = true;
                },
            },
            None => {
                overflow = true;
            },
        }
        i = i + 1;
    }
    assert(digits.take(i - start) =~= digits);
    if overflow {
        None
    } else {
        Some(n)
    }
}

/// The parts of a text between colons.
pub open spec fn colon_parts(text: Seq<char>) -> Seq<Seq<char>>
    decreases text.len(),
{
    if text.len() == 0 {
        seq![Seq::empty()]
    } else {
        let before = colon_parts(text.drop_last());
        if text.last() == ':' {
            before.push(Seq::empty())
        } else {
            before.update(before.len() - 1, before.last().push(text.last()))
        }
    }
}

proof fn lemma_colon_parts_nonempty(text: Seq<char>)
    ensures
        colon_parts(text).len() > 0,
    decreases text.len(),
{
    if text.len() > 0 {
        lemma_colon_parts_nonempty(text.drop_last());
    }
}

pub open spec fn texts(parts: Seq<String>) -> Seq<Seq<char>> {
    parts.map_values(|p: String| p@)
}

/// Splits a text at its colons.
pub fn split_at_colons(text: &str) -> (r: Vec<String>)
    ensures
        texts(r@) == colon_parts(text@),
{
    let count: usize = text.unicode_len();
    let mut parts: Vec<String> = Vec::new();
    let mut part = String::new();
    let mut i: usize = 0;
    assert(text@.take(0) =~= Seq::<char>::empty());
    assert(texts(parts@).push(part@) =~= seq![Seq::<char>::empty()]);
    while i < count
        invariant
            count == text@.len(),
            i <= count,
            texts(parts@).push(part@) == colon_parts(text@.take(i as int)),
        decreases count - i,
    {
        let c: char = text.get_char(i);
        let ghost before = texts(parts@);
        let ghost open = part@;
        proof {
            assert(text@.take(i + 1).drop_last() =~= text@.take(i as int));
            assert(text@.take(i + 1).last() == c);
            assert(before.push(open).last() == open);
        }
        if c == ':' {
            let mut closed = String::new();
            std::mem::swap(&mut closed, &mut part);
            parts.push(closed);
            assert(texts(parts@) =~= before.push(open));
            assert(texts(parts@).push(part@) =~= before.push(open).push(Seq::empty()));
        } else {
            part.push(c);
            assert(before.push(part@) =~= before.push(open).update(
                before.push(open).len() - 1,
                open.push(c),
            ));
        }
        i = i + 1;
    }
    assert(text@.take(i as int) =~= text@);
    let ghost before = texts(parts@);
    let ghost last = part@;
    parts.push(part);
    assert(texts(parts@) =~= before.push(last));
    parts
}

/// Why the environment of an activated process is refused, if it is.
pub open spec fn environment_check(
    listen_pid: Option<String>,
    own_pid: u32,
    listen_fds: Option<String>,
    listen_names: Option<String>,
) -> Result<(), Seq<char>> {
    let count = match listen_fds {
        Some(text) => parsed_number(text@),
        None => None,
    };
    let pid = match listen_pid {
        Some(text) => parsed_number(text@),
        None => None,
    };
    if count is None || count->Some_0 > usize::MAX {
        Err("systemd LISTEN_FDS is missing or invalid"@)
    } else if pid != Some(own_pid as nat) {
        Err("systemd LISTEN_PID does not identify this process"@)
    } else if count->Some_0 == 0 || count->Some_0 > 1024 {
        Err("systemd LISTEN_FDS is outside the reviewed range"@)
    } else {
        match listen_names {
            None => Err("systemd LISTEN_FDNAMES is missing"@),
            Some(names) => if colon_parts(names@).len() != count->Some_0 {
                Err("systemd descriptor count and name count differ"@)
            } else {
                Ok(())
            },
        }
    }
}

/// The names of the descriptors that systemd passed, in the order of their numbers from three on.
pub fn activated_names(
    listen_pid: &Option<String>,
    own_pid: u32,
    listen_fds: &Option<String>,
    listen_names: &Option<String>,
) -> (r: Result<Vec<String>, String>)
    ensures
        match environment_check(*listen_pid, own_pid, *listen_fds, *listen_names) {
            Err(text) => r matches Err(e) && e@ == text,
            Ok(_) => r matches Ok(names) && texts(names@) == colon_parts(listen_names->Some_0@)
                && 1 <= names@.len() <= 1024,
        },
{
    let count: u64 = match listen_fds {
        Some(text) => match parse_number(text.as_str()) {
            Some(count) => count,
            None => {
                return Err("systemd LISTEN_FDS is missing or invalid".to_owned());
            },
        },
        None => {
            return Err("systemd LISTEN_FDS is missing or invalid".to_owned());
        },
    };
    if count > usize::MAX as u64 {
        return Err("systemd LISTEN_FDS is missing or invalid".to_owned());
    }
    let own = match listen_pid {
        Some(text) => match parse_number(text.as_str()) {
            Some(pid) => pid == own_pid as u64,
            None => false,
        },
        None => false,
    };
    if !own {
        return Err("systemd LISTEN_PID does not identify this process".to_owned());
    }
    if count == 0 || count > 1024 {
        return Err("systemd LISTEN_FDS is outside the reviewed range".to_owned());
    }
    let names = match listen_names {
        Some(names) => split_at_colons(names.as_str()),
        None => {
            return Err("systemd LISTEN_FDNAMES is missing".to_owned());
        },
    };
    assert(texts(names@).len() == names@.len());
    if names.len() as u64 != count {
        return Err("systemd descriptor count and name count differ".to_owned());
    }
    Ok(names)
}

} // verus!
