//! The same-UID developer mode: what its root, its files and the directories between must be.
//!
//! Every trusted path must be a current-UID-owned, non-linked regular file beneath one
//! current-UID-owned mode-0700 root. Production packaging never uses this mode.

use vstd::prelude::*;
use vstd::string::*;

use crate::audit::{unauthenticated, unauthenticated_error};
use crate::error::{WireError, WireErrorView};
use crate::files::{FileFacts, FileKind};
use crate::text::same_bytes;

verus! {

/// The names on an absolute path, from the root of the file system on.
pub open spec fn path_view(path: Seq<Vec<u8>>) -> Seq<Seq<u8>> {
    path.map_values(|name: Vec<u8>| name@)
}

/// The first path is the second, or one of the directories above it.
pub open spec fn encloses(outer: Seq<Seq<u8>>, inner: Seq<Seq<u8>>) -> bool {
    outer.len() <= inner.len() && outer == inner.take(outer.len() as int)
}

fn path_encloses(outer: &Vec<Vec<u8>>, inner: &Vec<Vec<u8>>) -> (r: bool)
    ensures
        r == encloses(path_view(outer@), path_view(inner@)),
{
    if outer.len() > inner.len() {
        return false;
    }
    let ghost left = path_view(outer@);
    let ghost right = path_view(inner@);
    let mut i: usize = 0;
    while i < outer.len()
        invariant
            outer@.len() <= inner@.len(),
            left == path_view(outer@),
            right == path_view(inner@),
            i <= outer@.len(),
            forall|k: int| 0 <= k < i ==> #[trigger] left[k] == right[k],
        decreases outer@.len() - i,
    {
        if !same_bytes(outer[i].as_slice(), inner[i].as_slice()) {
            assert(left[i as int] != right.take(left.len() as int)[i as int]);
            return false;
        }
        i = i + 1;
    }
    assert(left =~= right.take(left.len() as int));
    true
}

/// Developer mode runs as a user other than root, with an absolute root.
pub open spec fn developer_user_ok(uid: u32, root_is_absolute: bool) -> bool {
    uid != 0 && root_is_absolute
}

/// Whether developer mode may run as this user with this root.
pub fn check_developer_user(uid: u32, root_is_absolute: bool) -> (r: Result<(), WireError>)
    ensures
        crate::error::outcome(r) == (if uid == 0 {
            Err::<(), WireErrorView>(
                unauthenticated_error("developer transport mode refuses root"@),
            )
        } else if !root_is_absolute {
            Err(unauthenticated_error("developer transport root must be absolute"@))
        } else {
            Ok(())
        }),
        r is Ok == developer_user_ok(uid, root_is_absolute),
{
    if uid == 0 {
        return Err(unauthenticated("developer transport mode refuses root"));
    }
    if !root_is_absolute {
        return Err(unauthenticated("developer transport root must be absolute"));
    }
    Ok(())
}

/// A directory of the user with mode `0700`.
pub open spec fn developer_root_ok(facts: FileFacts, uid: u32) -> bool {
    &&& facts.kind == FileKind::Directory
    &&& facts.uid == uid
    &&& facts.permissions() == 0o700
    &&& facts.links >= 2
}

pub fn require_developer_root(facts: &FileFacts, uid: u32) -> (r: Result<(), WireError>)
    ensures
        crate::error::outcome(r) == (if developer_root_ok(*facts, uid) {
            Ok::<(), WireErrorView>(())
        } else {
            Err(
                unauthenticated_error(
                    "developer transport root must be a current-UID-owned mode-0700 non-symlink directory"@,
                ),
            )
        }),
{
    if facts.kind != FileKind::Directory || facts.uid != uid || facts.mode & 0o7777 != 0o700
        || facts.links < 2 {
        return Err(
            unauthenticated(
                "developer transport root must be a current-UID-owned mode-0700 non-symlink directory",
            ),
        );
    }
    Ok(())
}

/// Whether a file's canonical path lies within the root.
pub fn check_developer_file_location(
    root: &Vec<Vec<u8>>,
    canonical: &Vec<Vec<u8>>,
    label: &str,
) -> (r: Result<(), WireError>)
    ensures
        crate::error::outcome(r) == (if encloses(path_view(root@), path_view(canonical@)) {
            Ok::<(), WireErrorView>(())
        } else {
            Err(
                unauthenticated_error(
                    "developer "@ + label@ + " is outside the declared root"@,
                ),
            )
        }),
{
    if !path_encloses(root, canonical) {
        let mut message = "developer ".to_owned();
        message.append(label);
        message.append(" is outside the declared root");
        return Err(unauthenticated(message.as_str()));
    }
    Ok(())
}

/// Whether the second path lies within the first and is another.
pub open spec fn lies_below(root: Seq<Seq<u8>>, path: Seq<Seq<u8>>) -> bool {
    encloses(root, path) && root.len() < path.len()
}

/// A singly linked regular file of the user with mode `0600`.
pub open spec fn developer_file_ok(facts: FileFacts, uid: u32) -> bool {
    &&& facts.is_private_file()
    &&& facts.uid == uid
    &&& facts.links == 1
}

/// A file is the user's own, is named by its canonical path and lies below the root.
pub open spec fn developer_file_accepted(
    root: Seq<Seq<u8>>,
    path: Seq<Seq<u8>>,
    canonical: Seq<Seq<u8>>,
    facts: FileFacts,
    uid: u32,
) -> bool {
    path == canonical && developer_file_ok(facts, uid) && lies_below(root, path)
}

/// The directories between a file and the root, the nearest to the file first, each by the number
/// of names on its path.
pub open spec fn walks_up(directories: Seq<usize>, path_names: nat, root_names: nat) -> bool {
    &&& directories.len() == path_names - root_names - 1
    &&& forall|i: int|
        0 <= i < directories.len() ==> #[trigger] directories[i] == path_names - 1 - i
}

/// Accepts a file that is named by its canonical path and belongs to the user alone, and says
/// which directories above it must be checked, the nearest first, each by the number of names on
/// its path.
pub fn require_developer_security_file(
    root: &Vec<Vec<u8>>,
    path: &Vec<Vec<u8>>,
    canonical: &Vec<Vec<u8>>,
    facts: &FileFacts,
    uid: u32,
    label: &str,
) -> (r: Result<Vec<usize>, WireError>)
    ensures
        match r {
            Ok(directories) => path_view(path@) == path_view(canonical@) && developer_file_ok(
                *facts,
                uid,
            ) && lies_below(path_view(root@), path_view(path@)) && directories@ == Seq::new(
                (path@.len() - root@.len() - 1) as nat,
                |i: int| (path@.len() - 1 - i) as usize,
            ),
            Err(e) => if path_view(path@) != path_view(canonical@) || !developer_file_ok(
                *facts,
                uid,
            ) {
                e@ == unauthenticated_error(
                    "developer "@ + label@
                        + " must be a canonical current-UID-owned mode-0600 singly-linked regular file"@,
                )
            } else {
                !lies_below(path_view(root@), path_view(path@)) && e@ == unauthenticated_error(
                    "developer transport path did not reach the declared root"@,
                )
            },
        },
        match r {
            Ok(directories) => developer_file_accepted(
                path_view(root@),
                path_view(path@),
                path_view(canonical@),
                *facts,
                uid,
            ) && walks_up(directories@, path@.len(), root@.len()),
            Err(_) => !developer_file_accepted(
                path_view(root@),
                path_view(path@),
                path_view(canonical@),
                *facts,
                uid,
            ),
        },
{
    let same_path = path.len() == canonical.len() && path_encloses(path, canonical);
    proof {
        let a = path_view(path@);
        let b = path_view(canonical@);
        if a.len() == b.len() {
            assert(b.take(a.len() as int) =~= b);
        }
    }
    if !same_path || !facts.private_file() || facts.uid != uid || facts.links != 1 {
        let mut message = "developer ".to_owned();
        message.append(label);
        message.append(
            " must be a canonical current-UID-owned mode-0600 singly-linked regular file",
        );
        return Err(unauthenticated(message.as_str()));
    }
    if path.len() <= root.len() || !path_encloses(root, path) {
        return Err(
            unauthenticated("developer transport path did not reach the declared root"),
        );
    }
    let mut directories: Vec<usize> = Vec::new();
    let mut names: usize = path.len();
    while names - 1 > root.len()
        invariant
            root@.len() < names <= path@.len(),
            directories@ == Seq::new(
                (path@.len() - names) as nat,
                |i: int| (path@.len() - 1 - i) as usize,
            ),
        decreases names,
    {
        names = names - 1;
        directories.push(names);
        assert(directories@ =~= Seq::new(
            (path@.len() - names) as nat,
            |i: int| (path@.len() - 1 - i) as usize,
        ));
    }
    Ok(directories)
}

/// A directory of the user with nothing granted to group and other.
pub open spec fn developer_directory_ok(facts: FileFacts, uid: u32) -> bool {
    facts.kind == FileKind::Directory && facts.uid == uid && facts.mode & 0o077 == 0
}

/// Accepts a directory between the root and a file.
pub fn check_developer_directory(facts: &FileFacts, uid: u32) -> (r: Result<(), WireError>)
    ensures
        crate::error::outcome(r) == (if developer_directory_ok(*facts, uid) {
            Ok::<(), WireErrorView>(())
        } else {
            Err(
                unauthenticated_error("developer transport path contains an unsafe directory"@),
            )
        }),
{
    if facts.kind != FileKind::Directory || facts.uid != uid || facts.mode & 0o077 != 0 {
        return Err(unauthenticated("developer transport path contains an unsafe directory"));
    }
    Ok(())
}

} // verus!
