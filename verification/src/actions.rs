//! The decisions of `rm`, `touch` and `ln`: what to do to a path, given
//! what is known of it.

use crate::entry::EntryKind;
use vstd::prelude::*;

verus! {

/// How `rm` removes an entry.
#[derive(Clone, Copy, Debug, PartialEq, Eq, Structural)]
pub enum Removal {
    /// Remove it as a file.
    File,
    /// Remove the directory with everything in it.
    Tree,
    /// Remove the directory, which has to be empty.
    EmptyDirectory,
}

/// Why `rm` removes nothing.
#[derive(Clone, Copy, Debug, PartialEq, Eq, Structural)]
pub enum RemoveError {
    /// The entry is a directory, and neither flag allows removing one.
    IsDirectory,
    /// The entry is neither a file, nor a link, nor a directory.
    NotRemovable,
}

/// What `rm` does to an entry of each kind: a file or a link is removed as
/// a file; a directory goes with its contents under the recursive flag,
/// else as an empty directory under the directory flag, and not at all
/// without either.
pub open spec fn removal(kind: EntryKind, recursive: bool, empty_dirs: bool) -> Result<
    Removal,
    RemoveError,
> {
    match kind {
        EntryKind::File => Ok(Removal::File),
        EntryKind::Symlink => Ok(Removal::File),
        EntryKind::Directory => if recursive {
            Ok(Removal::Tree)
        } else if empty_dirs {
            Ok(Removal::EmptyDirectory)
        } else {
            Err(RemoveError::IsDirectory)
        },
        EntryKind::Other => Err(RemoveError::NotRemovable),
    }
}

/// Decides how to remove an entry of the given kind; `flag_r` allows
/// removing a directory with its contents, `flag_d` removing an empty one.
pub fn rm(kind: EntryKind, flag_r: bool, flag_d: bool) -> (how: Result<Removal, RemoveError>)
    ensures
        how == removal(kind, flag_r, flag_d),
{
    match kind {
        EntryKind::File => Ok(Removal::File),
        EntryKind::Symlink => Ok(Removal::File),
        EntryKind::Directory => if flag_r {
            Ok(Removal::Tree)
        } else if flag_d {
            Ok(Removal::EmptyDirectory)
        } else {
            Err(RemoveError::IsDirectory)
        },
        EntryKind::Other => Err(RemoveError::NotRemovable),
    }
}

/// What `touch` does to a path.
#[derive(Clone, Copy, Debug, PartialEq, Eq, Structural)]
pub enum Touch {
    /// Read the file, remove it, and write it anew with the same content,
    /// which renews its times.
    Rewrite,
    /// Leave the path as it is.
    Nothing,
    /// Create an empty file.
    Create,
}

/// What `touch` does: a path that exists, or that is not to be created, is
/// rewritten when a time is to be renewed and left alone otherwise; any
/// other path is created.
pub open spec fn touch_action(present: bool, access: bool, no_create: bool, modify: bool) -> Touch {
    if present || no_create {
        if access || modify {
            Touch::Rewrite
        } else {
            Touch::Nothing
        }
    } else {
        Touch::Create
    }
}

/// Decides what `touch` does to a path. `present` says whether the path is
/// there; `flag_a` and `flag_m` ask to renew the access and the
/// modification time, `flag_c` forbids creating the file.
pub fn touch(present: bool, flag_a: bool, flag_c: bool, flag_m: bool) -> (action: Touch)
    ensures
        action == touch_action(present, flag_a, flag_c, flag_m),
{
    if present || flag_c {
        if flag_a || flag_m {
            Touch::Rewrite
        } else {
            Touch::Nothing
        }
    } else {
        Touch::Create
    }
}

/// The kind of link that `ln` makes.
#[derive(Clone, Copy, Debug, PartialEq, Eq, Structural)]
pub enum Link {
    /// A symbolic link.
    Symbolic,
    /// A hard link.
    Hard,
}

/// Decides the kind of link: the option `s` asks for a symbolic link, any
/// other for a hard one.
pub fn ln(option: char) -> (kind: Link)
    ensures
        kind == if option == 's' {
            Link::Symbolic
        } else {
            Link::Hard
        },
{
    if option == 's' {
        Link::Symbolic
    } else {
        Link::Hard
    }
}

} // verus!
