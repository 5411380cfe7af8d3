//! What the commands know of a file-system entry.

use vstd::prelude::*;

verus! {

/// The kind of a file-system entry, as its metadata reports it.
#[derive(Clone, Copy, Debug, PartialEq, Eq, Structural)]
pub enum EntryKind {
    /// A regular file.
    File,
    /// A symbolic link.
    Symlink,
    /// A directory.
    Directory,
    /// Anything else: a device, a socket, a pipe.
    Other,
}

/// One entry found in a directory: its full path and its own name. The
/// path is the name joined onto the path of the directory.
#[derive(Clone, Debug, PartialEq, Eq)]
pub struct Entry {
    /// The path of the entry: the directory's path with the name joined on.
    pub path: String,
    /// The last component of `path`.
    pub name: String,
}

/// The names of `entries`, in order.
pub open spec fn names_of(entries: Seq<Entry>) -> Seq<Seq<char>> {
    entries.map_values(|e: Entry| e.name@)
}

/// The paths of `entries`, in order.
pub open spec fn paths_of(entries: Seq<Entry>) -> Seq<Seq<char>> {
    entries.map_values(|e: Entry| e.path@)
}

} // verus!
