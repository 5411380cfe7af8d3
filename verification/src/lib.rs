//! Verified building blocks for a small set of Unix command-line tools:
//! `echo`, `ls`, `cp`, `rm`, `touch`, `ln`, `chmod` and `grep`.
//!
//! Every function here computes on plain values: the text a command prints,
//! the file mode it sets, the next step of a directory walk. Reading and
//! writing the file system is left to the caller, who tells the library
//! what it found and does what the library decides.
//!
//! - `mode`: the `rwxrwxrwx` rendering, and the expressions of `chmod`.
//! - `listing`, `long_listing`: the output of `ls`, `ls -R` and `ls -l`.
//! - `copy`: where `cp` puts things, and the walk of `cp -r`.
//! - `tree`: a directory tree as a value, and the proofs that the two walks
//!   list and mirror it.
//! - `actions`: the decisions of `rm`, `touch` and `ln`.
//! - `search`: the lines that `grep` picks.
//! - `accounts`: the names of users and groups.
//! - `args`, `path`, `text`, `entry`: arguments, paths, texts and entries.

pub mod accounts;
pub mod actions;
pub mod args;
pub mod copy;
pub mod entry;
pub mod listing;
pub mod long_listing;
pub mod mode;
pub mod path;
pub mod search;
pub mod text;
pub mod tree;
