//! Listing directories: the plain listing of `ls`, and the walk of `ls -R`.

use crate::entry::{names_of, paths_of, Entry, EntryKind};
use crate::path::joined;
use crate::text::{contains_slash_dot, dot_first, has_slash_dot, starts_with_dot, texts};
use vstd::prelude::*;
use vstd::string::StringExecFns;

verus! {

/// How `ls` treats what it was pointed at.
#[derive(Clone, Copy, Debug, PartialEq, Eq, Structural)]
pub enum LsPlan {
    /// Print the path itself.
    PrintPath,
    /// Read the directory and list its entries.
    List,
    /// List the directory and everything below it.
    Walk,
    /// Print nothing.
    Nothing,
}

/// The plan for an entry of each kind: a file or a link is printed by its
/// path, a directory is listed, recursively when asked, and anything else
/// is passed over.
pub open spec fn ls_plan(kind: EntryKind, recursive: bool) -> LsPlan {
    match kind {
        EntryKind::File => LsPlan::PrintPath,
        EntryKind::Symlink => LsPlan::PrintPath,
        EntryKind::Directory => if recursive {
            LsPlan::Walk
        } else {
            LsPlan::List
        },
        EntryKind::Other => LsPlan::Nothing,
    }
}

/// Decides what `ls` does with an entry of the given kind; `flag_r` asks
/// for a recursive listing.
pub fn ls(kind: EntryKind, flag_r: bool) -> (plan: LsPlan)
    ensures
        plan == ls_plan(kind, flag_r),
{
    match kind {
        EntryKind::File => LsPlan::PrintPath,
        EntryKind::Symlink => LsPlan::PrintPath,
        EntryKind::Directory => if flag_r {
            LsPlan::Walk
        } else {
            LsPlan::List
        },
        EntryKind::Other => LsPlan::Nothing,
    }
}

/// The lines of a plain listing: with `show_hidden` the two dot entries
/// and then every name, without it the names that do not start with a dot.
pub open spec fn listed(names: Seq<Seq<char>>, show_hidden: bool) -> Seq<Seq<char>> {
    (if show_hidden {
        dot_lines()
    } else {
        Seq::empty()
    }) + names.filter(name_listed(show_hidden))
}

/// The test that a plain listing puts a name to: every name passes when
/// hidden entries are asked for, else those that do not start with a dot.
pub open spec fn name_listed(show_hidden: bool) -> spec_fn(Seq<char>) -> bool {
    |name: Seq<char>| show_hidden || !dot_first(name)
}

/// Lists the entries of one directory, given their names in the order in
/// which they were read. `flag_a` asks for hidden entries too.
pub fn ls_names(names: &Vec<String>, flag_a: bool) -> (lines: Vec<String>)
    ensures
        texts(lines@) == listed(texts(names@), flag_a),
{
    let mut lines: Vec<String> = Vec::new();
    if flag_a {
        proof {
            reveal_strlit(".");
            reveal_strlit("..");
        }
        lines.push(String::from_str("."));
        lines.push(String::from_str(".."));
        assert("."@ =~= seq!['.']);
        assert(".."@ =~= seq!['.', '.']);
    }
    let ghost head = texts(lines@);
    assert(head =~= if flag_a {
        dot_lines()
    } else {
        Seq::empty()
    });
    let ghost pred = name_listed(flag_a);
    let mut i: usize = 0;
    while i < names.len()
        invariant
            i <= names.len(),
            pred == name_listed(flag_a),
            texts(lines@) == head + texts(names@.take(i as int)).filter(pred),
        decreases names.len() - i,
    {
        let name = &names[i];
        proof {
            assert(names@.take(i + 1) =~= names@.take(i as int).push(*name));
            assert(texts(names@.take(i + 1)) =~= texts(names@.take(i as int)).push(name@));
            texts(names@.take(i as int)).lemma_filter_push(name@, pred);
        }
        if flag_a || !starts_with_dot(name.as_str()) {
            let ghost lines_before = lines@;
            lines.push(name.clone());
            assert(texts(lines@) =~= texts(lines_before).push(name@));
        }
        i += 1;
    }
    assert(names@.take(i as int) =~= names@);
    lines
}

/// A name that starts with a dot is listed when hidden entries are asked
/// for, and is left out when they are not.
pub proof fn lemma_hidden_needs_flag(names: Seq<Seq<char>>, name: Seq<char>)
    requires
        names.contains(name),
        dot_first(name),
    ensures
        listed(names, true).contains(name),
        !listed(names, false).contains(name),
{
    let all = name_listed(true);
    let plain = name_listed(false);
    let at = choose|i: int| 0 <= i < names.len() && names[i] == name;
    names.lemma_filter_contains(all, at);
    let kept = names.filter(all);
    let k = choose|k: int| 0 <= k < kept.len() && kept[k] == name;
    assert(listed(names, true)[dot_lines().len() + k] == name);
    if listed(names, false).contains(name) {
        let shown = names.filter(plain);
        assert(listed(names, false) =~= shown);
        let j = choose|j: int| 0 <= j < shown.len() && shown[j] == name;
        names.lemma_filter_pred(plain, j);
    }
}

/// The entries that a recursive listing shows and descends into: all of
/// them when hidden entries are asked for, else those whose path has no
/// component, after the first, that starts with a dot.
pub open spec fn shown(entries: Seq<Entry>, show_hidden: bool) -> Seq<Entry> {
    entries.filter(entry_shown(show_hidden))
}

/// The test that a recursive listing puts an entry to.
pub open spec fn entry_shown(show_hidden: bool) -> spec_fn(Entry) -> bool {
    |e: Entry| show_hidden || !has_slash_dot(e.path@)
}

/// The two lines that stand for a directory itself and for its parent.
pub open spec fn dot_lines() -> Seq<Seq<char>> {
    seq![seq!['.'], seq!['.', '.']]
}

/// The lines that a recursive listing prints for one directory: its path
/// with a colon, the two dot entries when hidden entries are asked for, and
/// the name of each entry shown.
pub open spec fn level_lines(path: Seq<char>, show_hidden: bool, entries: Seq<Entry>) -> Seq<
    Seq<char>,
> {
    seq![path.push(':')] + (if show_hidden {
        dot_lines()
    } else {
        Seq::empty()
    }) + names_of(shown(entries, show_hidden))
}

/// Without the flag for hidden entries, an entry whose path has a dotted
/// component is not among those that a recursive listing goes on to visit.
pub proof fn lemma_hidden_not_entered(entries: Seq<Entry>, entry: Entry)
    requires
        has_slash_dot(entry.path@),
    ensures
        !paths_of(shown(entries, false)).contains(entry.path@),
{
    let kept = shown(entries, false);
    if paths_of(kept).contains(entry.path@) {
        let i = choose|i: int| 0 <= i < paths_of(kept).len() && paths_of(kept)[i] == entry.path@;
        entries.lemma_filter_pred(entry_shown(false), i);
    }
}

/// An entry of a directory whose name starts with a dot is hidden from a
/// recursive listing: its path, the name joined onto the path of the
/// directory, has a dotted component, so that without the flag for hidden
/// entries the listing does not go on to visit it.
pub proof fn lemma_hidden_name_not_entered(dir: Seq<char>, entry: Entry, entries: Seq<Entry>)
    requires
        dir.len() > 0,
        entry.path@ == joined(dir, entry.name@),
        dot_first(entry.name@),
    ensures
        has_slash_dot(entry.path@),
        !paths_of(shown(entries, false)).contains(entry.path@),
{
    let path = entry.path@;
    let end = dir.len() as int;
    if dir.last() != '/' {
        assert(path[end] == '/' && path[end + 1] == '.');
    } else {
        assert(path[end - 1] == '/' && path[end] == '.');
    }
    lemma_hidden_not_entered(entries, entry);
}

/// A recursive listing in progress: the paths that are still to be visited.
///
/// The walk is driven from outside. `next` hands out the path to look at;
/// the caller finds out whether it is a directory and reads its entries;
/// `visit` then returns the lines to print and notes where to go on.
pub struct ListWalk {
    stack: Vec<String>,
    show_hidden: bool,
}

impl ListWalk {
    /// The paths still to be visited, the next one first.
    pub closed spec fn queue(&self) -> Seq<Seq<char>> {
        texts(self.stack@).reverse()
    }

    /// Whether the walk shows hidden entries.
    pub closed spec fn show_hidden(&self) -> bool {
        self.show_hidden
    }

    /// Takes the next path off the queue; `None` when the walk is over.
    pub fn next(&mut self) -> (path: Option<String>)
        ensures
            final(self).show_hidden() == old(self).show_hidden(),
            old(self).queue().len() == 0 ==> path is None && final(self).queue() == old(
                self,
            ).queue(),
            old(self).queue().len() > 0 ==> path is Some && path->0@ == old(self).queue()[0]
                && final(self).queue() == old(self).queue().skip(1),
    {
        let path = self.stack.pop();
        proof {
            if old(self).stack@.len() > 0 {
                assert(self.queue() =~= old(self).queue().skip(1));
            } else {
                assert(self.queue() =~= old(self).queue());
            }
        }
        path
    }

    /// Takes in what was found at `path`, and returns the lines to print
    /// for it.
    ///
    /// Something that is no directory prints nothing. For a directory the
    /// lines are its header and the entries shown, and the entries shown are
    /// put at the front of the queue, in the order in which they were read:
    /// a directory is listed whole before the walk descends into any of its
    /// entries.
    pub fn visit(&mut self, path: &str, is_dir: bool, entries: &Vec<Entry>) -> (lines: Vec<String>)
        ensures
            final(self).show_hidden() == old(self).show_hidden(),
            !is_dir ==> lines@.len() == 0 && final(self).queue() == old(self).queue(),
            is_dir ==> texts(lines@) == level_lines(path@, old(self).show_hidden(), entries@),
            is_dir ==> final(self).queue() == paths_of(shown(entries@, old(self).show_hidden()))
                + old(self).queue(),
    {
        let mut lines: Vec<String> = Vec::new();
        if !is_dir {
            return lines;
        }
        let show_hidden = self.show_hidden;
        let mut header = String::from_str(path);
        proof {
            reveal_strlit(":");
            reveal_strlit(".");
            reveal_strlit("..");
        }
        header.append(":");
        assert(header@ =~= path@.push(':'));
        lines.push(header);
        if show_hidden {
            lines.push(String::from_str("."));
            lines.push(String::from_str(".."));
            assert("."@ =~= seq!['.']);
            assert(".."@ =~= seq!['.', '.']);
        }
        let ghost head = texts(lines@);
        assert(head =~= seq![path@.push(':')] + (if show_hidden {
            dot_lines()
        } else {
            Seq::empty()
        }));
        let mut kept: Vec<String> = Vec::new();
        let mut i: usize = 0;
        while i < entries.len()
            invariant
                i <= entries.len(),
                texts(lines@) == head + names_of(shown(entries@.take(i as int), show_hidden)),
                texts(kept@) == paths_of(shown(entries@.take(i as int), show_hidden)),
            decreases entries.len() - i,
        {
            let entry = &entries[i];
            proof {
                let pred = entry_shown(show_hidden);
                assert(entries@.take(i + 1) =~= entries@.take(i as int).push(*entry));
                entries@.take(i as int).lemma_filter_push(*entry, pred);
            }
            if show_hidden || !contains_slash_dot(entry.path.as_str()) {
                let ghost before = shown(entries@.take(i as int), show_hidden);
                let ghost lines_before = lines@;
                let ghost kept_before = kept@;
                lines.push(entry.name.clone());
                kept.push(entry.path.clone());
                assert(texts(lines@) =~= texts(lines_before).push(entry.name@));
                assert(texts(kept@) =~= texts(kept_before).push(entry.path@));
                assert(names_of(before.push(*entry)) =~= names_of(before).push(entry.name@));
                assert(paths_of(before.push(*entry)) =~= paths_of(before).push(entry.path@));
                assert(texts(lines@) =~= head + names_of(before.push(*entry)));
            }
            i += 1;
        }
        assert(entries@.take(i as int) =~= entries@);
        assert(show_hidden ==> texts(lines@) =~= level_lines(path@, show_hidden, entries@));
        let ghost children = texts(kept@);
        let ghost old_stack = self.stack@;
        while kept.len() > 0
            invariant
                self.show_hidden == show_hidden,
                kept@.len() <= children.len(),
                texts(kept@) == children.take(kept@.len() as int),
                texts(self.stack@) == texts(old_stack) + children.skip(
                    kept@.len() as int,
                ).reverse(),
            decreases kept.len(),
        {
            let ghost n = kept@.len() as int;
            let ghost stack_before = self.stack@;
            let ghost kept_before = kept@;
            let child = kept.pop().unwrap();
            self.stack.push(child);
            assert(texts(kept_before)[n - 1] == child@);
            assert(texts(kept@) =~= children.take(n - 1));
            assert(texts(self.stack@) =~= texts(stack_before).push(child@));
            assert(children.skip(n - 1).reverse() =~= children.skip(n).reverse().push(
                children[n - 1],
            ));
        }
        assert(self.queue() =~= children + old(self).queue());
        lines
    }
}

/// Starts a recursive listing at `path`. With `flag_a` hidden entries are
/// listed and entered too.
pub fn ls_r(path: &str, flag_a: bool) -> (walk: ListWalk)
    ensures
        walk.queue() == seq![path@],
        walk.show_hidden() == flag_a,
{
    let mut stack: Vec<String> = Vec::new();
    stack.push(String::from_str(path));
    let walk = ListWalk { stack, show_hidden: flag_a };
    assert(walk.queue() =~= seq![path@]);
    walk
}

} // verus!
