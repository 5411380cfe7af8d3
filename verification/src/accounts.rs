//! Names of users and groups, looked up in the lines of an account file.
//!
//! A line holds fields divided by colons: the name first, the numeric id
//! third, as in `/etc/passwd` and `/etc/group`.

use crate::text::{
    chars_of, decimal, decimal_string, find_char_from, first_index, first_index_from,
    parse_decimal, texts, unsigned_number,
};
use vstd::prelude::*;
use vstd::string::StringExecFns;

verus! {

/// The name that a line records: the text before its first colon.
pub open spec fn record_name(line: Seq<char>) -> Seq<char> {
    line.take(first_index(line, ':'))
}

/// The id that a line records: its third field, between the second colon
/// and the third or the end of the line, read as a decimal number. A line
/// with fewer than three fields, or with no number there, records none.
pub open spec fn record_id(line: Seq<char>) -> Option<u32> {
    let first = first_index(line, ':');
    let second = first_index_from(line, ':', first + 1);
    let third = first_index_from(line, ':', second + 1);
    if second < line.len() {
        unsigned_number(line.subrange(second + 1, third), 10)
    } else {
        None
    }
}

/// The name that goes with `id`: the one recorded by the first line that
/// records this id, and the id in decimal when no line does.
pub open spec fn name_of_id(lines: Seq<Seq<char>>, id: u32) -> Seq<char>
    decreases lines.len(),
{
    if lines.len() == 0 {
        decimal(id as nat)
    } else if record_id(lines[0]) == Some(id) {
        record_name(lines[0])
    } else {
        name_of_id(lines.drop_first(), id)
    }
}

/// Reads the id that `chars`, one line, records, and the index of its
/// first colon.
fn read_record(chars: &Vec<char>) -> (found: (Option<u32>, usize))
    ensures
        found.0 == record_id(chars@),
        found.1 == first_index(chars@, ':'),
        found.1 <= chars.len(),
{
    let first = find_char_from(chars, ':', 0);
    if first == chars.len() {
        return (None, first);
    }
    let second = find_char_from(chars, ':', first + 1);
    if second == chars.len() {
        return (None, first);
    }
    let third = find_char_from(chars, ':', second + 1);
    (parse_decimal(chars, second + 1, third), first)
}

/// The name that goes with `id` in the given lines.
fn lookup(id: u32, lines: &Vec<String>) -> (name: String)
    ensures
        name@ == name_of_id(texts(lines@), id),
{
    let ghost all = texts(lines@);
    assert(all.skip(0) =~= all);
    let mut i: usize = 0;
    while i < lines.len()
        invariant
            i <= lines.len(),
            all == texts(lines@),
            name_of_id(all.skip(i as int), id) == name_of_id(all, id),
        decreases lines.len() - i,
    {
        let line = lines[i].as_str();
        let chars = chars_of(line);
        let (found, colon) = read_record(&chars);
        proof {
            assert(all.skip(i as int)[0] == line@);
            assert(all.skip(i as int).drop_first() =~= all.skip(i + 1));
        }
        match found {
            Some(number) => {
                if number == id {
                    let name = String::from_str(line.substring_char(0, colon));
                    assert(name@ =~= record_name(line@));
                    return name;
                }
            },
            None => {},
        }
        i += 1;
    }
    assert(all.skip(i as int) =~= Seq::empty());
    decimal_string(id as u64)
}

/// The name of the user with the id `uid`, looked up in the lines of the
/// password file; the id itself, in decimal, when the lines hold no such
/// user.
pub fn get_user_name(uid: u32, passwd: &Vec<String>) -> (name: String)
    ensures
        name@ == name_of_id(texts(passwd@), uid),
{
    lookup(uid, passwd)
}

/// The name of the group with the id `gid`, looked up in the lines of the
/// group file; the id itself, in decimal, when the lines hold no such group.
pub fn get_group_name(gid: u32, groups: &Vec<String>) -> (name: String)
    ensures
        name@ == name_of_id(texts(groups@), gid),
{
    lookup(gid, groups)
}

} // verus!
