//! The long listing of `ls -l`: the order of the entries and the line that
//! each of them gets.

use crate::accounts::{get_group_name, get_user_name, name_of_id};
use crate::mode::{format_permissions, permission_text};
use crate::text::{chars_of, decimal, dot_first, push_decimal, starts_with_dot, texts};
use vstd::prelude::*;
use vstd::string::StringExecFns;

verus! {

/// The code of a character with the ASCII capitals folded onto the small
/// letters.
pub open spec fn fold_case(c: char) -> u32 {
    if 'A' as u32 <= c as u32 <= 'Z' as u32 {
        (c as u32 + 32) as u32
    } else {
        c as u32
    }
}

/// Whether `a`, read from index `from` on, comes no later than `b`, read
/// from the same index on: the order of a dictionary on the folded codes.
pub open spec fn key_le_from(a: Seq<char>, b: Seq<char>, from: int) -> bool
    decreases a.len() - from,
{
    if from < 0 || from >= a.len() {
        true
    } else if from >= b.len() {
        false
    } else if fold_case(a[from]) != fold_case(b[from]) {
        fold_case(a[from]) < fold_case(b[from])
    } else {
        key_le_from(a, b, from + 1)
    }
}

/// Whether the name `a` sorts no later than the name `b`: names are
/// compared character by character, without regard to the case of ASCII
/// letters.
pub open spec fn key_le(a: Seq<char>, b: Seq<char>) -> bool {
    key_le_from(a, b, 0)
}

/// Of two names one sorts no later than the other.
pub proof fn lemma_key_le_total(a: Seq<char>, b: Seq<char>, from: int)
    requires
        0 <= from,
    ensures
        key_le_from(a, b, from) || key_le_from(b, a, from),
    decreases a.len() - from,
{
    if from < a.len() && from < b.len() && fold_case(a[from]) == fold_case(b[from]) {
        lemma_key_le_total(a, b, from + 1);
    }
}

/// The order of names is transitive.
pub proof fn lemma_key_le_transitive(a: Seq<char>, b: Seq<char>, c: Seq<char>, from: int)
    requires
        0 <= from,
        key_le_from(a, b, from),
        key_le_from(b, c, from),
    ensures
        key_le_from(a, c, from),
    decreases a.len() - from,
{
    if from < a.len() {
        if fold_case(a[from]) == fold_case(b[from]) && fold_case(b[from]) == fold_case(c[from]) {
            lemma_key_le_transitive(a, b, c, from + 1);
        }
    }
}

/// Whether `order` lists the indices of `names` in the order of a long
/// listing: every index once, sorted by name, and names that sort alike in
/// the order in which they were given.
pub open spec fn is_listing_order(names: Seq<Seq<char>>, order: Seq<usize>) -> bool {
    &&& order.len() == names.len()
    &&& forall|i: int| 0 <= i < order.len() ==> (#[trigger] order[i]) < names.len()
    &&& forall|i: int, j: int|
        0 <= i < j < order.len() ==> #[trigger] order[i] != #[trigger] order[j]
    &&& forall|i: int, j: int|
        0 <= i < j < order.len() ==> key_le(
            names[#[trigger] order[i] as int],
            names[#[trigger] order[j] as int],
        )
    &&& forall|i: int, j: int|
        0 <= i < j < order.len() && key_le(
            names[#[trigger] order[i] as int],
            names[#[trigger] order[j] as int],
        ) && key_le(names[order[j] as int], names[order[i] as int]) ==> order[i] < order[j]
}

/// The folded code of a character.
fn folded(c: char) -> (code: u32)
    ensures
        code == fold_case(c),
{
    let code: u32 = c as u32;
    if code >= 'A' as u32 && code <= 'Z' as u32 {
        code + 32
    } else {
        code
    }
}

/// Whether the name `a` sorts no later than the name `b`.
fn name_le(a: &Vec<char>, b: &Vec<char>) -> (le: bool)
    ensures
        le == key_le(a@, b@),
{
    let mut i: usize = 0;
    while i < a.len()
        invariant
            i <= a.len(),
            key_le_from(a@, b@, i as int) == key_le(a@, b@),
        decreases a.len() - i,
    {
        if i >= b.len() {
            return false;
        }
        let x = folded(a[i]);
        let y = folded(b[i]);
        if x != y {
            return x < y;
        }
        i += 1;
    }
    true
}

/// The order in which a long listing shows the entries with the given
/// names: sorted by name without regard to the case of ASCII letters, names
/// that sort alike staying in the order given. The result holds indices
/// into `names`.
pub fn ls_l_order(names: &Vec<String>) -> (order: Vec<usize>)
    ensures
        is_listing_order(texts(names@), order@),
{
    let ghost all = texts(names@);
    let mut keys: Vec<Vec<char>> = Vec::new();
    let mut k: usize = 0;
    while k < names.len()
        invariant
            k <= names.len(),
            keys.len() == k,
            all == texts(names@),
            forall|i: int| 0 <= i < k ==> (#[trigger] keys[i])@ == all[i],
        decreases names.len() - k,
    {
        keys.push(chars_of(names[k].as_str()));
        k += 1;
    }
    let mut order: Vec<usize> = Vec::new();
    let mut m: usize = 0;
    while m < keys.len()
        invariant
            m <= keys.len(),
            keys.len() == all.len(),
            forall|i: int| 0 <= i < keys.len() ==> (#[trigger] keys[i])@ == all[i],
            is_listing_order(all.take(m as int), order@),
        decreases keys.len() - m,
    {
        let ghost before = order@;
        let mut pos: usize = order.len();
        while pos > 0 && !name_le(&keys[order[pos - 1]], &keys[m])
            invariant
                pos <= order.len(),
                order.len() == m,
                m < keys.len(),
                keys.len() == all.len(),
                forall|i: int| 0 <= i < keys.len() ==> (#[trigger] keys[i])@ == all[i],
                forall|i: int| 0 <= i < order.len() ==> (#[trigger] order[i]) < m,
                forall|j: int|
                    pos <= j < order.len() ==> !key_le(all[#[trigger] order[j] as int], all[m as int]),
            decreases pos,
        {
            pos -= 1;
        }
        order.insert(pos, m);
        proof {
            let after = order@;
            let old_names = all.take(m as int);
            let new_names = all.take(m + 1);
            before.insert_ensures(pos as int, m);
            assert forall|i: int| 0 <= i < after.len() implies (#[trigger] after[i])
                < new_names.len() by {
                if i < pos {
                    assert(after[i] == before[i]);
                } else if i > pos {
                    assert(after[i] == before[i - 1]);
                }
            }
            assert forall|i: int, j: int| 0 <= i < j < after.len() implies {
                &&& #[trigger] after[i] != #[trigger] after[j]
                &&& key_le(new_names[after[i] as int], new_names[after[j] as int])
                &&& (key_le(new_names[after[j] as int], new_names[after[i] as int]) ==> after[i]
                    < after[j])
            } by {
                let oi = if i < pos { i } else { i - 1 };
                let oj = if j < pos { j } else { j - 1 };
                if i != pos {
                    assert(after[i] == before[oi]);
                    assert(before[oi] < m);
                    assert(new_names[after[i] as int] == old_names[before[oi] as int]);
                }
                if j != pos {
                    assert(after[j] == before[oj]);
                    assert(before[oj] < m);
                    assert(new_names[after[j] as int] == old_names[before[oj] as int]);
                }
                if i != pos && j != pos {
                    assert(oi < oj);
                } else if j == pos {
                    // an entry that stays in front of the new one
                    let last = before[pos - 1];
                    assert(key_le(all[last as int], all[m as int]));
                    if oi < pos - 1 {
                        assert(key_le(old_names[before[oi] as int], old_names[last as int]));
                        lemma_key_le_transitive(
                            all[before[oi] as int],
                            all[last as int],
                            all[m as int],
                            0,
                        );
                    }
                } else {
                    // an entry that ends up behind the new one
                    assert(!key_le(all[before[oj] as int], all[m as int]));
                    lemma_key_le_total(all[before[oj] as int], all[m as int], 0);
                }
            }
        }
        m += 1;
    }
    assert(all.take(m as int) =~= all);
    order
}

/// What a long listing shows of one entry.
#[derive(Clone, Debug, PartialEq, Eq)]
pub struct LongEntry {
    /// The name of the entry.
    pub name: String,
    /// Whether the entry is a directory.
    pub is_dir: bool,
    /// The mode bits of the entry.
    pub mode: u32,
    /// The id of the user who owns the entry.
    pub uid: u32,
    /// The id of the group that owns the entry.
    pub gid: u32,
    /// The size of the entry in bytes.
    pub size: u64,
    /// The time of the last change, as it is to be shown.
    pub modified: String,
}

/// The line of a long listing for one entry: the type and the permissions,
/// then the owner, the group, the size, the time and the name, with one
/// space between them.
pub open spec fn long_line(
    entry: LongEntry,
    passwd: Seq<Seq<char>>,
    groups: Seq<Seq<char>>,
) -> Seq<char> {
    seq![if entry.is_dir { 'd' } else { '-' }] + permission_text(entry.mode) + seq![' ']
        + name_of_id(passwd, entry.uid) + seq![' '] + name_of_id(groups, entry.gid) + seq![' ']
        + decimal(entry.size as nat) + seq![' '] + entry.modified@ + seq![' '] + entry.name@
}

/// The line that a long listing prints for `entry`, or `None` for a hidden
/// entry, which gets no line. `passwd` and `groups` are the lines of the
/// files that give users and groups their names.
pub fn ls_l_line(entry: &LongEntry, passwd: &Vec<String>, groups: &Vec<String>) -> (line: Option<
    String,
>)
    ensures
        dot_first(entry.name@) ==> line is None,
        !dot_first(entry.name@) ==> line is Some && line->0@ == long_line(
            *entry,
            texts(passwd@),
            texts(groups@),
        ),
{
    if starts_with_dot(entry.name.as_str()) {
        return None;
    }
    let owner = get_user_name(entry.uid, passwd);
    let group = get_group_name(entry.gid, groups);
    proof {
        reveal_strlit("d");
        reveal_strlit("-");
        reveal_strlit(" ");
    }
    let mut line = String::from_str(if entry.is_dir { "d" } else { "-" });
    let permissions = format_permissions(entry.mode);
    line.append(permissions.as_str());
    line.append(" ");
    line.append(owner.as_str());
    line.append(" ");
    line.append(group.as_str());
    line.append(" ");
    push_decimal(&mut line, entry.size);
    line.append(" ");
    line.append(entry.modified.as_str());
    line.append(" ");
    line.append(entry.name.as_str());
    assert(line@ =~= long_line(*entry, texts(passwd@), texts(groups@)));
    Some(line)
}

} // verus!
