//! Permission modes: the `rwxrwxrwx` rendering and the mode changes of `chmod`.

use crate::text::{chars_of, find_char, first_index, parse_octal, range_has, unsigned_number};
use vstd::prelude::*;
use vstd::string::StringExecFns;

verus! {

/// The character shown for one permission bit: `letter` when any bit of
/// `mask` is set in `mode`, `-` otherwise.
pub open spec fn flag_char(mode: u32, mask: u32, letter: char) -> char {
    if mode & mask != 0 {
        letter
    } else {
        '-'
    }
}

/// The nine characters that render the user, group and other permission
/// bits of `mode`, most significant first.
pub open spec fn permission_text(mode: u32) -> Seq<char> {
    seq![
        flag_char(mode, 0o400, 'r'),
        flag_char(mode, 0o200, 'w'),
        flag_char(mode, 0o100, 'x'),
        flag_char(mode, 0o040, 'r'),
        flag_char(mode, 0o020, 'w'),
        flag_char(mode, 0o010, 'x'),
        flag_char(mode, 0o004, 'r'),
        flag_char(mode, 0o002, 'w'),
        flag_char(mode, 0o001, 'x'),
    ]
}

/// Appends the character for one permission bit; `letter` holds the one
/// character `c`.
fn push_flag(out: &mut String, mode: u32, mask: u32, letter: &str, Ghost(c): Ghost<char>)
    requires
        letter@ == seq![c],
    ensures
        final(out)@ == old(out)@.push(flag_char(mode, mask, c)),
{
    if mode & mask != 0 {
        out.append(letter);
    } else {
        proof {
            reveal_strlit("-");
        }
        out.append("-");
    }
    assert(out@ =~= old(out)@.push(flag_char(mode, mask, c)));
}

/// Renders the low nine bits of `mode` as `rwxrwxrwx`, with `-` in the place
/// of each bit that is clear. Higher bits (file type, setuid and the like)
/// do not show.
pub fn format_permissions(mode: u32) -> (text: String)
    ensures
        text@ == permission_text(mode),
{
    proof {
        reveal_strlit("r");
        reveal_strlit("w");
        reveal_strlit("x");
        assert("r"@ =~= seq!['r']);
        assert("w"@ =~= seq!['w']);
        assert("x"@ =~= seq!['x']);
    }
    let mut text = String::new();
    push_flag(&mut text, mode, 0o400, "r", Ghost('r'));
    push_flag(&mut text, mode, 0o200, "w", Ghost('w'));
    push_flag(&mut text, mode, 0o100, "x", Ghost('x'));
    push_flag(&mut text, mode, 0o040, "r", Ghost('r'));
    push_flag(&mut text, mode, 0o020, "w", Ghost('w'));
    push_flag(&mut text, mode, 0o010, "x", Ghost('x'));
    push_flag(&mut text, mode, 0o004, "r", Ghost('r'));
    push_flag(&mut text, mode, 0o002, "w", Ghost('w'));
    push_flag(&mut text, mode, 0o001, "x", Ghost('x'));
    assert(text@ =~= permission_text(mode));
    text
}

/// Whether Unicode gives a character the property `Alphabetic`: what
/// `char::is_alphabetic` returns.
pub uninterp spec fn unicode_alphabetic(c: char) -> bool;

/// `char::is_alphabetic` of the standard library. The contract names the
/// answer and says nothing of what it is.
pub assume_specification[ char::is_alphabetic ](c: char) -> (b: bool)
    ensures
        b == unicode_alphabetic(c),
;

/// Whether `c` is one of the letters `a`-`z` and `A`-`Z`.
pub open spec fn ascii_letter(c: char) -> bool {
    ('a' as u32 <= c as u32 <= 'z' as u32) || ('A' as u32 <= c as u32 <= 'Z' as u32)
}

/// Whether `c` is alphabetic: within ASCII a letter, and beyond ASCII
/// whatever Unicode calls alphabetic.
pub open spec fn alphabetic(c: char) -> bool {
    if (c as u32) < 128 {
        ascii_letter(c)
    } else {
        unicode_alphabetic(c)
    }
}

/// Whether `c` is alphabetic.
pub fn is_alphabetic(c: char) -> (yes: bool)
    ensures
        yes == alphabetic(c),
{
    let code: u32 = c as u32;
    if code < 128 {
        (code >= 'a' as u32 && code <= 'z' as u32) || (code >= 'A' as u32 && code <= 'Z' as u32)
    } else {
        c.is_alphabetic()
    }
}

/// The permission bits of the classes that `identity` names: `u` the user's,
/// `g` the group's, `o` the others', `a` all of them. Other characters name
/// nothing.
pub open spec fn who_bits(identity: Seq<char>) -> u32 {
    let all = identity.contains('a');
    (if all || identity.contains('u') { 0o700u32 } else { 0u32 })
    | (if all || identity.contains('g') { 0o070u32 } else { 0u32 })
    | (if all || identity.contains('o') { 0o007u32 } else { 0u32 })
}

/// The permission bits, in every class, of the kinds that `permission`
/// names: `r` read, `w` write, `x` execute. Other characters name nothing.
pub open spec fn what_bits(permission: Seq<char>) -> u32 {
    (if permission.contains('r') { 0o444u32 } else { 0u32 })
    | (if permission.contains('w') { 0o222u32 } else { 0u32 })
    | (if permission.contains('x') { 0o111u32 } else { 0u32 })
}

/// The bits that a symbolic expression touches: those that belong to a class
/// named in `identity` and to a kind named in `permission`.
pub open spec fn change_bits(identity: Seq<char>, permission: Seq<char>) -> u32 {
    who_bits(identity) & what_bits(permission)
}

/// The mode that a numeric expression writes: one or more octal digits and
/// nothing else, which a single `+` may precede, with a value that fits in
/// 32 bits.
pub open spec fn octal_mode(text: Seq<char>) -> Option<u32> {
    unsigned_number(text, 8)
}

/// What a permission expression asks for.
#[derive(Clone, Copy, Debug, PartialEq, Eq, Structural)]
pub enum ModeChange {
    /// Leave the file alone: the expression is empty, or is no octal number.
    Nothing,
    /// Replace the mode by this one.
    Absolute(u32),
    /// Set these bits in the current mode.
    Grant(u32),
    /// Clear these bits in the current mode.
    Revoke(u32),
}

/// The change that a symbolic expression asks for. With a `+` in it, the
/// text before the first `+` names the classes and the text after it the
/// kinds, and the bits are granted. Without one the first `-` divides it
/// in the same way and the bits are revoked; with neither sign no kind is
/// named, so no bit is touched.
pub open spec fn symbolic_change(perm: Seq<char>) -> ModeChange {
    if perm.contains('+') {
        let at = first_index(perm, '+');
        ModeChange::Grant(change_bits(perm.take(at), perm.skip(at + 1)))
    } else if perm.contains('-') {
        let at = first_index(perm, '-');
        ModeChange::Revoke(change_bits(perm.take(at), perm.skip(at + 1)))
    } else {
        ModeChange::Revoke(0)
    }
}

/// The change that a permission expression asks for. One that starts with
/// an alphabetic character is symbolic; any other is read as an octal
/// number.
pub open spec fn mode_change(perm: Seq<char>) -> ModeChange {
    if perm.len() == 0 {
        ModeChange::Nothing
    } else if alphabetic(perm[0]) {
        symbolic_change(perm)
    } else {
        numeric_change(perm)
    }
}

/// The mode to set after a change, given the mode the file has now; `None`
/// when the file is to be left alone.
pub open spec fn changed_mode(change: ModeChange, current: u32) -> Option<u32> {
    match change {
        ModeChange::Nothing => None,
        ModeChange::Absolute(mode) => Some(mode),
        ModeChange::Grant(bits) => Some(current | bits),
        ModeChange::Revoke(bits) => Some(current & !bits),
    }
}

impl ModeChange {
    /// Whether the change starts from the file's current mode, so that the
    /// caller has to read it first.
    pub fn reads_current(&self) -> (yes: bool)
        ensures
            yes == (self is Grant || self is Revoke),
    {
        match self {
            ModeChange::Grant(_) => true,
            ModeChange::Revoke(_) => true,
            _ => false,
        }
    }

    /// The mode to set on a file whose mode is `current`; `None` when the
    /// file is to be left alone.
    pub fn apply(&self, current: u32) -> (mode: Option<u32>)
        ensures
            mode == changed_mode(*self, current),
    {
        match self {
            ModeChange::Nothing => None,
            ModeChange::Absolute(mode) => Some(*mode),
            ModeChange::Grant(bits) => Some(current | *bits),
            ModeChange::Revoke(bits) => Some(current & !*bits),
        }
    }
}

/// The bits that the classes named in `chars[lo..hi]` own.
fn scan_who(chars: &Vec<char>, lo: usize, hi: usize) -> (bits: u32)
    requires
        lo <= hi <= chars.len(),
    ensures
        bits == who_bits(chars@.subrange(lo as int, hi as int)),
{
    let all = range_has(chars, lo, hi, 'a');
    let user: u32 = if all || range_has(chars, lo, hi, 'u') { 0o700 } else { 0 };
    let group: u32 = if all || range_has(chars, lo, hi, 'g') { 0o070 } else { 0 };
    let other: u32 = if all || range_has(chars, lo, hi, 'o') { 0o007 } else { 0 };
    user | group | other
}

/// The bits of the kinds named in `chars[lo..hi]`.
fn scan_what(chars: &Vec<char>, lo: usize, hi: usize) -> (bits: u32)
    requires
        lo <= hi <= chars.len(),
    ensures
        bits == what_bits(chars@.subrange(lo as int, hi as int)),
{
    let read: u32 = if range_has(chars, lo, hi, 'r') { 0o444 } else { 0 };
    let write: u32 = if range_has(chars, lo, hi, 'w') { 0o222 } else { 0 };
    let execute: u32 = if range_has(chars, lo, hi, 'x') { 0o111 } else { 0 };
    read | write | execute
}

/// The bits of a symbolic expression that its sign, at index `at`, divides.
fn scan_change(chars: &Vec<char>, at: usize) -> (bits: u32)
    requires
        at < chars.len(),
    ensures
        bits == change_bits(chars@.take(at as int), chars@.skip(at + 1)),
{
    assert(chars@.subrange(0, at as int) =~= chars@.take(at as int));
    assert(chars@.subrange(at + 1, chars.len() as int) =~= chars@.skip(at + 1));
    let who = scan_who(chars, 0, at);
    let what = scan_what(chars, at + 1, chars.len());
    who & what
}

/// The change that a numeric expression asks for: the mode it writes in
/// octal, and nothing where it writes none.
pub open spec fn numeric_change(perm: Seq<char>) -> ModeChange {
    match octal_mode(perm) {
        Some(mode) => ModeChange::Absolute(mode),
        None => ModeChange::Nothing,
    }
}

/// Reads the characters of a symbolic expression such as `ug+rw` or `o-x`.
fn read_symbolic(chars: &Vec<char>) -> (change: ModeChange)
    ensures
        change == symbolic_change(chars@),
{
    let plus = find_char(chars, '+');
    if plus < chars.len() {
        ModeChange::Grant(scan_change(chars, plus))
    } else {
        let minus = find_char(chars, '-');
        if minus < chars.len() {
            ModeChange::Revoke(scan_change(chars, minus))
        } else {
            ModeChange::Revoke(0)
        }
    }
}

/// Reads the characters of a numeric expression such as `644`.
fn read_numeric(chars: &Vec<char>) -> (change: ModeChange)
    ensures
        change == numeric_change(chars@),
{
    assert(chars@.subrange(0, chars.len() as int) =~= chars@);
    match parse_octal(chars, 0, chars.len()) {
        Some(mode) => ModeChange::Absolute(mode),
        None => ModeChange::Nothing,
    }
}

/// Reads `perm` as a symbolic expression, whatever it starts with.
pub fn chmod_symbolic(perm: &str) -> (change: ModeChange)
    ensures
        change == symbolic_change(perm@),
{
    read_symbolic(&chars_of(perm))
}

/// Reads `perm` as a numeric expression, whatever it starts with.
pub fn chmod_numeric(perm: &str) -> (change: ModeChange)
    ensures
        change == numeric_change(perm@),
{
    read_numeric(&chars_of(perm))
}

/// Reads a permission expression: a symbolic one such as `ug+rw` or `o-x`,
/// or an octal mode such as `644`.
///
/// The result says what to do to a file's mode; `ModeChange::apply` then
/// computes the new mode from the current one.
pub fn chmod(perm: &str) -> (change: ModeChange)
    ensures
        change == mode_change(perm@),
{
    let chars = chars_of(perm);
    if chars.len() == 0 {
        ModeChange::Nothing
    } else if is_alphabetic(chars[0]) {
        read_symbolic(&chars)
    } else {
        read_numeric(&chars)
    }
}

/// Granting bits and then revoking the same bits gives back the mode one
/// started from, provided none of the bits was set in it.
pub proof fn lemma_grant_then_revoke(mode: u32, bits: u32)
    requires
        mode & bits == 0,
    ensures
        changed_mode(ModeChange::Grant(bits), mode) is Some,
        changed_mode(ModeChange::Revoke(bits), changed_mode(ModeChange::Grant(bits), mode)->0)
            == Some(mode),
{
    assert((mode | bits) & !bits == mode) by (bit_vector)
        requires
            mode & bits == 0,
    ;
}

/// Granting and revoking are idempotent: a second application of the same
/// change leaves the mode as the first one made it.
pub proof fn lemma_change_idempotent(mode: u32, bits: u32)
    ensures
        changed_mode(ModeChange::Grant(bits), changed_mode(ModeChange::Grant(bits), mode)->0)
            == changed_mode(ModeChange::Grant(bits), mode),
        changed_mode(ModeChange::Revoke(bits), changed_mode(ModeChange::Revoke(bits), mode)->0)
            == changed_mode(ModeChange::Revoke(bits), mode),
        changed_mode(ModeChange::Absolute(bits), changed_mode(ModeChange::Absolute(bits), mode)->0)
            == changed_mode(ModeChange::Absolute(bits), mode),
{
    assert((mode | bits) | bits == mode | bits) by (bit_vector);
    assert((mode & !bits) & !bits == mode & !bits) by (bit_vector);
}

/// The letters of an expression add up: the classes named by two texts
/// together own the bits that either text's classes own, and likewise for
/// the kinds; the bits that an expression touches are the union over its
/// letters.
pub proof fn lemma_letters_combine(a: Seq<char>, b: Seq<char>, other: Seq<char>)
    ensures
        who_bits(a + b) == who_bits(a) | who_bits(b),
        what_bits(a + b) == what_bits(a) | what_bits(b),
        change_bits(a + b, other) == change_bits(a, other) | change_bits(b, other),
        change_bits(other, a + b) == change_bits(other, a) | change_bits(other, b),
{
    assert forall|c: char| (a + b).contains(c) == (a.contains(c) || b.contains(c)) by {
        if a.contains(c) {
            let i = choose|i: int| 0 <= i < a.len() && a[i] == c;
            assert((a + b)[i] == c);
        }
        if b.contains(c) {
            let i = choose|i: int| 0 <= i < b.len() && b[i] == c;
            assert((a + b)[a.len() + i] == c);
        }
        if (a + b).contains(c) {
            let i = choose|i: int| 0 <= i < (a + b).len() && (a + b)[i] == c;
            if i < a.len() {
                assert(a[i] == c);
            } else {
                assert(b[i - a.len()] == c);
            }
        }
    }
    let (wa, wb, wab) = (who_bits(a), who_bits(b), who_bits(a + b));
    let (ka, kb, kab) = (what_bits(a), what_bits(b), what_bits(a + b));
    let o_who = who_bits(other);
    let o_what = what_bits(other);
    lemma_or_of_parts(
        a.contains('a') || a.contains('u'),
        a.contains('a') || a.contains('g'),
        a.contains('a') || a.contains('o'),
        b.contains('a') || b.contains('u'),
        b.contains('a') || b.contains('g'),
        b.contains('a') || b.contains('o'),
        0o700,
        0o070,
        0o007,
    );
    lemma_or_of_parts(
        a.contains('r'),
        a.contains('w'),
        a.contains('x'),
        b.contains('r'),
        b.contains('w'),
        b.contains('x'),
        0o444,
        0o222,
        0o111,
    );
    assert(wab == wa | wb);
    assert(kab == ka | kb);
    assert((wa | wb) & o_what == (wa & o_what) | (wb & o_what)) by (bit_vector);
    assert(o_who & (ka | kb) == (o_who & ka) | (o_who & kb)) by (bit_vector);
}

/// One of three masks, taken or not.
spec fn part(take: bool, mask: u32) -> u32 {
    if take {
        mask
    } else {
        0
    }
}

/// Three masks, each taken or not: taking a mask when either of two tests
/// asks for it gives the union of what each test alone takes.
proof fn lemma_or_of_parts(
    p1: bool,
    p2: bool,
    p3: bool,
    q1: bool,
    q2: bool,
    q3: bool,
    m1: u32,
    m2: u32,
    m3: u32,
)
    ensures
        part(p1 || q1, m1) | part(p2 || q2, m2) | part(p3 || q3, m3) == (part(p1, m1) | part(
            p2,
            m2,
        ) | part(p3, m3)) | (part(q1, m1) | part(q2, m2) | part(q3, m3)),
{
    let (a1, a2, a3) = (part(p1, m1), part(p2, m2), part(p3, m3));
    let (b1, b2, b3) = (part(q1, m1), part(q2, m2), part(q3, m3));
    assert(part(p1 || q1, m1) == a1 | b1) by {
        assert(m1 | m1 == m1 && m1 | 0 == m1 && 0 | m1 == m1 && 0u32 | 0 == 0) by (bit_vector);
    }
    assert(part(p2 || q2, m2) == a2 | b2) by {
        assert(m2 | m2 == m2 && m2 | 0 == m2 && 0 | m2 == m2 && 0u32 | 0 == 0) by (bit_vector);
    }
    assert(part(p3 || q3, m3) == a3 | b3) by {
        assert(m3 | m3 == m3 && m3 | 0 == m3 && 0 | m3 == m3 && 0u32 | 0 == 0) by (bit_vector);
    }
    assert(((a1 | b1) | (a2 | b2) | (a3 | b3)) == (a1 | a2 | a3) | (b1 | b2 | b3)) by (bit_vector);
}

/// `u+x` grants, and `u-x` revokes, the user's execute bit and no other.
pub proof fn lemma_user_execute()
    ensures
        mode_change("u+x"@) == ModeChange::Grant(0o100),
        mode_change("u-x"@) == ModeChange::Revoke(0o100),
{
    reveal_strlit("u+x");
    reveal_strlit("u-x");
    reveal_with_fuel(crate::text::first_index_from, 3);
    assert((0o700u32 | 0u32 | 0u32) & (0u32 | 0u32 | 0o111u32) == 0o100u32) by (bit_vector);
    let grant = "u+x"@;
    assert(grant[1] == '+');
    assert(grant.contains('+'));
    assert(grant.take(1) =~= seq!['u']);
    assert(grant.skip(2) =~= seq!['x']);
    let revoke = "u-x"@;
    assert(revoke[1] == '-');
    assert(revoke.contains('-'));
    assert(!revoke.contains('+'));
    assert(revoke.take(1) =~= seq!['u']);
    assert(revoke.skip(2) =~= seq!['x']);
    assert(seq!['u'].contains('u')) by {
        assert(seq!['u'][0] == 'u');
    }
    assert(seq!['x'].contains('x')) by {
        assert(seq!['x'][0] == 'x');
    }
}

/// The expression `u+x` followed by `u-x` restores the mode of a file that
/// the user could not execute before.
pub proof fn lemma_execute_round_trip(mode: u32)
    requires
        mode & 0o100 == 0,
    ensures
        changed_mode(mode_change("u+x"@), mode) is Some,
        changed_mode(mode_change("u-x"@), changed_mode(mode_change("u+x"@), mode)->0) == Some(
            mode,
        ),
{
    lemma_user_execute();
    lemma_grant_then_revoke(mode, 0o100);
}

} // verus!
