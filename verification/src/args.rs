//! Arguments: slicing the argument list, checking a flag against the valid
//! ones, and the text that `echo` prints.

use crate::text::{chars_of, texts};
use vstd::prelude::*;
use vstd::string::StringExecFns;

verus! {

/// Copies the arguments from `start_index` up to, not including,
/// `end_index`.
pub fn extract_args(args: &Vec<String>, start_index: usize, end_index: usize) -> (part: Vec<String>)
    requires
        start_index <= end_index <= args.len(),
    ensures
        part@ == args@.subrange(start_index as int, end_index as int),
{
    let mut part: Vec<String> = Vec::new();
    let mut i: usize = start_index;
    while i < end_index
        invariant
            start_index <= i <= end_index <= args.len(),
            part@ == args@.subrange(start_index as int, i as int),
        decreases end_index - i,
    {
        part.push(args[i].clone());
        assert(part@ =~= args@.subrange(start_index as int, i + 1));
        i += 1;
    }
    part
}

/// Whether two strings hold the same text.
pub fn str_eq(a: &str, b: &str) -> (same: bool)
    ensures
        same == (a@ == b@),
{
    let x = chars_of(a);
    let y = chars_of(b);
    if x.len() != y.len() {
        return false;
    }
    let mut i: usize = 0;
    while i < x.len()
        invariant
            i <= x.len(),
            x.len() == y.len(),
            x@ == a@,
            y@ == b@,
            forall|j: int| 0 <= j < i ==> x@[j] == y@[j],
        decreases x.len() - i,
    {
        if x[i] != y[i] {
            return false;
        }
        i += 1;
    }
    assert(x@ =~= y@);
    true
}

/// The texts of a sequence of string slices.
pub open spec fn slice_texts(strings: Seq<&str>) -> Seq<Seq<char>> {
    strings.map_values(|s: &str| s@)
}

/// Whether `given_param` is one of `valid_params`.
pub fn check_valid_params(given_param: &str, valid_params: Vec<&str>) -> (is_valid: bool)
    ensures
        is_valid == slice_texts(valid_params@).contains(given_param@),
{
    let ghost all = slice_texts(valid_params@);
    let mut i: usize = 0;
    while i < valid_params.len()
        invariant
            i <= valid_params.len(),
            all == slice_texts(valid_params@),
            forall|j: int| 0 <= j < i ==> all[j] != given_param@,
        decreases valid_params.len() - i,
    {
        if str_eq(valid_params[i], given_param) {
            assert(all[i as int] == given_param@);
            return true;
        }
        i += 1;
    }
    false
}

/// The words of a command line joined into one text, with a space between
/// each two.
pub open spec fn spaced(words: Seq<Seq<char>>) -> Seq<char>
    decreases words.len(),
{
    if words.len() == 0 {
        Seq::empty()
    } else if words.len() == 1 {
        words[0]
    } else {
        spaced(words.drop_last()) + seq![' '] + words.last()
    }
}

/// What `echo` prints: the words with spaces between them, and a newline
/// at the end unless the option is `n`.
pub open spec fn echo_text(words: Seq<Seq<char>>, option: char) -> Seq<char> {
    if option == 'n' {
        spaced(words)
    } else {
        spaced(words).push('\n')
    }
}

/// The text that `echo` prints for the given words. The option `n` leaves
/// out the newline at the end.
pub fn echo(args: Vec<String>, option: char) -> (out: String)
    ensures
        out@ == echo_text(texts(args@), option),
{
    let ghost words = texts(args@);
    let mut out = String::new();
    let mut i: usize = 0;
    while i < args.len()
        invariant
            i <= args.len(),
            words == texts(args@),
            out@ == spaced(words.take(i as int)),
        decreases args.len() - i,
    {
        proof {
            reveal_strlit(" ");
            assert(words.take(i + 1).drop_last() =~= words.take(i as int));
            assert(words.take(i + 1).last() == args@[i as int]@);
        }
        if i > 0 {
            out.append(" ");
        }
        out.append(args[i].as_str());
        assert(out@ =~= spaced(words.take(i + 1)));
        i += 1;
    }
    assert(words.take(i as int) =~= words);
    if option != 'n' {
        proof {
            reveal_strlit("\n");
        }
        out.append("\n");
        assert(out@ =~= spaced(words).push('\n'));
    }
    out
}

} // verus!
