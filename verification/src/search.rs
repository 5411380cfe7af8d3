//! Searching lines with a regular expression, as `grep` does.

use crate::text::texts;
use regex::bytes::Regex;
use vstd::prelude::*;
use vstd::string::StringSliceAdditionalSpecFns;
use vstd::utf8::encode_utf8;

verus! {

/// A compiled regular expression of the `regex` crate, which searches
/// bytes.
#[verifier::external_type_specification]
#[verifier::external_body]
pub struct ExRegex(regex::bytes::Regex);

/// The error with which the `regex` crate rejects a pattern.
#[verifier::external_type_specification]
#[verifier::external_body]
pub struct ExRegexError(regex::Error);

/// Whether an expression matches somewhere in the bytes `haystack`: what
/// `Regex::is_match` returns.
pub uninterp spec fn regex_matches(re: Regex, haystack: Seq<u8>) -> bool;

/// Whether `pattern` is a regular expression that the `regex` crate takes:
/// whether `Regex::new` returns an expression for it.
pub uninterp spec fn pattern_compiles(pattern: Seq<char>) -> bool;

/// Whether the expression that `Regex::new` compiles from `pattern`
/// matches somewhere in the bytes `haystack`.
pub uninterp spec fn pattern_matches(pattern: Seq<char>, haystack: Seq<u8>) -> bool;

/// `regex::bytes::Regex::new`, which compiles the text of a pattern under
/// the crate's defaults and reads nothing else. The contract names whether
/// an expression comes back, and says that what such an expression matches
/// depends on the pattern alone.
#[verifier::external_body]
fn compile(pattern: &str) -> (compiled: Result<Regex, regex::Error>)
    ensures
        compiled is Ok <==> pattern_compiles(pattern@),
        compiled is Ok ==> forall|haystack: Seq<u8>| #[trigger]
            regex_matches(compiled->Ok_0, haystack) == pattern_matches(pattern@, haystack),
{
    Regex::new(pattern)
}

/// `regex::bytes::Regex::is_match`: whether the expression matches anywhere
/// in the haystack. The contract names the answer.
#[verifier::external_body]
fn is_match(re: &Regex, haystack: &[u8]) -> (found: bool)
    ensures
        found == regex_matches(*re, haystack@),
{
    re.is_match(haystack)
}

/// The lines that are kept when `hits` says, line by line, which ones
/// matched. A line without an answer counts as not matched.
pub open spec fn kept(lines: Seq<Seq<char>>, hits: Seq<bool>) -> Seq<Seq<char>>
    decreases lines.len(),
{
    if lines.len() == 0 {
        Seq::empty()
    } else {
        let rest = kept(lines.drop_last(), hits);
        if lines.len() <= hits.len() && hits[lines.len() - 1] {
            rest.push(lines.last())
        } else {
            rest
        }
    }
}

/// For each line, whether the expression matches in its bytes: the line
/// as UTF-8.
pub open spec fn hits_of(re: Regex, lines: Seq<Seq<char>>) -> Seq<bool> {
    Seq::new(lines.len(), |i: int| regex_matches(re, encode_utf8(lines[i])))
}

/// The lines in which the expression matches, in their order.
pub open spec fn matched_lines(lines: Seq<Seq<char>>, re: Regex) -> Seq<Seq<char>> {
    kept(lines, hits_of(re, lines))
}

/// Picks the lines whose answer in `hits` is `true`, in their order.
pub fn keep_matching(lines: &Vec<String>, hits: &Vec<bool>) -> (out: Vec<String>)
    ensures
        texts(out@) == kept(texts(lines@), hits@),
{
    let ghost all = texts(lines@);
    let mut out: Vec<String> = Vec::new();
    let mut i: usize = 0;
    while i < lines.len()
        invariant
            i <= lines.len(),
            all == texts(lines@),
            texts(out@) == kept(all.take(i as int), hits@),
        decreases lines.len() - i,
    {
        proof {
            assert(all.take(i + 1).drop_last() =~= all.take(i as int));
            assert(all.take(i + 1).last() == lines@[i as int]@);
        }
        if i < hits.len() && hits[i] {
            let ghost before = out@;
            out.push(lines[i].clone());
            assert(texts(out@) =~= texts(before).push(lines@[i as int]@));
        }
        i += 1;
    }
    assert(all.take(i as int) =~= all);
    out
}

/// Picks the lines in which the compiled expression matches.
pub fn grep_lines(lines: &Vec<String>, re: &Regex) -> (out: Vec<String>)
    ensures
        texts(out@) == matched_lines(texts(lines@), *re),
{
    let ghost all = texts(lines@);
    let mut hits: Vec<bool> = Vec::new();
    let mut i: usize = 0;
    while i < lines.len()
        invariant
            i <= lines.len(),
            all == texts(lines@),
            hits@ == hits_of(*re, all).take(i as int),
        decreases lines.len() - i,
    {
        let found = is_match(re, lines[i].as_str().as_bytes());
        hits.push(found);
        assert(hits@ =~= hits_of(*re, all).take(i + 1));
        i += 1;
    }
    assert(hits@ =~= hits_of(*re, all));
    keep_matching(lines, &hits)
}

/// For each line, whether `pattern` matches in its bytes: the line as
/// UTF-8.
pub open spec fn pattern_hits(pattern: Seq<char>, lines: Seq<Seq<char>>) -> Seq<bool> {
    Seq::new(lines.len(), |i: int| pattern_matches(pattern, encode_utf8(lines[i])))
}

/// What `grep` gives: for a pattern that compiles the lines in which it
/// matches, in their order; for any other pattern nothing at all.
pub open spec fn grep_result(lines: Seq<Seq<char>>, pattern: Seq<char>) -> Option<Seq<Seq<char>>> {
    if pattern_compiles(pattern) {
        Some(kept(lines, pattern_hits(pattern, lines)))
    } else {
        None
    }
}

/// Picks the lines in which `pattern`, read as a regular expression,
/// matches somewhere, in the order in which they were given; `None` when
/// the pattern is no regular expression.
pub fn grep(lines: &Vec<String>, pattern: &str) -> (out: Option<Vec<String>>)
    ensures
        picked(out) == grep_result(texts(lines@), pattern@),
{
    let compiled = compile(pattern);
    let ghost answer = compiled;
    let out = grep_compiled(lines, compiled);
    proof {
        if answer is Ok {
            assert(hits_of(answer->Ok_0, texts(lines@)) =~= pattern_hits(
                pattern@,
                texts(lines@),
            ));
        }
    }
    out
}

/// What `grep` picks, given the answer to compiling its pattern: with an
/// expression the lines in which it matches, in their order; with an error
/// nothing at all.
pub open spec fn grep_outcome(lines: Seq<Seq<char>>, compiled: Result<Regex, regex::Error>) -> Option<
    Seq<Seq<char>>,
> {
    match compiled {
        Ok(re) => Some(matched_lines(lines, re)),
        Err(_) => None,
    }
}

/// The texts of the lines that were picked, if any were asked for.
pub open spec fn picked(out: Option<Vec<String>>) -> Option<Seq<Seq<char>>> {
    match out {
        Some(lines) => Some(texts(lines@)),
        None => None,
    }
}

/// Picks lines, given the answer to compiling a pattern: the lines in which
/// the expression matches, or `None` where the pattern was rejected.
pub fn grep_compiled(lines: &Vec<String>, compiled: Result<Regex, regex::Error>) -> (out: Option<
    Vec<String>,
>)
    ensures
        picked(out) == grep_outcome(texts(lines@), compiled),
{
    match compiled {
        Ok(re) => Some(grep_lines(lines, &re)),
        Err(_) => None,
    }
}

} // verus!
