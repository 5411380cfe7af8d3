//! Paths as texts: joining a name onto a directory, and finding the name
//! that a path ends in. Components are divided by `/`.

use crate::text::chars_of;
use vstd::prelude::*;
use vstd::string::{StrSliceExecFns, StringExecFns};

verus! {

/// A name joined onto a directory path: a name that starts at the root
/// stands alone; any other follows the path, after a slash unless the path
/// is empty or ends in one already.
pub open spec fn joined(base: Seq<char>, name: Seq<char>) -> Seq<char> {
    if name.len() > 0 && name[0] == '/' {
        name
    } else if base.len() > 0 && base.last() != '/' {
        base + seq!['/'] + name
    } else {
        base + name
    }
}

/// A path without the slashes and the `.` components at its end, which
/// name nothing.
pub open spec fn trimmed(path: Seq<char>) -> Seq<char>
    decreases path.len(),
{
    if path.len() > 0 && path.last() == '/' {
        trimmed(path.drop_last())
    } else if path.len() >= 2 && path.last() == '.' && path[path.len() - 2] == '/' {
        trimmed(path.take(path.len() - 2))
    } else {
        path
    }
}

/// The index at which the last component of a path starts: behind its last
/// slash, or at the front where it has none.
pub open spec fn last_start(path: Seq<char>) -> int
    decreases path.len(),
{
    if path.len() == 0 {
        0
    } else if path.last() == '/' {
        path.len() as int
    } else {
        last_start(path.drop_last())
    }
}

/// The name that a path ends in: its last component, slashes and `.`
/// components at the end left aside. A path that ends in `..`, that is
/// nothing but `.`, or that holds no component at all, has none.
pub open spec fn base_name(path: Seq<char>) -> Option<Seq<char>> {
    let body = trimmed(path);
    let name = body.skip(last_start(body));
    if name.len() == 0 || name == seq!['.'] || name == seq!['.', '.'] {
        None
    } else {
        Some(name)
    }
}

/// The text of a name that may be missing.
pub open spec fn name_text(name: Option<String>) -> Option<Seq<char>> {
    match name {
        Some(name) => Some(name@),
        None => None,
    }
}

/// Joins `name` onto the directory path `base`.
pub fn join_path(base: &str, name: &str) -> (path: String)
    ensures
        path@ == joined(base@, name@),
{
    if name.unicode_len() > 0 && name.get_char(0) == '/' {
        return String::from_str(name);
    }
    let mut path = String::from_str(base);
    let len = base.unicode_len();
    if len > 0 && base.get_char(len - 1) != '/' {
        proof {
            reveal_strlit("/");
        }
        path.append("/");
    }
    path.append(name);
    assert(path@ =~= joined(base@, name@));
    path
}

/// Finds the name that `path` ends in.
pub fn file_name(path: &str) -> (name: Option<String>)
    ensures
        name_text(name) == base_name(path@),
{
    let chars = chars_of(path);
    let mut end: usize = chars.len();
    assert(chars@.take(end as int) =~= chars@);
    loop
        invariant
            end <= chars.len(),
            trimmed(chars@.take(end as int)) == trimmed(chars@),
        ensures
            end <= chars.len(),
            trimmed(chars@) == chars@.take(end as int),
        decreases end,
    {
        let ghost part = chars@.take(end as int);
        if end > 0 && chars[end - 1] == '/' {
            assert(part.drop_last() =~= chars@.take(end - 1));
            end -= 1;
        } else if end >= 2 && chars[end - 1] == '.' && chars[end - 2] == '/' {
            assert(part.take(part.len() - 2) =~= chars@.take(end - 2));
            end -= 2;
        } else {
            break;
        }
    }
    let ghost body = chars@.take(end as int);
    let mut start: usize = end;
    assert(body.take(start as int) =~= body);
    while start > 0 && chars[start - 1] != '/'
        invariant
            start <= end <= chars.len(),
            body == chars@.take(end as int),
            last_start(body.take(start as int)) == last_start(body),
        decreases start,
    {
        assert(body.take(start as int).drop_last() =~= body.take(start - 1));
        start -= 1;
    }
    assert(last_start(body) == start) by {
        if start > 0 {
            assert(body.take(start as int).last() == '/');
        }
    }
    let ghost name = body.skip(start as int);
    assert(name =~= chars@.subrange(start as int, end as int));
    let len = end - start;
    if len == 0 {
        return None;
    }
    if len == 1 && chars[start] == '.' {
        assert(name =~= seq!['.']);
        return None;
    }
    if len == 2 && chars[start] == '.' && chars[start + 1] == '.' {
        assert(name =~= seq!['.', '.']);
        return None;
    }
    assert(name != seq!['.'] && name != seq!['.', '.']) by {
        if name == seq!['.'] {
            assert(name[0] == '.');
        }
        if name == seq!['.', '.'] {
            assert(name[0] == '.' && name[1] == '.');
        }
    }
    Some(String::from_str(path.substring_char(start, end)))
}

} // verus!
