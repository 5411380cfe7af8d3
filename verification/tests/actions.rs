use miniutils::actions::{ln, rm, touch, Link, Removal, RemoveError, Touch};
use miniutils::entry::EntryKind;

#[test]
fn rm_removes_files_and_links_as_files() {
    for (r, d) in [(false, false), (true, false), (false, true), (true, true)] {
        assert_eq!(rm(EntryKind::File, r, d), Ok(Removal::File));
        assert_eq!(rm(EntryKind::Symlink, r, d), Ok(Removal::File));
    }
}

#[test]
fn rm_directory_needs_a_flag() {
    assert_eq!(rm(EntryKind::Directory, false, false), Err(RemoveError::IsDirectory));
    assert_eq!(rm(EntryKind::Directory, true, false), Ok(Removal::Tree));
    assert_eq!(rm(EntryKind::Directory, false, true), Ok(Removal::EmptyDirectory));
    assert_eq!(rm(EntryKind::Directory, true, true), Ok(Removal::Tree));
}

#[test]
fn rm_refuses_other_kinds() {
    for (r, d) in [(false, false), (true, false), (false, true), (true, true)] {
        assert_eq!(rm(EntryKind::Other, r, d), Err(RemoveError::NotRemovable));
    }
}

#[test]
fn touch_creates_a_missing_file() {
    assert_eq!(touch(false, false, false, false), Touch::Create);
    assert_eq!(touch(false, true, false, false), Touch::Create);
    assert_eq!(touch(false, false, false, true), Touch::Create);
    assert_eq!(touch(false, true, false, true), Touch::Create);
}

#[test]
fn touch_leaves_an_existing_file_without_time_flags() {
    assert_eq!(touch(true, false, false, false), Touch::Nothing);
    assert_eq!(touch(true, false, true, false), Touch::Nothing);
    assert_eq!(touch(false, false, true, false), Touch::Nothing);
}

#[test]
fn touch_rewrites_under_a_time_flag() {
    assert_eq!(touch(true, true, false, false), Touch::Rewrite);
    assert_eq!(touch(true, false, false, true), Touch::Rewrite);
    assert_eq!(touch(true, true, true, true), Touch::Rewrite);
    assert_eq!(touch(false, true, true, false), Touch::Rewrite);
    assert_eq!(touch(false, false, true, true), Touch::Rewrite);
}

#[test]
fn ln_kinds() {
    assert_eq!(ln('s'), Link::Symbolic);
    assert_eq!(ln('h'), Link::Hard);
    assert_eq!(ln(' '), Link::Hard);
    assert_eq!(ln('S'), Link::Hard);
}
