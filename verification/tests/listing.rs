use miniutils::entry::{Entry, EntryKind};
use miniutils::listing::{ls, ls_names, ls_r, LsPlan};

fn names(list: &[&str]) -> Vec<String> {
    list.iter().map(|s| s.to_string()).collect()
}

fn entry(dir: &str, name: &str) -> Entry {
    Entry { path: format!("{}/{}", dir, name), name: name.to_string() }
}

#[test]
fn ls_plans_by_kind() {
    assert_eq!(ls(EntryKind::File, false), LsPlan::PrintPath);
    assert_eq!(ls(EntryKind::File, true), LsPlan::PrintPath);
    assert_eq!(ls(EntryKind::Symlink, false), LsPlan::PrintPath);
    assert_eq!(ls(EntryKind::Directory, false), LsPlan::List);
    assert_eq!(ls(EntryKind::Directory, true), LsPlan::Walk);
    assert_eq!(ls(EntryKind::Other, false), LsPlan::Nothing);
    assert_eq!(ls(EntryKind::Other, true), LsPlan::Nothing);
}

#[test]
fn ls_without_flag_leaves_hidden_out() {
    let found = names(&["b.txt", ".hidden", "a.txt", ".git"]);
    assert_eq!(ls_names(&found, false), names(&["b.txt", "a.txt"]));
}

#[test]
fn ls_with_flag_shows_hidden_and_dots() {
    let found = names(&["b.txt", ".hidden", "a.txt"]);
    assert_eq!(ls_names(&found, true), names(&[".", "..", "b.txt", ".hidden", "a.txt"]));
}

#[test]
fn ls_hidden_entry_needs_the_flag() {
    let found = names(&["x", ".hidden"]);
    assert!(ls_names(&found, true).contains(&".hidden".to_string()));
    assert!(!ls_names(&found, false).contains(&".hidden".to_string()));
}

#[test]
fn ls_empty_directory() {
    assert_eq!(ls_names(&Vec::new(), false), Vec::<String>::new());
    assert_eq!(ls_names(&Vec::new(), true), names(&[".", ".."]));
}

#[test]
fn ls_after_rename_shows_new_name_only() {
    // the directory holds `b.txt` after `a.txt` was moved onto it
    let lines = ls_names(&names(&["b.txt"]), false);
    assert!(lines.contains(&"b.txt".to_string()));
    assert!(!lines.contains(&"a.txt".to_string()));
}

#[test]
fn ls_keeps_names_with_inner_dots() {
    let found = names(&["a.b", "..c", "d."]);
    assert_eq!(ls_names(&found, false), names(&["a.b", "d."]));
}

#[test]
fn ls_r_starts_at_the_root() {
    let mut walk = ls_r("top", false);
    assert_eq!(walk.next(), Some("top".to_string()));
    assert_eq!(walk.next(), None);
    assert_eq!(walk.next(), None);
}

#[test]
fn ls_r_lists_a_level_then_descends_in_order() {
    let mut walk = ls_r("top", false);
    let root = walk.next().unwrap();
    let lines = walk.visit(&root, true, &vec![entry("top", "b"), entry("top", "a")]);
    assert_eq!(lines, names(&["top:", "b", "a"]));

    let first = walk.next().unwrap();
    assert_eq!(first, "top/b");
    let lines = walk.visit(&first, true, &vec![entry("top/b", "x")]);
    assert_eq!(lines, names(&["top/b:", "x"]));

    // what was found below `b` comes before `a`
    let inner = walk.next().unwrap();
    assert_eq!(inner, "top/b/x");
    assert_eq!(walk.visit(&inner, false, &Vec::new()), Vec::<String>::new());

    let second = walk.next().unwrap();
    assert_eq!(second, "top/a");
    assert_eq!(walk.visit(&second, true, &Vec::new()), names(&["top/a:"]));
    assert_eq!(walk.next(), None);
}

#[test]
fn ls_r_skips_hidden_entries_and_does_not_enter_them() {
    let mut walk = ls_r("top", false);
    let root = walk.next().unwrap();
    let found = vec![entry("top", ".git"), entry("top", "src"), entry("top", ".env")];
    assert_eq!(walk.visit(&root, true, &found), names(&["top:", "src"]));
    assert_eq!(walk.next(), Some("top/src".to_string()));
    assert_eq!(walk.next(), None);
}

#[test]
fn ls_r_with_flag_shows_dots_and_hidden() {
    let mut walk = ls_r("top", true);
    let root = walk.next().unwrap();
    let found = vec![entry("top", ".git"), entry("top", "src")];
    assert_eq!(walk.visit(&root, true, &found), names(&["top:", ".", "..", ".git", "src"]));
    assert_eq!(walk.next(), Some("top/.git".to_string()));
    assert_eq!(walk.next(), Some("top/src".to_string()));
    assert_eq!(walk.next(), None);
}

#[test]
fn ls_r_hides_everything_below_a_dotted_ancestor() {
    // the test is on the whole path: under `top/.cache` nothing is shown
    let mut walk = ls_r("top/.cache", false);
    let root = walk.next().unwrap();
    let found = vec![entry("top/.cache", "data")];
    assert_eq!(walk.visit(&root, true, &found), names(&["top/.cache:"]));
    assert_eq!(walk.next(), None);
}

#[test]
fn ls_r_shows_entries_of_a_dotted_root() {
    // a dot at the very start of the path follows no slash
    let mut walk = ls_r(".", false);
    let root = walk.next().unwrap();
    let found = vec![entry(".", "a"), entry(".", ".b")];
    assert_eq!(walk.visit(&root, true, &found), names(&[".:", "a"]));
    assert_eq!(walk.next(), Some("./a".to_string()));
    assert_eq!(walk.next(), None);
}

#[test]
fn ls_r_file_prints_nothing() {
    let mut walk = ls_r("file.txt", true);
    let root = walk.next().unwrap();
    assert_eq!(walk.visit(&root, false, &vec![entry("file.txt", "x")]), Vec::<String>::new());
    assert_eq!(walk.next(), None);
}

#[test]
fn ls_r_judges_a_dotted_name_by_the_joined_path() {
    // the path of an entry is its name joined onto the directory
    for dir in ["top", "top/", "/", "a/b"] {
        let name = ".hidden";
        let hidden = Entry { path: miniutils::path::join_path(dir, name), name: name.to_string() };
        let plain = Entry { path: miniutils::path::join_path(dir, "seen"), name: "seen".to_string() };
        let mut walk = ls_r(dir, false);
        let root = walk.next().unwrap();
        let lines = walk.visit(&root, true, &vec![hidden.clone(), plain.clone()]);
        assert_eq!(lines, vec![format!("{}:", dir), "seen".to_string()]);
        assert_eq!(walk.next(), Some(plain.path.clone()));
        assert_eq!(walk.next(), None);
    }
}
