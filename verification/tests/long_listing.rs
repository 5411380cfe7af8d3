use miniutils::long_listing::{ls_l_line, ls_l_order, LongEntry};

fn strings(list: &[&str]) -> Vec<String> {
    list.iter().map(|s| s.to_string()).collect()
}

fn sample(name: &str) -> LongEntry {
    LongEntry {
        name: name.to_string(),
        is_dir: false,
        mode: 0o100644,
        uid: 1000,
        gid: 100,
        size: 2048,
        modified: "7 09:05".to_string(),
    }
}

#[test]
fn ls_l_order_sorts_without_regard_to_case() {
    let names = strings(&["b", "A", "c", "B2", "a1"]);
    assert_eq!(ls_l_order(&names), vec![1, 4, 0, 3, 2]);
}

#[test]
fn ls_l_order_keeps_equal_names_in_given_order() {
    let names = strings(&["readme", "README", "Readme", "a"]);
    assert_eq!(ls_l_order(&names), vec![3, 0, 1, 2]);
    let names = strings(&["README", "readme"]);
    assert_eq!(ls_l_order(&names), vec![0, 1]);
}

#[test]
fn ls_l_order_puts_a_prefix_first() {
    let names = strings(&["abc", "ab", "", "abd"]);
    assert_eq!(ls_l_order(&names), vec![2, 1, 0, 3]);
}

#[test]
fn ls_l_order_compares_folded_codes() {
    // `_` sorts after capitals but before small letters; folding makes
    // `Z` sort as `z`, after `_`
    let names = strings(&["_x", "Zx", "ax", ".x", "1x"]);
    assert_eq!(ls_l_order(&names), vec![3, 4, 0, 2, 1]);
}

#[test]
fn ls_l_order_beyond_ascii() {
    let names = strings(&["\u{e9}", "z", "\u{c9}", "Z"]);
    // only ASCII letters are folded: the two accented letters stay apart
    assert_eq!(ls_l_order(&names), vec![1, 3, 2, 0]);
}

#[test]
fn ls_l_order_of_nothing() {
    assert_eq!(ls_l_order(&Vec::new()), Vec::<usize>::new());
    assert_eq!(ls_l_order(&strings(&["only"])), vec![0]);
}

#[test]
fn ls_l_line_for_a_file() {
    let passwd = strings(&["root:x:0:0:root:/root:/bin/bash", "ann:x:1000:1000::/home/ann:/bin/sh"]);
    let groups = strings(&["root:x:0:", "users:x:100:ann"]);
    let line = ls_l_line(&sample("notes.txt"), &passwd, &groups);
    assert_eq!(line, Some("-rw-r--r-- ann users 2048 7 09:05 notes.txt".to_string()));
}

#[test]
fn ls_l_line_for_a_directory() {
    let mut entry = sample("src");
    entry.is_dir = true;
    entry.mode = 0o040755;
    entry.size = 0;
    let line = ls_l_line(&entry, &Vec::new(), &Vec::new());
    assert_eq!(line, Some("drwxr-xr-x 1000 100 0 7 09:05 src".to_string()));
}

#[test]
fn ls_l_line_skips_hidden_entries() {
    assert_eq!(ls_l_line(&sample(".profile"), &Vec::new(), &Vec::new()), None);
}

#[test]
fn ls_l_line_shows_large_sizes() {
    let mut entry = sample("big");
    entry.size = u64::MAX;
    entry.uid = 0;
    entry.gid = 0;
    let line = ls_l_line(&entry, &Vec::new(), &Vec::new());
    assert_eq!(line, Some("-rw-r--r-- 0 0 18446744073709551615 7 09:05 big".to_string()));
}
