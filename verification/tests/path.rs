use miniutils::path::file_name;

#[test]
fn file_name_is_the_last_component() {
    assert_eq!(file_name("a/b/c.txt"), Some("c.txt".to_string()));
    assert_eq!(file_name("c.txt"), Some("c.txt".to_string()));
    assert_eq!(file_name("/etc/hosts"), Some("hosts".to_string()));
    assert_eq!(file_name("./a"), Some("a".to_string()));
    assert_eq!(file_name("a/.hidden"), Some(".hidden".to_string()));
    assert_eq!(file_name("..a"), Some("..a".to_string()));
    assert_eq!(file_name("a/..."), Some("...".to_string()));
}

#[test]
fn file_name_leaves_trailing_slashes_and_dots_aside() {
    assert_eq!(file_name("a/b/"), Some("b".to_string()));
    assert_eq!(file_name("a/b///"), Some("b".to_string()));
    assert_eq!(file_name("a/b/."), Some("b".to_string()));
    assert_eq!(file_name("a/b/./"), Some("b".to_string()));
    assert_eq!(file_name("a/b/././/."), Some("b".to_string()));
    assert_eq!(file_name("a//b"), Some("b".to_string()));
}

#[test]
fn file_name_of_a_path_without_one() {
    assert_eq!(file_name(""), None);
    assert_eq!(file_name("/"), None);
    assert_eq!(file_name("//"), None);
    assert_eq!(file_name("."), None);
    assert_eq!(file_name("./"), None);
    assert_eq!(file_name("./."), None);
    assert_eq!(file_name("/."), None);
    assert_eq!(file_name(".."), None);
    assert_eq!(file_name("a/.."), None);
    assert_eq!(file_name("a/../"), None);
    assert_eq!(file_name("/.."), None);
}

#[test]
fn file_name_agrees_with_std() {
    let pieces = ["", "a", ".", "..", "/", "b.c", ".d", "//", "/.", "./", "../", "e/"];
    for first in pieces {
        for second in pieces {
            for third in pieces {
                let path = format!("{}{}{}", first, second, third);
                let expected = std::path::Path::new(&path)
                    .file_name()
                    .map(|name| name.to_str().unwrap().to_string());
                assert_eq!(file_name(&path), expected, "path {:?}", path);
            }
        }
    }
}

#[test]
fn file_name_beyond_ascii() {
    assert_eq!(file_name("d\u{e9}p\u{f4}t/caf\u{e9}/"), Some("caf\u{e9}".to_string()));
}
