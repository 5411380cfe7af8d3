use miniutils::args::{check_valid_params, echo, extract_args, str_eq};

fn strings(list: &[&str]) -> Vec<String> {
    list.iter().map(|s| s.to_string()).collect()
}

#[test]
fn extract_args_copies_the_range() {
    let args = strings(&["prog", "echo", "-n", "a", "b"]);
    assert_eq!(extract_args(&args, 3, 5), strings(&["a", "b"]));
    assert_eq!(extract_args(&args, 0, 5), args);
    assert_eq!(extract_args(&args, 2, 3), strings(&["-n"]));
}

#[test]
fn extract_args_empty_range() {
    let args = strings(&["prog", "cat"]);
    assert_eq!(extract_args(&args, 2, 2), Vec::<String>::new());
    assert_eq!(extract_args(&args, 0, 0), Vec::<String>::new());
    assert_eq!(extract_args(&Vec::new(), 0, 0), Vec::<String>::new());
}

#[test]
fn str_eq_compares_texts() {
    assert!(str_eq("-s", "-s"));
    assert!(str_eq("", ""));
    assert!(!str_eq("-s", "-S"));
    assert!(!str_eq("-s", "-sx"));
    assert!(!str_eq("-sx", "-s"));
    assert!(str_eq("\u{e9}", "\u{e9}"));
    assert!(!str_eq("\u{e9}", "e"));
}

#[test]
fn check_valid_params_finds_a_listed_flag() {
    assert!(check_valid_params("-s", vec!["-s", "--symbolic"]));
    assert!(check_valid_params("--symbolic", vec!["-s", "--symbolic"]));
}

#[test]
fn check_valid_params_rejects_others() {
    assert!(!check_valid_params("-x", vec!["-s", "--symbolic"]));
    assert!(!check_valid_params("-", vec!["-s", "--symbolic"]));
    assert!(!check_valid_params("--symbolic ", vec!["-s", "--symbolic"]));
    assert!(!check_valid_params("-s", Vec::new()));
    assert!(!check_valid_params("", vec!["-s"]));
}

#[test]
fn echo_without_newline() {
    assert_eq!(echo(strings(&["hello"]), 'n'), "hello");
}

#[test]
fn echo_with_newline() {
    assert_eq!(echo(strings(&["hello"]), ' '), "hello\n");
}

#[test]
fn echo_joins_words_with_one_space() {
    assert_eq!(echo(strings(&["a", "b", "c"]), ' '), "a b c\n");
    assert_eq!(echo(strings(&["a", "b", "c"]), 'n'), "a b c");
    assert_eq!(echo(strings(&["a", "", "c"]), 'n'), "a  c");
    assert_eq!(echo(strings(&["", "x"]), 'n'), " x");
}

#[test]
fn echo_of_nothing() {
    assert_eq!(echo(Vec::new(), ' '), "\n");
    assert_eq!(echo(Vec::new(), 'n'), "");
}
