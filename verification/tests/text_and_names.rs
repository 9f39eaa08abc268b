use fish_env::names::{contains_name, dedup_names};
use fish_env::text::{chars_equal, contains_char, decimal_string, ends_with, join, to_chars};

fn strings(items: &[&str]) -> Vec<String> {
    items.iter().map(|s| s.to_string()).collect()
}

#[test]
fn characters_come_out_in_order() {
    assert_eq!(to_chars("abc"), vec!['a', 'b', 'c']);
    assert_eq!(to_chars(""), Vec::<char>::new());
    assert_eq!(to_chars("a\u{e9}z"), vec!['a', '\u{e9}', 'z']);
}

#[test]
fn character_comparison_is_exact() {
    assert!(chars_equal(&to_chars("status"), "status"));
    assert!(chars_equal(&to_chars(""), ""));
    assert!(!chars_equal(&to_chars("status"), "statu"));
    assert!(!chars_equal(&to_chars("statu"), "status"));
    assert!(!chars_equal(&to_chars("status"), "statuS"));
    assert!(!chars_equal(&to_chars(""), "a"));
}

#[test]
fn character_search() {
    assert!(contains_char("a=b", '='));
    assert!(!contains_char("ab", '='));
    assert!(!contains_char("", '='));
    assert!(contains_char("=", '='));
}

#[test]
fn suffix_test() {
    assert!(ends_with("/home/", "/"));
    assert!(!ends_with("/home", "/"));
    assert!(!ends_with("", "/"));
    assert!(ends_with("", ""));
    assert!(ends_with("abc", ""));
    assert!(ends_with("CDPATH", "PATH"));
    assert!(!ends_with("ATH", "PATH"));
    assert!(!ends_with("PATHX", "PATH"));
}

#[test]
fn joining_puts_the_separator_between_neighbours() {
    assert_eq!(join(&strings(&[]), ":"), "");
    assert_eq!(join(&strings(&["a"]), ":"), "a");
    assert_eq!(join(&strings(&["a", "b"]), ":"), "a:b");
    assert_eq!(join(&strings(&["a", "b", "c"]), ", "), "a, b, c");
    assert_eq!(join(&strings(&["", ""]), ":"), ":");
    assert_eq!(join(&strings(&["a", "b"]), ""), "ab");
}

#[test]
fn decimal_rendering() {
    assert_eq!(decimal_string(0), "0");
    assert_eq!(decimal_string(7), "7");
    assert_eq!(decimal_string(10), "10");
    assert_eq!(decimal_string(127), "127");
    assert_eq!(decimal_string(1234567890), "1234567890");
    assert_eq!(decimal_string(-1), "-1");
    assert_eq!(decimal_string(-120), "-120");
    assert_eq!(decimal_string(i32::MAX), "2147483647");
    assert_eq!(decimal_string(i32::MIN), "-2147483648");
}

#[test]
fn decimal_rendering_agrees_with_the_standard_one() {
    let samples = [0, 1, 9, 10, 11, 99, 100, 101, 255, 256, 1000, 65535, -9, -10, -99, -100, -32768];
    for n in samples {
        assert_eq!(decimal_string(n), n.to_string());
    }
}

#[test]
fn name_membership() {
    let names = strings(&["a", "b"]);
    assert!(contains_name(&names, &"a".to_string()));
    assert!(contains_name(&names, &"b".to_string()));
    assert!(!contains_name(&names, &"c".to_string()));
    assert!(!contains_name(&strings(&[]), &"a".to_string()));
}

#[test]
fn of_equal_names_the_first_stays() {
    assert_eq!(dedup_names(strings(&["a", "b", "a", "c", "b"])), strings(&["a", "b", "c"]));
    assert_eq!(dedup_names(strings(&[])), strings(&[]));
    assert_eq!(dedup_names(strings(&["x", "x", "x"])), strings(&["x"]));
    assert_eq!(dedup_names(strings(&["x", "y"])), strings(&["x", "y"]));
}
