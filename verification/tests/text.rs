use synctools::text::{
    chars_of, compare_bytes, compare_paths, contains_str, decimal_text, find_text, has_prefix, has_suffix,
    last_index_of, matches_at, occurs_from, slashes_forward, str_equal, strip_leading, sub_chars, text_between,
    trim_end_len, trim_start_len, without_end, without_start, PathOrder,
};

fn cs(s: &str) -> Vec<char> {
    s.chars().collect()
}

#[test]
fn paths_are_ordered_by_their_bytes() {
    assert_eq!(compare_paths("a", "b"), PathOrder::Before);
    assert_eq!(compare_paths("b", "a"), PathOrder::After);
    assert_eq!(compare_paths("a", "a"), PathOrder::Same);
    assert_eq!(compare_paths("", ""), PathOrder::Same);
    assert_eq!(compare_paths("", "a"), PathOrder::Before);
    assert_eq!(compare_paths("a", "a/b"), PathOrder::Before);
    assert_eq!(compare_paths("a/b", "a"), PathOrder::After);
    assert_eq!(compare_paths("B", "a"), PathOrder::Before);
    assert_eq!(compare_paths("z", "é"), PathOrder::Before);
    assert_eq!(compare_paths("é", "日本"), PathOrder::Before);
    assert_eq!(compare_bytes(&[1, 2, 3], &[1, 2, 4]), PathOrder::Before);
    assert_eq!(compare_bytes(&[255], &[1, 0]), PathOrder::After);
    let mut words = vec!["b", "a/b", "B", "a", "é", "", "a.b"];
    let mut ours = words.clone();
    words.sort();
    ours.sort_by(|x, y| match compare_paths(x, y) {
        PathOrder::Before => std::cmp::Ordering::Less,
        PathOrder::Same => std::cmp::Ordering::Equal,
        PathOrder::After => std::cmp::Ordering::Greater,
    });
    assert_eq!(ours, words);
    assert!(str_equal("é", "é"));
    assert!(!str_equal("e", "é"));
}

#[test]
fn characters_of_a_text() {
    assert_eq!(chars_of("aé日"), vec!['a', 'é', '日']);
    assert_eq!(chars_of(""), Vec::<char>::new());
    assert_eq!(sub_chars(&cs("hello"), 1, 3), cs("el"));
    assert_eq!(text_between("héllo", 1, 3), "él");
    assert_eq!(text_between("héllo", 2, 2), "");
}

#[test]
fn searching_in_a_text() {
    assert!(contains_str("HTTP 404 Not Found", "404"));
    assert!(!contains_str("HTTP 40 4", "404"));
    assert!(contains_str("abc", ""));
    assert!(contains_str("", ""));
    assert!(!contains_str("", "a"));
    assert!(contains_str("aab", "ab"));
    assert_eq!(find_text(&cs("a**b**"), &cs("**"), 0), Some(1));
    assert_eq!(find_text(&cs("a**b**"), &cs("**"), 2), Some(4));
    assert_eq!(find_text(&cs("a**b**"), &cs("**"), 5), None);
    assert_eq!(find_text(&cs("abc"), &cs(""), 3), Some(3));
    assert_eq!(find_text(&cs("abc"), &cs(""), 4), None);
    assert!(matches_at(&cs("abc"), &cs("bc"), 1));
    assert!(!matches_at(&cs("abc"), &cs("bc"), 2));
    assert!(!matches_at(&cs("abc"), &cs("bc"), usize::MAX));
    assert!(has_prefix(&cs("abc"), &cs("ab")) && !has_prefix(&cs("abc"), &cs("bc")));
    assert!(has_suffix(&cs("abc"), &cs("bc")) && !has_suffix(&cs("abc"), &cs("ab")));
    assert!(has_prefix(&cs("abc"), &cs("")) && has_suffix(&cs("abc"), &cs("")));
    assert!(!has_suffix(&cs("c"), &cs("bc")));
    assert_eq!(last_index_of(&cs("a.b.c"), '.'), Some(3));
    assert_eq!(last_index_of(&cs("abc"), '.'), None);
    assert!(occurs_from(&cs("a/b"), 1, '/') && !occurs_from(&cs("a/b"), 2, '/'));
    assert!(!occurs_from(&cs("a/b"), 9, '/'));
}

#[test]
fn trimming_a_text() {
    assert_eq!(trim_end_len(&cs("a//"), '/'), 1);
    assert_eq!(trim_end_len(&cs("///"), '/'), 0);
    assert_eq!(trim_start_len(&cs("//a/"), '/'), 2);
    assert_eq!(trim_start_len(&cs(""), '/'), 0);
    assert_eq!(without_start("//a/", '/'), "a/");
    assert_eq!(without_end("//a//", '/'), "//a");
    assert_eq!(without_end("", '/'), "");
    assert_eq!(strip_leading("ababc", "ab"), "c");
    assert_eq!(strip_leading("abc", ""), "abc");
    assert_eq!(strip_leading("abc", "abcd"), "abc");
    assert_eq!(strip_leading("aaa", "a"), "");
    assert_eq!(slashes_forward("a\\b\\\\c"), "a/b//c");
}

#[test]
fn numbers_in_decimal() {
    assert_eq!(decimal_text(0), "0");
    assert_eq!(decimal_text(7), "7");
    assert_eq!(decimal_text(10), "10");
    assert_eq!(decimal_text(1234567890), "1234567890");
    assert_eq!(decimal_text(u64::MAX), "18446744073709551615");
}
