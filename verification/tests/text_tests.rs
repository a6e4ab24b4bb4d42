use osimperf_lib::text::{
    contains, file_name, format_decimal, join, lines, parse_usize, replace_char, split,
    str_eq, trim,
};

#[test]
fn split_keeps_empty_pieces() {
    assert_eq!(split("a,,b", ','), vec!["a", "", "b"]);
    assert_eq!(split("", ','), vec![""]);
    assert_eq!(split("abc", ','), vec!["abc"]);
}

#[test]
fn trim_strips_both_ends() {
    assert_eq!(trim("  hello \n"), "hello");
    assert_eq!(trim("\t"), "");
    assert_eq!(trim("a b"), "a b");
}

#[test]
fn lines_drop_final_newline_and_carriage_returns() {
    assert_eq!(lines("a\nb\r\nc\n"), vec!["a", "b", "c"]);
    assert!(lines("").is_empty());
}

#[test]
fn parse_usize_reads_digits() {
    assert_eq!(parse_usize("42"), Some(42));
    assert_eq!(parse_usize("+7"), Some(7));
    assert_eq!(parse_usize("-1"), None);
    assert_eq!(parse_usize(""), None);
    assert_eq!(parse_usize("4a"), None);
    assert_eq!(parse_usize("99999999999999999999999"), None);
}

#[test]
fn decimal_text_reads_back() {
    for n in [0usize, 7, 10, 1234, usize::MAX] {
        let s = format_decimal(n);
        assert_eq!(s, n.to_string());
        assert_eq!(parse_usize(&s), Some(n));
    }
}

#[test]
fn join_behaves_as_path_join() {
    assert_eq!(join("a", "b"), "a/b");
    assert_eq!(join("a/", "b"), "a/b");
    assert_eq!(join("", "b"), "b");
    assert_eq!(join("a", "/b"), "/b");
}

#[test]
fn file_name_is_the_last_named_component() {
    assert_eq!(file_name("/x/y/z.conf"), Some("z.conf".to_string()));
    assert_eq!(file_name("x/y/"), Some("y".to_string()));
    assert_eq!(file_name("x/.."), None);
    assert_eq!(file_name("/"), None);
}

#[test]
fn small_string_helpers() {
    assert_eq!(replace_char("2023-08-02", '-', '_'), "2023_08_02");
    assert!(contains("git@github.com:a/b.git", "a/b"));
    assert!(!contains("abc", "abd"));
    assert_eq!(osimperf_lib::text::concat("ab", "cd"), "abcd");
    assert!(str_eq("x", "x"));
    assert!(!str_eq("x", "y"));
}
