use colmena::text::{chars_of, join_path, parse_usize, split_lines, starts_with, str_eq};

#[test]
fn chars_are_listed_in_order() {
    assert_eq!(chars_of("añb"), vec!['a', 'ñ', 'b']);
    assert_eq!(chars_of(""), Vec::<char>::new());
}

#[test]
fn strings_compare_by_their_characters() {
    assert!(str_eq("", ""));
    assert!(str_eq("keys", "keys"));
    assert!(!str_eq("keys", "key"));
    assert!(!str_eq("key", "keys"));
    assert!(!str_eq("keys", "kezs"));
}

#[test]
fn prefixes_are_recognised() {
    assert!(starts_with("/nix/store/abc", "/nix/store/"));
    assert!(starts_with("abc", ""));
    assert!(starts_with("abc", "abc"));
    assert!(!starts_with("ab", "abc"));
    assert!(!starts_with("/nix/stor/abc", "/nix/store/"));
}

#[test]
fn decimal_numbers_are_read() {
    assert_eq!(parse_usize("0"), Some(0));
    assert_eq!(parse_usize("10"), Some(10));
    assert_eq!(parse_usize("007"), Some(7));
    assert_eq!(parse_usize("+5"), Some(5));
    assert_eq!(parse_usize("18446744073709551615"), "18446744073709551615".parse::<usize>().ok());
    assert_eq!(parse_usize(&usize::MAX.to_string()), Some(usize::MAX));
}

#[test]
fn what_is_no_number_is_refused() {
    assert_eq!(parse_usize(""), None);
    assert_eq!(parse_usize("+"), None);
    assert_eq!(parse_usize("-1"), None);
    assert_eq!(parse_usize("1 "), None);
    assert_eq!(parse_usize(" 1"), None);
    assert_eq!(parse_usize("1_000"), None);
    assert_eq!(parse_usize("auto"), None);
    assert_eq!(parse_usize("++1"), None);
    assert_eq!(parse_usize("१"), None);
}

#[test]
fn numbers_beyond_the_machine_are_refused() {
    assert_eq!(parse_usize("340282366920938463463374607431768211456"), None);
    let mut just_over = usize::MAX.to_string();
    just_over.push('0');
    assert_eq!(parse_usize(&just_over), None);
}

#[test]
fn numbers_are_read_as_the_standard_library_reads_them() {
    for word in ["0", "1", "42", "+42", "-42", "", "+", "4 2", "0x10", "00000000000000000000001"] {
        assert_eq!(parse_usize(word), word.parse::<usize>().ok(), "{:?}", word);
    }
}

#[test]
fn paths_are_joined() {
    assert_eq!(join_path("/run/keys", "secret"), "/run/keys/secret");
    assert_eq!(join_path("/run/keys/", "secret"), "/run/keys/secret");
    assert_eq!(join_path("/run/keys", "/etc/secret"), "/etc/secret");
    assert_eq!(join_path("", "secret"), "secret");
    assert_eq!(join_path("/run/keys", ""), "/run/keys/");
    assert_eq!(join_path("/", "a"), "/a");
}

#[test]
fn paths_are_joined_as_the_standard_library_joins_them() {
    for (dir, name) in [("/a", "b"), ("/a/", "b"), ("/a", "/b"), ("", "b"), ("a", ""), ("/", "x/y")] {
        let expected = std::path::Path::new(dir).join(name);
        assert_eq!(join_path(dir, name), expected.to_str().unwrap(), "{:?} {:?}", dir, name);
    }
}

#[test]
fn texts_are_split_into_lines() {
    assert_eq!(split_lines(""), Vec::<String>::new());
    assert_eq!(split_lines("a"), vec!["a"]);
    assert_eq!(split_lines("a\n"), vec!["a"]);
    assert_eq!(split_lines("a\nb"), vec!["a", "b"]);
    assert_eq!(split_lines("a\r\nb\r\n"), vec!["a", "b"]);
    assert_eq!(split_lines("\n"), vec![""]);
    assert_eq!(split_lines("a\n\nb"), vec!["a", "", "b"]);
    assert_eq!(split_lines("a\rb\n"), vec!["a\rb"]);
    assert_eq!(split_lines("a\r"), vec!["a\r"]);
}

#[test]
fn texts_are_split_as_the_standard_library_splits_them() {
    for text in ["", "x", "x\n", "\n\n", "a\r\n\r\nb", "a\n\r", "\r\n", "é\nü\r\n", "a\r\r\nb"] {
        let expected: Vec<String> = text.lines().map(String::from).collect();
        assert_eq!(split_lines(text), expected, "{:?}", text);
    }
}
