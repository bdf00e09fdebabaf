use wsl2_ip_host::text::{
    chars_of, contains, find_substring, join_texts, last_token_of, remove_all, same_text, split,
    split_lines, trim, whitespace,
};

fn texts(items: &[&str]) -> Vec<String> {
    items.iter().map(|s| s.to_string()).collect()
}

#[test]
fn it_works() {
    assert_eq!(2 + 2, 4);
}

#[test]
fn whitespace_agrees_with_the_standard_library() {
    let mut u: u32 = 0;
    while u <= 0x10FFFF {
        if let Some(c) = char::from_u32(u) {
            assert_eq!(whitespace(c), c.is_whitespace(), "U+{:04X}", u);
        }
        u += 1;
    }
}

#[test]
fn chars_of_gives_every_character() {
    assert_eq!(chars_of(""), Vec::<char>::new());
    assert_eq!(chars_of("añ€😀"), vec!['a', 'ñ', '€', '😀']);
}

#[test]
fn contains_finds_a_run_of_characters() {
    assert!(contains("10.0.0.1 host # added by wsl2-ip-host", "# added by wsl2-ip-host"));
    assert!(contains("x# added by wsl2-ip-hosty", "# added by wsl2-ip-host"));
    assert!(!contains("127.0.0.1 localhost", "# added by wsl2-ip-host"));
    assert!(!contains("# added by wsl2-ip-hos", "# added by wsl2-ip-host"));
    assert!(contains("anything", ""));
    assert!(contains("", ""));
    assert!(!contains("", "a"));
    assert!(contains("ñandú", "dú"));
}

#[test]
fn find_substring_agrees_with_the_standard_library() {
    let hays = ["", "a", "ab", "aab", "abab", "baba", "aaa"];
    let needles = ["", "a", "b", "ab", "ba", "aa", "aba", "abc"];
    for hay in hays {
        for needle in needles {
            let h: Vec<char> = hay.chars().collect();
            let n: Vec<char> = needle.chars().collect();
            assert_eq!(find_substring(&h, &n), hay.contains(needle), "{:?} in {:?}", needle, hay);
        }
    }
}

#[test]
fn split_gives_one_piece_more_than_separators() {
    assert_eq!(split("a,b", ','), texts(&["a", "b"]));
    assert_eq!(split("", ','), texts(&[""]));
    assert_eq!(split("a,", ','), texts(&["a", ""]));
    assert_eq!(split(",a", ','), texts(&["", "a"]));
    assert_eq!(split("a,,b", ','), texts(&["a", "", "b"]));
    assert_eq!(split("abc", ','), texts(&["abc"]));
}

#[test]
fn split_agrees_with_the_standard_library() {
    for text in ["", ",", ",,", "a", "a,b,c", ",a,", "ñ,€", "a b,c d"] {
        let expected: Vec<String> = text.split(',').map(|s| s.to_string()).collect();
        assert_eq!(split(text, ','), expected, "{:?}", text);
    }
}

#[test]
fn join_puts_the_separator_between_neighbours() {
    assert_eq!(join_texts(&texts(&[]), ","), "");
    assert_eq!(join_texts(&texts(&["a"]), ","), "a");
    assert_eq!(join_texts(&texts(&["a", "b", "c"]), ","), "a,b,c");
    assert_eq!(join_texts(&texts(&["a", "", "c"]), "\r\n"), "a\r\n\r\nc");
    assert_eq!(join_texts(&texts(&["", ""]), "-"), "-");
}

#[test]
fn joined_parts_split_again() {
    let parts = texts(&["host.local", "a.local", "b"]);
    assert_eq!(split(&join_texts(&parts, ","), ','), parts);
}

#[test]
fn trim_takes_the_white_space_off_both_ends() {
    assert_eq!(trim("  a b \t\r\n"), "a b");
    assert_eq!(trim(""), "");
    assert_eq!(trim(" \u{3000}\u{85}"), "");
    assert_eq!(trim("x"), "x");
    assert_eq!(trim("\u{a0}Ubuntu-20.04\u{2003}"), "Ubuntu-20.04");
}

#[test]
fn trim_agrees_with_the_standard_library() {
    for text in ["", " ", "a", " a", "a ", " a b ", "\t\n a\u{2028}", "\u{200b}a "] {
        assert_eq!(trim(text), text.trim(), "{:?}", text);
    }
}

#[test]
fn last_token_is_the_last_word() {
    assert_eq!(last_token_of("eth0 UP 172.20.10.5/20"), Some("172.20.10.5/20".to_string()));
    assert_eq!(last_token_of("eth0 UP 172.20.10.5/20 \n"), Some("172.20.10.5/20".to_string()));
    assert_eq!(last_token_of("one"), Some("one".to_string()));
    assert_eq!(last_token_of(""), None);
    assert_eq!(last_token_of(" \t\r\n"), None);
}

#[test]
fn last_token_agrees_with_the_standard_library() {
    for text in ["", " ", "a", " a", "a ", " a b ", "a\tb\nc", "  ab  cd  ", "\u{3000}x\u{3000}"] {
        let expected = text.split_whitespace().last().map(|s| s.to_string());
        assert_eq!(last_token_of(text), expected, "{:?}", text);
    }
}

#[test]
fn same_text_compares_character_by_character() {
    assert!(same_text("", ""));
    assert!(same_text("--name", "--name"));
    assert!(!same_text("--name", "--names"));
    assert!(!same_text("-n", "-d"));
    assert!(!same_text("a", ""));
}

#[test]
fn remove_all_takes_every_occurrence_away() {
    assert_eq!(remove_all("Ubuntu (Default)", "(Default)"), "Ubuntu ");
    assert_eq!(remove_all("(Default)(Default)x(Default)", "(Default)"), "x");
    assert_eq!(remove_all("Ubuntu", "(Default)"), "Ubuntu");
    assert_eq!(remove_all("aaa", "aa"), "a");
    assert_eq!(remove_all("abc", ""), "abc");
    assert_eq!(remove_all("", "a"), "");
    assert_eq!(remove_all("ab", "abc"), "ab");
}

#[test]
fn remove_all_agrees_with_the_standard_library() {
    let texts = ["", "a", "aa", "aaa", "aaaa", "abab", "ababa", "xabyabz", "ñabñ"];
    let patterns = ["", "a", "aa", "ab", "aba", "ñ"];
    for text in texts {
        for pattern in patterns {
            assert_eq!(
                remove_all(text, pattern),
                text.replace(pattern, ""),
                "{:?} without {:?}",
                text,
                pattern
            );
        }
    }
}

#[test]
fn split_lines_leaves_out_the_empty_piece_after_the_last_line_feed() {
    assert_eq!(split_lines(""), texts(&[]));
    assert_eq!(split_lines("a"), texts(&["a"]));
    assert_eq!(split_lines("a\n"), texts(&["a"]));
    assert_eq!(split_lines("a\n\n"), texts(&["a", ""]));
    assert_eq!(split_lines("\n"), texts(&[""]));
    assert_eq!(split_lines("a\r\nb"), texts(&["a\r", "b"]));
}
