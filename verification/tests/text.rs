use af::text::{
    char_is_whitespace, contains, decimal_i32, decimal_u64, join_words, order, pad_right, replace,
    starts_with, str_eq, strip_prefix, strip_suffix, to_chars, trim, trim_end_matches, Order,
};

const SAMPLES: [&str; 16] = [
    "",
    " ",
    "a",
    " a",
    "a ",
    "  a b  ",
    "\t\n x \r\n",
    "\u{a0}x\u{a0}",
    "\u{3000}wide\u{2003}",
    "\u{85}\u{1680}y\u{2028}\u{2029}",
    "\u{200b}zero width\u{200b}",
    "Mozilla Firefox 128.0.3\n",
    "  89.0.4447.91  ",
    "é\u{301} ",
    "\u{180e}mongolian\u{180e}",
    "\u{feff}bom",
];

#[test]
fn whitespace_is_the_unicode_property() {
    let mut code: u32 = 0;
    while code <= 0x10ffff {
        if let Some(c) = char::from_u32(code) {
            assert_eq!(char_is_whitespace(c), c.is_whitespace(), "U+{:04X}", code);
        }
        code += 1;
    }
}

#[test]
fn trim_removes_the_whitespace_around() {
    for s in SAMPLES {
        assert_eq!(trim(s), s.trim(), "{:?}", s);
    }
    assert_eq!(trim("  a b  "), "a b");
    assert_eq!(trim(" \t "), "");
}

#[test]
fn to_chars_keeps_every_character() {
    for s in SAMPLES {
        assert_eq!(to_chars(s), s.chars().collect::<Vec<char>>());
    }
}

#[test]
fn str_eq_compares_the_characters() {
    for a in SAMPLES {
        for b in SAMPLES {
            assert_eq!(str_eq(a, b), a == b);
        }
    }
}

#[test]
fn strip_prefix_and_suffix_agree_with_the_standard_library() {
    let parts = ["", "a", "ab", "Mozilla Firefox", ".git", "é", " "];
    let texts = ["", "a", "ab", "aba", "Mozilla Firefox 1.0", "repo.git", "repo.git.git", "é\u{301}", " a"];
    for s in texts {
        for p in parts {
            assert_eq!(strip_prefix(s, p), s.strip_prefix(p), "{:?} {:?}", s, p);
            assert_eq!(strip_suffix(s, p), s.strip_suffix(p), "{:?} {:?}", s, p);
            assert_eq!(starts_with(s, p), s.starts_with(p));
            assert_eq!(contains(s, p), s.contains(p), "{:?} {:?}", s, p);
            assert_eq!(replace(s, p, "~"), s.replace(p, "~"), "{:?} {:?}", s, p);
            assert_eq!(replace(s, p, ""), s.replace(p, ""), "{:?} {:?}", s, p);
            assert_eq!(replace(s, p, "xy"), s.replace(p, "xy"), "{:?} {:?}", s, p);
            if !p.is_empty() {
                assert_eq!(trim_end_matches(s, p), s.trim_end_matches(p), "{:?} {:?}", s, p);
            }
        }
    }
    assert_eq!(strip_prefix("Mozilla Firefox 128.0", "Mozilla Firefox"), Some(" 128.0"));
    assert_eq!(strip_prefix("Firefox 128.0", "Mozilla Firefox"), None);
    assert_eq!(trim_end_matches("repo.git.git", ".git"), "repo");
    assert_eq!(replace("/home/me/src", "/home/me", "~"), "~/src");
    assert_eq!(replace("abc", "", "~"), "~a~b~c~");
    assert_eq!(replace("aaa", "aa", "b"), "ba");
}

#[test]
fn contains_finds_what_is_inside() {
    assert!(contains("firefox-developer-edition", "firefox"));
    assert!(contains("firefox", "firefox"));
    assert!(!contains("google-chrome", "Google Chrome"));
    assert!(!contains("fire", "firefox"));
    assert!(contains("anything", ""));
}

#[test]
fn pad_right_fills_up_with_spaces() {
    for s in SAMPLES {
        for width in [0usize, 1, 5, 13, 15, 40] {
            assert_eq!(pad_right(s, width), format!("{:<1$}", s, width));
        }
    }
    assert_eq!(pad_right("Opera", 15), "Opera          ");
    assert_eq!(pad_right("Mozilla Firefox", 15), "Mozilla Firefox");
    assert_eq!(pad_right("a much longer text", 5), "a much longer text");
}

#[test]
fn order_is_the_order_of_strings() {
    for a in SAMPLES {
        for b in SAMPLES {
            let expected = if a < b {
                Order::Before
            } else if a == b {
                Order::Same
            } else {
                Order::After
            };
            assert_eq!(order(&to_chars(a), &to_chars(b)), expected, "{:?} {:?}", a, b);
        }
    }
    assert_eq!(order(&to_chars("Brave Browser 1.0"), &to_chars("Google Chrome 1.0")), Order::Before);
    assert_eq!(order(&to_chars("abc"), &to_chars("ab")), Order::After);
}

#[test]
fn decimal_writes_numbers_as_the_standard_library_does() {
    for n in [0i32, 1, 9, 10, 11, 99, 100, 127, 255, 1000, -1, -9, -10, -255, i32::MAX, i32::MIN] {
        assert_eq!(decimal_i32(n), n.to_string());
    }
    for n in [0u64, 7, 10, 12345678901234567890, u64::MAX] {
        assert_eq!(decimal_u64(n), n.to_string());
    }
    assert_eq!(decimal_i32(-1), "-1");
}

#[test]
fn join_words_puts_spaces_between() {
    let none: Vec<String> = vec![];
    assert_eq!(join_words(&none), "");
    assert_eq!(join_words(&vec!["git".to_string()]), "git");
    assert_eq!(
        join_words(&vec!["git".to_string(), "push".to_string(), "origin".to_string()]),
        "git push origin"
    );
    let words = vec!["a".to_string(), "".to_string(), "b".to_string()];
    assert_eq!(join_words(&words), words.join(" "));
}
