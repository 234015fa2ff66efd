use irodori_trino::text::{
    comes_before, contains, find, from_chars, has_char, head, is_whitespace, replace, same, split,
    to_chars, trim, trim_end_matches,
};

const SAMPLES: [&str; 14] = [
    "",
    " ",
    "a",
    " a ",
    "\u{3000}wide\u{a0}",
    "aaaa",
    "abab",
    "ab\u{e9}\u{20ac}\u{1f600}",
    "\u{ffff}",
    "\u{10000}",
    "https://u:p@host/x//",
    "//",
    "\t\r\n\u{85}\u{200b}x",
    ":::",
];

#[test]
fn whitespace_is_that_of_std() {
    for code in 0..=0x10ffffu32 {
        if let Some(c) = char::from_u32(code) {
            assert_eq!(is_whitespace(c), c.is_whitespace(), "{code:x}");
        }
    }
}

#[test]
fn trimming_is_that_of_std() {
    for text in SAMPLES {
        assert_eq!(trim(text), text.trim());
        assert_eq!(trim(trim(text)), trim(text));
        for c in ['/', 'a', ' ', '\u{20ac}'] {
            assert_eq!(trim_end_matches(text, c), text.trim_end_matches(c));
        }
    }
}

#[test]
fn searching_is_that_of_std() {
    for text in SAMPLES {
        for pattern in SAMPLES {
            assert_eq!(contains(text, pattern), text.contains(pattern));
            let at = text.find(pattern).map(|at| text[..at].chars().count());
            assert_eq!(find(text, pattern), at);
        }
        for c in ['a', ':', '\u{1f600}'] {
            assert_eq!(has_char(text, c), text.contains(c));
        }
    }
}

#[test]
fn splitting_is_that_of_std() {
    for text in SAMPLES {
        for c in [':', '/', '@', 'a', '\u{20ac}'] {
            let parts: Vec<&str> = text.split(c).collect();
            assert_eq!(split(text, c), parts);
            assert_eq!(head(text, c), parts[0]);
        }
    }
}

#[test]
fn replacing_is_that_of_std() {
    for text in SAMPLES {
        for pattern in ["", "a", "aa", "ab", "aba", "\u{20ac}", "//", ":"] {
            for with in ["", "****", "<trino-url>", "a"] {
                assert_eq!(replace(text, pattern, with), text.replace(pattern, with));
            }
        }
    }
    assert_eq!(replace("aaaaa", "aa", "b"), "bba");
}

#[test]
fn replacing_removes_what_stays_clear_of_the_replacement() {
    let text = replace("s3s3cretcret and s3cret", "s3cret", "****");
    assert_eq!(text, "s3****cret and ****");
    assert!(!contains(&text, "s3cret"));
    // What shares a character with the replacement may come out of it.
    assert!(contains(&replace("*", "*", "****"), "*"));
}

#[test]
fn order_is_that_of_std() {
    for a in SAMPLES {
        assert!(!comes_before(a, a));
        for b in SAMPLES {
            assert_eq!(comes_before(a, b), a.to_string() < b.to_string());
            assert_eq!(same(a, b), a == b);
        }
    }
}

#[test]
fn characters_go_round() {
    for text in SAMPLES {
        let chars = to_chars(text);
        assert_eq!(from_chars(&chars, 0, chars.len()), text);
    }
    let chars = to_chars("x\u{20ac}y");
    assert_eq!(from_chars(&chars, 1, 2), "\u{20ac}");
    assert_eq!(from_chars(&chars, 1, 1), "");
}
