use rws::text::{chars_of, contains, is_whitespace_char, matches_at, rfind, starts_with, whitespace_run};

fn chars(s: &str) -> Vec<char> {
    s.chars().collect()
}

#[test]
fn chars_of_decodes_every_character() {
    assert_eq!(chars_of(""), Vec::<char>::new());
    assert_eq!(chars_of("abc"), vec!['a', 'b', 'c']);
    assert_eq!(chars_of("é日\u{1f600}"), vec!['é', '日', '\u{1f600}']);
    assert_eq!(chars_of("a\nb"), vec!['a', '\n', 'b']);
}

#[test]
fn whitespace_is_the_unicode_property() {
    let mut code: u32 = 0;
    while code <= 0x10FFFF {
        if let Some(c) = char::from_u32(code) {
            assert_eq!(is_whitespace_char(c), c.is_whitespace(), "U+{:04X}", code);
        }
        code += 1;
    }
}

#[test]
fn whitespace_examples() {
    assert!(is_whitespace_char(' '));
    assert!(is_whitespace_char('\t'));
    assert!(is_whitespace_char('\n'));
    assert!(is_whitespace_char('\u{3000}'));
    assert!(!is_whitespace_char('a'));
    assert!(!is_whitespace_char('#'));
    assert!(!is_whitespace_char('\u{200b}'));
    assert!(!is_whitespace_char('\u{180e}'));
}

#[test]
fn contains_agrees_with_std() {
    let hays = ["", "a", "ab", "abc", "aab", "aaab", "abab", "abcabd", "ééa", "xxabxx", "ba"];
    let needles = ["", "a", "b", "ab", "abd", "aab", "é", "éa", "abc", "abcd", "ba"];
    for hay in hays {
        for needle in needles {
            assert_eq!(
                contains(&chars(hay), &chars(needle)),
                hay.contains(needle),
                "{:?} in {:?}",
                needle,
                hay
            );
        }
    }
}

#[test]
fn empty_needle_is_found_everywhere() {
    assert!(contains(&[], &[]));
    assert!(contains(&chars("abc"), &[]));
    assert!(starts_with(&chars("abc"), &[]));
    assert!(matches_at(&chars("abc"), &[], 3));
    assert!(!matches_at(&chars("abc"), &[], 4));
}

#[test]
fn starts_with_agrees_with_std() {
    let hays = ["", "#", " #", "# a", " # a", "  #", "a#", "##", "é#"];
    let needles = ["", "#", " #", "##", "é", "# a b"];
    for hay in hays {
        for needle in needles {
            assert_eq!(
                starts_with(&chars(hay), &chars(needle)),
                hay.starts_with(needle),
                "{:?} at the start of {:?}",
                needle,
                hay
            );
        }
    }
}

#[test]
fn matches_at_checks_one_position() {
    let hay = chars("abcabc");
    let needle = chars("bc");
    assert!(!matches_at(&hay, &needle, 0));
    assert!(matches_at(&hay, &needle, 1));
    assert!(!matches_at(&hay, &needle, 2));
    assert!(matches_at(&hay, &needle, 4));
    assert!(!matches_at(&hay, &needle, 5));
    assert!(!matches_at(&hay, &needle, 6));
    assert!(!matches_at(&hay, &needle, usize::MAX));
    assert!(!matches_at(&needle, &hay, 0));
}

#[test]
fn rfind_gives_the_last_occurrence() {
    assert_eq!(rfind(&chars(""), '#'), None);
    assert_eq!(rfind(&chars("abc"), '#'), None);
    assert_eq!(rfind(&chars("#"), '#'), Some(0));
    assert_eq!(rfind(&chars("#a#b"), '#'), Some(2));
    assert_eq!(rfind(&chars("é#é#"), '#'), Some(3));
    assert_eq!(rfind(&chars("##a"), '#'), Some(1));
}

#[test]
fn whitespace_run_counts_from_a_position() {
    let hay = chars("a \t\u{a0}b  ");
    assert_eq!(whitespace_run(&hay, 0), 0);
    assert_eq!(whitespace_run(&hay, 1), 3);
    assert_eq!(whitespace_run(&hay, 2), 2);
    assert_eq!(whitespace_run(&hay, 4), 0);
    assert_eq!(whitespace_run(&hay, 5), 2);
    assert_eq!(whitespace_run(&hay, 7), 0);
}
