use stars2nix::text::{chars_of, matches_at, replace_all, string_of};

fn chars(s: &str) -> Vec<char> {
    s.chars().collect()
}

#[test]
fn chars_of_gives_the_characters_in_order() {
    assert_eq!(chars_of("a\u{e9}\u{1f600}b"), vec!['a', '\u{e9}', '\u{1f600}', 'b']);
    assert_eq!(chars_of(""), Vec::<char>::new());
}

#[test]
fn string_of_puts_the_characters_together() {
    assert_eq!(string_of(&vec!['a', '\u{e9}', 'b']), "a\u{e9}b");
    assert_eq!(string_of(&vec![]), "");
}

#[test]
fn matches_at_compares_at_the_index() {
    let s = chars("a${b");
    assert!(matches_at(&s, 1, &chars("${")));
    assert!(!matches_at(&s, 0, &chars("${")));
    assert!(!matches_at(&s, 3, &chars("b{")));
    assert!(matches_at(&s, 4, &chars("")));
    assert!(!matches_at(&s, 4, &chars("b")));
}

#[test]
fn replace_all_does_what_str_replace_does() {
    let cases = [
        ("", "a", "b"),
        ("aaa", "a", "bb"),
        ("aaa", "aa", "b"),
        ("abcabc", "bc", ""),
        ("a${b}${", "${", "\\${"),
        ("ab", "abc", "x"),
        ("xaxbx", "x", "xx"),
        ("ababa", "aba", "c"),
    ];
    for (s, from, to) in cases {
        assert_eq!(
            string_of(&replace_all(&chars(s), &chars(from), &chars(to))),
            s.replace(from, to),
            "{s:?} {from:?} {to:?}"
        );
    }
}

#[test]
fn replace_all_finds_no_match_of_the_empty_text() {
    assert_eq!(replace_all(&chars("ab"), &chars(""), &chars("x")), chars("ab"));
    assert_eq!(replace_all(&chars(""), &chars(""), &chars("x")), chars(""));
}

#[test]
fn matches_at_finds_nothing_past_the_end() {
    assert!(!matches_at(&chars("ab"), 3, &chars("")));
    assert!(!matches_at(&chars("ab"), 7, &chars("a")));
}
