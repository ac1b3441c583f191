use stars2nix::escape::escape;

/// Reads the body of a string literal: a backslash makes the next
/// character stand for itself (`n`, `r`, `t` for the control characters), a
/// bare double quote or `${` is refused.
fn read_literal(body: &str) -> Option<String> {
    let chars: Vec<char> = body.chars().collect();
    let mut out = String::new();
    let mut i = 0;
    while i < chars.len() {
        match chars[i] {
            '"' => return None,
            '\\' => {
                let c = *chars.get(i + 1)?;
                out.push(match c {
                    'n' => '\n',
                    'r' => '\r',
                    't' => '\t',
                    other => other,
                });
                i += 2;
            }
            '$' if chars.get(i + 1) == Some(&'{') => return None,
            '\r' => {
                out.push('\n');
                i += if chars.get(i + 1) == Some(&'\n') { 2 } else { 1 };
            }
            c => {
                out.push(c);
                i += 1;
            }
        }
    }
    Some(out)
}

#[test]
fn escape_leaves_plain_text_alone() {
    assert_eq!(escape(""), "");
    assert_eq!(escape("A curated list of things"), "A curated list of things");
    assert_eq!(escape("caf\u{e9} \u{1f600}"), "caf\u{e9} \u{1f600}");
    assert_eq!(escape("two\nlines"), "two\nlines");
}

#[test]
fn escape_doubles_a_backslash() {
    assert_eq!(escape("a\\b"), "a\\\\b");
    assert_eq!(escape("\\"), "\\\\");
    assert_eq!(escape("\\\\"), "\\\\\\\\");
}

#[test]
fn escape_guards_a_double_quote() {
    assert_eq!(escape("say \"hi\""), "say \\\"hi\\\"");
    assert_eq!(escape("\""), "\\\"");
}

#[test]
fn escape_guards_an_interpolation() {
    assert_eq!(escape("${x}"), "\\${x}");
    assert_eq!(escape("a${b}c${d}"), "a\\${b}c\\${d}");
}

#[test]
fn escape_leaves_a_lone_dollar_or_brace_alone() {
    assert_eq!(escape("$"), "$");
    assert_eq!(escape("$x{"), "$x{");
    assert_eq!(escape("{$}"), "{$}");
    assert_eq!(escape("$$"), "$$");
}

#[test]
fn escape_does_not_escape_what_it_added() {
    assert_eq!(escape("\\${"), "\\\\\\${");
    assert_eq!(escape("\\\""), "\\\\\\\"");
    assert_eq!(escape("\"${\\"), "\\\"\\${\\\\");
    assert_eq!(escape("$${"), "$\\${");
}

#[test]
fn escape_does_what_the_three_replacements_do() {
    for s in ["", "\\", "\"", "${", "$\\{", "a\\\"${b}\\\\${", "$", "\\$", "${${", "\"\"\\\\"] {
        let expected = s.replace("\\", "\\\\").replace("${", "\\${").replace("\"", "\\\"");
        assert_eq!(escape(s), expected, "{s:?}");
    }
}

#[test]
fn escaped_text_reads_back_as_the_text() {
    for s in [
        "",
        "plain",
        "\\",
        "\"",
        "${",
        "$",
        "$${",
        "\\${",
        "\\\\${x}\"",
        "a\\nb",
        "tab\there",
        "line\nfeed",
        "\\\"",
        "${\"\\",
        "$\\{",
        "caf\u{e9} ${\u{1f600}}",
    ] {
        assert_eq!(read_literal(&escape(s)), Some(s.to_string()), "{s:?}");
    }
}

#[test]
fn a_carriage_return_is_written_as_it_is() {
    assert_eq!(escape("a\rb"), "a\rb");
}
