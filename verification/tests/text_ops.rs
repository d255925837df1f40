use fennec::script::{admin_shell_command, escape_applescript, set_clipboard_script};
use fennec::text::{chars_of, contains, is_blank, is_whitespace, starts_with, str_eq, str_lt, trim};

#[test]
fn whitespace_matches_std() {
    for u in 0u32..=0x10FFFF {
        if let Some(c) = char::from_u32(u) {
            assert_eq!(is_whitespace(c), c.is_whitespace(), "U+{:04X}", u);
        }
    }
}

#[test]
fn trim_matches_std() {
    for s in ["", "   ", "abc", "  abc  ", "\u{3000}x y\u{2028}\n", "\t\n a\u{A0}", "é ü"] {
        assert_eq!(trim(s), s.trim());
        assert_eq!(is_blank(s), s.trim().is_empty());
    }
}

#[test]
fn search_and_prefix() {
    assert!(contains("error -25212 here", "-25212"));
    assert!(!contains("error -2521", "-25212"));
    assert!(contains("abc", ""));
    assert!(starts_with("gpt-4o", "gpt-"));
    assert!(!starts_with("gp", "gpt-"));
    assert!(str_eq("héllo", "héllo"));
    assert!(!str_eq("hello", "hell"));
    assert_eq!(chars_of("añb"), vec!['a', 'ñ', 'b']);
}

#[test]
fn order_matches_std() {
    let words = ["", "a", "ab", "b", "B", "é", "e", "o1", "o1-mini", "gpt-4", "gpt-4o", "\u{1F600}"];
    for a in words {
        for b in words {
            assert_eq!(str_lt(a, b), a < b, "{:?} < {:?}", a, b);
        }
    }
}

#[test]
fn applescript_escaping() {
    assert_eq!(escape_applescript(r#"say "hi" \o/"#), r#"say \"hi\" \\o/"#);
    assert_eq!(escape_applescript("plain text"), "plain text");
    assert_eq!(
        set_clipboard_script("a\"b"),
        "set the clipboard to \"a\\\"b\""
    );
    let text = "back\\slash \"quoted\"";
    let expected = text.replace('\\', "\\\\").replace('"', "\\\"");
    assert_eq!(escape_applescript(text), expected);
    assert_eq!(
        admin_shell_command("echo \"x\""),
        "do shell script \"echo \\\"x\\\"\" with administrator privileges"
    );
}

#[test]
fn trimming_twice_changes_nothing() {
    for s in ["  a b  ", "\u{2003}x\u{2003}", "", " \t "] {
        assert_eq!(trim(trim(s)), trim(s));
    }
}
