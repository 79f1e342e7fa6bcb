use todomvc::text::{is_whitespace_char, same_text, trim};

#[test]
fn trim_removes_ascii_whitespace() {
    assert_eq!(trim("  Buy milk  "), "Buy milk");
    assert_eq!(trim("\t\nx y\r\n"), "x y");
    assert_eq!(trim("   "), "");
    assert_eq!(trim(""), "");
}

#[test]
fn trim_removes_unicode_whitespace() {
    assert_eq!(trim("\u{3000}\u{a0}todo\u{85}\u{2029}"), "todo");
    assert_eq!(trim("\u{200b}x"), "\u{200b}x");
}

#[test]
fn trim_agrees_with_std_on_many_inputs() {
    let pieces = ["", " ", "a", "\u{2003}", "é", "\t", "b c", "\u{205f}", "\u{180e}"];
    for a in pieces.iter() {
        for b in pieces.iter() {
            for c in pieces.iter() {
                let s = format!("{a}{b}{c}");
                assert_eq!(trim(&s), s.trim(), "input {:?}", s);
            }
        }
    }
}

#[test]
fn trim_is_idempotent() {
    for s in ["  a  ", "\u{3000}b", "c\u{2028}", "d"] {
        let once = trim(s);
        assert_eq!(trim(&once), once);
    }
}

#[test]
fn same_text_compares_characters() {
    assert!(same_text("#/active", "#/active"));
    assert!(!same_text("#/active", "#/activ"));
    assert!(!same_text("#/a", "#/b"));
    assert!(same_text("", ""));
}

#[test]
fn whitespace_matches_std_on_every_char() {
    for u in 0u32..=0x10ffff {
        if let Some(c) = char::from_u32(u) {
            assert_eq!(is_whitespace_char(c), c.is_whitespace(), "char {:#x}", u);
        }
    }
}
