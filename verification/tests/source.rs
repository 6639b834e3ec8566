use ill::lower::{normalize, unescape};

#[test]
fn normalize_crlf() {
    assert_eq!(normalize("a\r\nb\r\nc\r\n"), "a\nb\nc\n");
}

#[test]
fn normalize_bare_cr() {
    assert_eq!(normalize("a\rb\rc\r"), "a\nb\nc\n");
}

#[test]
fn normalize_trailing_spaces() {
    assert_eq!(normalize("a  \nb  \n"), "a\nb\n");
}

#[test]
fn normalize_no_trailing_newline() {
    assert_eq!(normalize("a\nb"), "a\nb\n");
}

#[test]
fn normalize_multiple_trailing_newlines() {
    assert_eq!(normalize("a\n\n\n"), "a\n");
}

#[test]
fn normalize_tabs() {
    assert_eq!(normalize("\tcmd"), "  cmd\n");
}

#[test]
fn normalize_preserves_internal_blank_lines() {
    assert_eq!(normalize("a\n\nb\n"), "a\n\nb\n");
}

#[test]
fn normalizing_twice_changes_nothing_more() {
    for src in ["", "a", "\n", " \t\r\n", "a\t b\r\r\nc  \n\n \n", "é \u{3000}\n"] {
        let once = normalize(src);
        assert_eq!(normalize(&once), once);
        assert!(once.ends_with('\n') && !once.contains('\r') && !once.contains('\t'));
    }
}

#[test]
fn messy_sources_normalize_to_the_clean_one() {
    let clean = "actor db = container\n";
    for src in ["actor db = container\r\n", "actor db = container", "actor db = container\n  "] {
        assert_eq!(normalize(src), clean);
    }
}

#[test]
fn unescape_backslash() {
    assert_eq!(unescape(r"a\\b").unwrap(), r"a\b");
}

#[test]
fn unescape_regex_dot() {
    assert_eq!(unescape(r"^x\\.org$").unwrap(), r"^x\.org$");
}

#[test]
fn unescape_quote() {
    assert_eq!(unescape(r#"say \"hi\""#).unwrap(), r#"say "hi""#);
}

#[test]
fn unescape_newline_tab_cr_null() {
    assert_eq!(unescape(r"a\nb\tc\rd\0e").unwrap(), "a\nb\tc\rd\0e");
}

#[test]
fn unescape_dollar() {
    assert_eq!(unescape(r"price \$5").unwrap(), "price $5");
}

#[test]
fn unescape_unknown_escape_errors() {
    assert!(unescape(r"\q").is_err());
}

#[test]
fn unescape_dangling_backslash_errors() {
    assert!(unescape("trailing\\").is_err());
}

#[test]
fn unescape_no_escapes_passthrough() {
    assert_eq!(unescape("plain text").unwrap(), "plain text");
}

#[test]
fn unescaping_undoes_escaping() {
    let original = "a\\b\"c\nd\te\rf\0g$h";
    let escaped = "a\\\\b\\\"c\\nd\\te\\rf\\0g\\$h";
    assert_eq!(unescape(escaped).unwrap(), original);
}

#[test]
fn every_escape_stands_for_its_character() {
    assert_eq!(unescape("\\\\\\\"\\$\\n\\t\\r\\0x").unwrap(), "\\\"$\n\t\r\0x");
}
