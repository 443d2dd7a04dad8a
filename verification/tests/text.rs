//! Text primitives, content, kinds and patterns.

use cling::content::{preview_text_of, sanitize_fts, strip_html};
use cling::errors::{classify, is_decrypt_error, mentions_decryption, StoreError};
use cling::pattern::{check_compiled, check_pattern, compile_all, is_found_in, PatternError};
use cling::text::{
    contains, eq_ignore_ascii_case, i64_text, is_blank, parse_i64, starts_with, to_ascii_lowercase,
    truncate, u64_text,
};
use cling::types::{AppId, Entry, MimeBlob, PreviewKind};

fn t(mime: &str, b: &[u8]) -> MimeBlob {
    MimeBlob {
        mime: mime.into(),
        bytes: b.to_vec(),
    }
}

#[test]
fn kinds_are_inferred_from_the_targets() {
    let kind = |mimes: &[&str]| {
        let list: Vec<MimeBlob> = mimes.iter().map(|m| t(m, b"")).collect();
        PreviewKind::infer(&list)
    };
    assert_eq!(kind(&["text/plain", "image/png", "TEXT/URI-LIST"]), PreviewKind::Files);
    assert_eq!(kind(&["x-special/gnome-copied-files"]), PreviewKind::Files);
    assert_eq!(kind(&["text/html", "image/png"]), PreviewKind::Image);
    assert_eq!(kind(&["Image/png"]), PreviewKind::Other);
    assert_eq!(kind(&["text/plain", "text/RTF"]), PreviewKind::Rich);
    assert_eq!(kind(&["text/markdown"]), PreviewKind::Rich);
    assert_eq!(kind(&["TEXT/PLAIN"]), PreviewKind::Text);
    assert_eq!(kind(&["text/x-rust"]), PreviewKind::Text);
    assert_eq!(kind(&["application/pdf"]), PreviewKind::Other);
    assert_eq!(kind(&[]), PreviewKind::Other);
}

#[test]
fn kinds_have_names() {
    for kind in [
        PreviewKind::Text,
        PreviewKind::Image,
        PreviewKind::Files,
        PreviewKind::Rich,
        PreviewKind::Other,
    ] {
        assert_eq!(PreviewKind::parse(kind.as_str()), kind);
    }
    assert_eq!(PreviewKind::Files.as_str(), "files");
    assert_eq!(PreviewKind::parse("Text"), PreviewKind::Other);
}

#[test]
fn the_text_of_an_entry_is_its_first_plain_text() {
    let entry = |targets: Vec<MimeBlob>| Entry {
        id: 1,
        ts: 0,
        pinned: false,
        group: None,
        origin: None,
        use_count: 1,
        preview_kind: PreviewKind::Text,
        size_bytes: 0,
        targets,
    };
    assert_eq!(entry(vec![t("a/b", b"x"), t("text/plain", b"y")]).text(), Some("y"));
    assert_eq!(entry(vec![t("text/plain", &[0x80]), t("text/plain", b"y")]).text(), None);
    assert_eq!(entry(vec![]).text(), None);
    assert_eq!(AppId::default(), AppId { id: None, label: None });
}

#[test]
fn html_is_stripped_for_the_index() {
    assert_eq!(strip_html("<p>Hello,\n <b>world</b>!</p>"), "Hello, world!");
    assert_eq!(strip_html("a < b > c"), "a c");
    assert_eq!(strip_html("<<a>b>c"), "bc");
    assert_eq!(strip_html("no tags"), "no tags");
    assert_eq!(strip_html("<unclosed"), "");
    assert_eq!(strip_html("a <b c> d\t e <f"), "a d e");
    assert_eq!(strip_html("a d e"), "a d e");
}

#[test]
fn queries_are_quoted_word_by_word() {
    assert_eq!(sanitize_fts("hello world"), "\"hello\"* \"world\"*");
    assert_eq!(sanitize_fts("  a-b_c  \"x\" "), "\"a-b_c\"* \"x\"*");
    assert_eq!(sanitize_fts("(*) ?"), "");
    assert_eq!(sanitize_fts("\"a-b_c\"* \"x\"*"), "\"a-b_c\"* \"x\"*");
    assert_eq!(sanitize_fts("na\u{ef}ve\u{a0}\u{e9}t\u{e9}"), "\"na\u{ef}ve\"* \"\u{e9}t\u{e9}\"*");
    assert_eq!(sanitize_fts(""), "");
}

#[test]
fn previews_come_from_the_first_plain_text() {
    assert_eq!(
        preview_text_of(&[t("text/html", b"h"), t("text/plain", b"p")]),
        Some("p".to_string())
    );
    assert_eq!(preview_text_of(&[t("text/plain", &[0xff])]), None);
    let long = "x".repeat(200);
    let preview = preview_text_of(&[t("text/plain", long.as_bytes())]).unwrap();
    assert_eq!(preview, format!("{}\u{2026}", "x".repeat(160)));
}

#[test]
fn texts_are_truncated_by_characters() {
    assert_eq!(truncate("abc", 3), "abc");
    assert_eq!(truncate("abcd", 3), "abc\u{2026}");
    assert_eq!(truncate("\u{1f600}\u{1f600}", 1), "\u{1f600}\u{2026}");
    assert_eq!(truncate("", 0), "");
}

#[test]
fn ascii_letters_are_folded() {
    assert_eq!(to_ascii_lowercase("KeePassXC \u{c9}"), "keepassxc \u{c9}");
    assert!(eq_ignore_ascii_case("Text/PLAIN", "text/plain"));
    assert!(!eq_ignore_ascii_case("\u{c9}", "\u{e9}"));
    assert!(starts_with("image/png", "image/"));
    assert!(!starts_with("image", "image/"));
    assert!(contains("abcabd", "abd"));
    assert!(contains("", ""));
    assert!(!contains("ab", "abc"));
    assert!(is_blank(" \t\n\u{2003}"));
    assert!(!is_blank(" x "));
}

#[test]
fn numbers_are_written_and_read() {
    for n in [0, 7, -1, 1234567890123, i64::MAX, i64::MIN] {
        assert_eq!(i64_text(n), n.to_string());
        assert_eq!(parse_i64(&i64_text(n)), Some(n));
    }
    assert_eq!(u64_text(u64::MAX), u64::MAX.to_string());
    for s in ["", "-", "+", "1x", " 1", "9223372036854775808", "-9223372036854775809", "+5", "007"] {
        assert_eq!(parse_i64(s), s.parse::<i64>().ok());
    }
}

#[test]
fn a_wrong_key_is_told_from_other_errors() {
    assert!(is_decrypt_error("File Is NOT A DATABASE"));
    assert!(is_decrypt_error("cannot DECRYPT page"));
    assert!(!is_decrypt_error("disk I/O error"));
    assert!(mentions_decryption("file is not a database"));
    assert!(!mentions_decryption("File is Not a database"));
    assert_eq!(classify("file is not a database".to_string()), StoreError::Locked);
    assert_eq!(classify("disk full".to_string()), StoreError::Db("disk full".to_string()));
}

#[test]
fn patterns_are_regular_expressions() {
    let rules = compile_all(&vec!["b+".to_string(), "^b".to_string(), "(".to_string()]);
    assert!(is_found_in(&rules[0], "abbc"));
    assert!(!is_found_in(&rules[1], "abbc"));
    assert!(!is_found_in(&rules[2], "("));
    assert_eq!(check_compiled(&rules[0]), Ok(()));
    let broken = check_compiled(&rules[2]).unwrap_err();
    assert!(matches!(&broken, PatternError::Syntax(m) if m.contains("unclosed group")));
    assert!(broken.message().contains("unclosed group"));
    assert_eq!(check_pattern("a|b"), Ok(()));
    let broken = check_pattern("[").unwrap_err();
    assert!(matches!(broken, PatternError::Syntax(m) if m.contains("unclosed character class")));
    let big = check_pattern("((a{1000}){1000}){1000}").unwrap_err();
    assert!(matches!(big, PatternError::TooBig(m) if m.contains("exceeds size limit")));
}
