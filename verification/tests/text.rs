use procpipe::collect::{interpreter_words, output_lines, split_words, final_classification};
use procpipe::command::Classification;
use procpipe::gitlog::{parse_commit_line, parse_commits};
use procpipe::lines::{contains_bytes, filter_lines_containing, split_lines};
use procpipe::login::extract_login;

#[test]
fn split_lines_edges() {
    assert_eq!(split_lines(b""), Vec::<Vec<u8>>::new());
    assert_eq!(split_lines(b"\n"), vec![b"".to_vec()]);
    assert_eq!(split_lines(b"a"), vec![b"a".to_vec()]);
    assert_eq!(split_lines(b"a\nb\nc"), vec![b"a".to_vec(), b"b".to_vec(), b"c".to_vec()]);
    assert_eq!(split_lines(b"a\nb\nc\n"), vec![b"a".to_vec(), b"b".to_vec(), b"c".to_vec()]);
    assert_eq!(split_lines(b"\n\n"), vec![b"".to_vec(), b"".to_vec()]);
}

#[test]
fn output_lines_decodes_text() {
    assert_eq!(
        output_lines(b"Rust\nlines\nFun").unwrap(),
        vec!["Rust".to_string(), "lines".to_string(), "Fun".to_string()]
    );
    // a multi-byte character survives the round trip through bytes
    let text = "Rust\n\u{1f496}\nFun";
    assert_eq!(
        output_lines(text.as_bytes()).unwrap(),
        vec!["Rust".to_string(), "\u{1f496}".to_string(), "Fun".to_string()]
    );
}

#[test]
fn output_lines_rejects_invalid_text() {
    assert!(output_lines(&[b'a', b'\n', 0xff, 0xfe]).is_err());
}

#[test]
fn final_classification_overrides_success_only() {
    assert_eq!(
        final_classification(Classification::Success, false),
        Classification::DecodeFailed
    );
    assert_eq!(
        final_classification(Classification::Success, true),
        Classification::Success
    );
    assert_eq!(
        final_classification(Classification::NonZeroExit, false),
        Classification::NonZeroExit
    );
}

#[test]
fn contains_bytes_finds_runs() {
    assert!(contains_bytes(b"journal usb line", b"usb"));
    assert!(!contains_bytes(b"journal line", b"usb"));
    assert!(contains_bytes(b"anything", b""));
    assert!(!contains_bytes(b"ab", b"abc"));
}

#[test]
fn filter_keeps_matching_lines_in_order() {
    let lines = vec![b"usb one".to_vec(), b"other".to_vec(), b"two usb".to_vec()];
    assert_eq!(
        filter_lines_containing(&lines, b"usb"),
        vec![b"usb one".to_vec(), b"two usb".to_vec()]
    );
}

#[test]
fn words_are_split_on_whitespace() {
    let words = split_words(b"  The quick\t brown\nfox  ");
    assert_eq!(
        words,
        vec![b"The".to_vec(), b"quick".to_vec(), b"brown".to_vec(), b"fox".to_vec()]
    );
    assert_eq!(split_words(b"   \t\n"), Vec::<Vec<u8>>::new());
}

#[test]
fn interpreter_words_lowercases_and_dedups() {
    // would fail if the lowercase step handed its argument back unchanged
    let r = interpreter_words(b"The the THE zen of ZEN").unwrap();
    assert_eq!(r, vec!["the".to_string(), "zen".to_string(), "of".to_string()]);
}

#[test]
fn interpreter_words_rejects_invalid_text() {
    assert!(interpreter_words(&[0xffu8, 0xfe]).is_err());
}

#[test]
fn commit_lines_are_parsed() {
    let o = parse_commit_line("4afa5ac  Initial commit").unwrap();
    assert_eq!(o.hash, "4afa5ac");
    assert_eq!(o.message, "Initial commit");
    assert!(parse_commit_line("not-a-commit").is_none());
    assert!(parse_commit_line("").is_none());
}

#[test]
fn parse_commits_skips_and_truncates() {
    let lines: Vec<String> = vec![
        "1111111 one".to_string(),
        "no hash here? none".to_string(),
        "2222222 two".to_string(),
        "3333333 three".to_string(),
        "4444444 four".to_string(),
    ];
    let commits = parse_commits(&lines, 3);
    assert_eq!(commits.len(), 3);
    assert_eq!(commits[0].hash, "1111111");
    assert_eq!(commits[0].message, "one");
    assert_eq!(commits[1].message, "two");
    assert_eq!(commits[2].message, "three");
}

#[test]
fn logins_are_extracted_from_valid_addresses() {
    assert_eq!(
        extract_login("ferris@rust-lang.test").as_deref(),
        None,
        "a dash is not a word character in the domain"
    );
    assert_eq!(extract_login("ferris@example.com").as_deref(), Some("ferris"));
    assert_eq!(
        extract_login("some_user99@mail.sub.example").as_deref(),
        Some("some_user99")
    );
}

#[test]
fn malformed_addresses_are_rejected() {
    assert_eq!(extract_login("no-at-sign"), None);
    assert_eq!(extract_login("@example.com"), None);
    assert_eq!(extract_login("user@"), None);
    assert_eq!(extract_login("user@.com"), None);
    assert_eq!(extract_login("user@example."), None);
    assert_eq!(extract_login("user@exa..mple"), None);
    assert_eq!(extract_login("us er@example.com"), None);
}
