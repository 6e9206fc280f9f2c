use procpipe::textmatch::{filter_matching_lines, matches_any};

fn log_patterns() -> Vec<String> {
    vec![
        r#"version "\d\.\d\.\d""#.to_string(),
        r#"\d{1,3}\.\d{1,3}\.\d{1,3}\.\d{1,3}:443"#.to_string(),
        r#"warning.*timeout expired"#.to_string(),
    ]
}

#[test]
fn matches_any_is_case_insensitive_on_request() {
    let patterns = vec!["usb".to_string()];
    assert_eq!(matches_any("new USB device", &patterns, true), Some(true));
    assert_eq!(matches_any("new USB device", &patterns, false), Some(false));
    assert_eq!(matches_any("new usb device", &patterns, false), Some(true));
}

#[test]
fn invalid_patterns_are_reported() {
    let patterns = vec!["(unclosed".to_string()];
    assert_eq!(matches_any("anything", &patterns, false), None);
    assert!(filter_matching_lines(&vec!["anything".to_string()], &patterns, false).is_err());
}

#[test]
fn log_lines_are_filtered_like_the_demo() {
    let lines: Vec<String> = vec![
        r#"Started with VERSION "1.2.3""#.to_string(),
        "nothing of note".to_string(),
        "connect from 10.0.0.1:443".to_string(),
        "Warning: network timeout expired".to_string(),
        "connect from 10.0.0.1:80".to_string(),
    ];
    let kept = filter_matching_lines(&lines, &log_patterns(), true).unwrap();
    assert_eq!(
        kept,
        vec![
            r#"Started with VERSION "1.2.3""#.to_string(),
            "connect from 10.0.0.1:443".to_string(),
            "Warning: network timeout expired".to_string(),
        ]
    );
}

#[test]
fn empty_pattern_set_matches_nothing() {
    assert_eq!(matches_any("line", &Vec::new(), true), Some(false));
}
