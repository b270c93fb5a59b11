use bert::text::{contains_str, ends_with, has_flag, lines, str_eq, words};

#[test]
fn lines_drop_final_newline() {
    assert_eq!(lines("a\nb\n"), vec!["a".to_string(), "b".to_string()]);
}

#[test]
fn lines_keep_inner_empty_line() {
    assert_eq!(lines("a\n\nb"), vec!["a".to_string(), String::new(), "b".to_string()]);
}

#[test]
fn lines_strip_carriage_return() {
    assert_eq!(lines("x\r\ny"), vec!["x".to_string(), "y".to_string()]);
}

#[test]
fn lines_of_empty_text() {
    assert!(lines("").is_empty());
    assert_eq!(lines("\n"), vec![String::new()]);
}

#[test]
fn words_skip_runs_of_spaces() {
    assert_eq!(words("  wget   1.21.4\t2 "), vec!["wget".to_string(), "1.21.4".to_string(), "2".to_string()]);
    assert!(words("   ").is_empty());
}

#[test]
fn flag_marker_needs_two_dashes() {
    assert!(has_flag("  --with-openssl"));
    assert!(!has_flag("-x - y"));
    assert!(!has_flag(""));
}

#[test]
fn string_comparisons() {
    assert!(str_eq("brew", "brew"));
    assert!(!str_eq("brew", "brews"));
    assert!(contains_str("/bin/zsh", "zsh"));
    assert!(!contains_str("/bin/bash", "zsh"));
    assert!(ends_with("backup.json", ".json"));
    assert!(!ends_with("json", ".json"));
}
