use ac::git_status::{parse_git_status, should_display, GitStatus};

#[test]
fn test_parse_git_status() {
    let status = "M src/main.rs\n\
    ?? src/git_status.rs";
    let s = parse_git_status(status.to_string());
    assert_eq!(s, GitStatus::Modified);
}

#[test]
fn test_parse_git_status_blank() {
    let status = "";
    let s = parse_git_status(status.to_string());
    assert_eq!(s, GitStatus::Aok);
}

#[test]
fn display_rule() {
    assert!(should_display(&GitStatus::Modified, true));
    assert!(should_display(&GitStatus::Modified, false));
    assert!(!should_display(&GitStatus::Aok, true));
    assert!(should_display(&GitStatus::Aok, false));
    assert!(!should_display(&GitStatus::Unknown, true));
    assert!(should_display(&GitStatus::Unknown, false));
}
