use grip::driver::{
    classify_target, collect_patterns, exit_code, file_label, invalid_pattern_message,
    not_found_message, set_refused_message, skip_warning, TargetKind,
};

#[test]
fn collect_prepends_positional_and_drops_empty() {
    let flags = vec!["".to_string(), "bar".to_string(), "".to_string()];
    let got = collect_patterns(&Some("foo".to_string()), &flags);
    assert_eq!(got, vec!["foo".to_string(), "bar".to_string()]);
}

#[test]
fn collect_without_positional() {
    let flags = vec!["x".to_string()];
    let got = collect_patterns(&None, &flags);
    assert_eq!(got, vec!["x".to_string()]);
}

#[test]
fn collect_drops_empty_positional() {
    let got = collect_patterns(&Some("".to_string()), &vec![]);
    assert!(got.is_empty());
}

#[test]
fn piped_stdin_wins_over_target() {
    assert_eq!(classify_target(false, Some(true)), TargetKind::Stream);
    assert_eq!(classify_target(false, None), TargetKind::Stream);
}

#[test]
fn terminal_stdin_classifies_by_metadata() {
    assert_eq!(classify_target(true, Some(true)), TargetKind::File);
    assert_eq!(classify_target(true, Some(false)), TargetKind::Directory);
    assert_eq!(classify_target(true, None), TargetKind::NotFound);
}

#[test]
fn message_for_invalid_pattern() {
    assert_eq!(invalid_pattern_message("("), "Regex \"(\" invalid.");
}

#[test]
fn message_for_refused_set() {
    assert_eq!(
        set_refused_message(),
        "Pattern set rejected by the regex engine."
    );
}

#[test]
fn message_for_missing_path() {
    assert_eq!(not_found_message("/nope"), "Path \"/nope\" not found.");
}

#[test]
fn warning_for_unreadable_file() {
    assert_eq!(
        skip_warning("locked.txt", false),
        "[WARN] Skipping locked.txt, Permission Denied"
    );
    assert!(skip_warning("locked.txt", true).contains("[WARN] Skipping locked.txt"));
}

#[test]
fn file_labels_end_with_a_space() {
    assert_eq!(file_label("a.txt"), "a.txt ");
}

#[test]
fn exit_codes() {
    assert_eq!(exit_code(true), 1);
    assert_eq!(exit_code(false), 0);
}
