use grip::pattern::{CompileError, PatternSet};

#[test]
fn compile_two_patterns() {
    let inputs = vec!["foo".to_string(), "bar".to_string()];
    let ps = PatternSet::compile(&inputs).unwrap();
    assert_eq!(ps.len(), 2);
}

#[test]
fn compile_reports_first_invalid() {
    let inputs = vec!["foo".to_string(), "(".to_string(), "[".to_string()];
    match PatternSet::compile(&inputs) {
        Err(CompileError::InvalidPattern { index, text }) => {
            assert_eq!(index, 1);
            assert_eq!(text, "(");
        }
        _ => panic!("compilation should fail on the first invalid pattern"),
    }
}

#[test]
fn compile_unbalanced_paren_fails() {
    let inputs = vec!["(".to_string()];
    assert!(PatternSet::compile(&inputs).is_err());
}

#[test]
fn match_line_agrees_with_individual_matchers() {
    let inputs = vec!["fo+".to_string(), "bar".to_string(), "baz".to_string()];
    let ps = PatternSet::compile(&inputs).unwrap();
    let events = ps.match_line("foo bar");
    assert_eq!(events.len(), 2);
    assert_eq!(events[0].index, 0);
    assert_eq!(events[0].text, "foo");
    assert_eq!(events[1].index, 1);
    assert_eq!(events[1].text, "bar");
}

#[test]
fn match_line_no_firing_pattern() {
    let inputs = vec!["foo".to_string(), "bar".to_string()];
    let ps = PatternSet::compile(&inputs).unwrap();
    let events = ps.match_line("zzz");
    assert_eq!(events.len(), 0);
}

#[test]
fn match_line_indices_in_declaration_order() {
    let inputs = vec!["bar".to_string(), "foo".to_string()];
    let ps = PatternSet::compile(&inputs).unwrap();
    let events = ps.match_line("foobar");
    assert_eq!(events.len(), 2);
    assert_eq!(events[0].index, 0);
    assert_eq!(events[1].index, 1);
}

#[test]
fn match_line_leftmost_match_text() {
    let inputs = vec!["o+".to_string()];
    let ps = PatternSet::compile(&inputs).unwrap();
    let events = ps.match_line("foo oo");
    assert_eq!(events.len(), 1);
    assert_eq!(events[0].text, "oo");
    assert_eq!(events[0].start, 1);
}

#[test]
fn match_line_start_is_first_occurrence_of_text() {
    // The pattern itself matches only at the end of the line, but the
    // highlight position is the first occurrence of the matched substring.
    let inputs = vec!["o$".to_string()];
    let ps = PatternSet::compile(&inputs).unwrap();
    let events = ps.match_line("foo");
    assert_eq!(events.len(), 1);
    assert_eq!(events[0].text, "o");
    assert_eq!(events[0].start, 1);
}
