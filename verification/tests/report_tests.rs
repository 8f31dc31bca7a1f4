use grip::pattern::PatternSet;
use grip::report::report_line;

fn two_patterns() -> PatternSet {
    let inputs = vec!["foo".to_string(), "bar".to_string()];
    PatternSet::compile(&inputs).unwrap()
}

#[test]
fn plain_two_patterns_on_three_lines() {
    let ps = two_patterns();
    let out1 = report_line(&ps, "file.txt ", 1, "foobar", false);
    assert_eq!(
        out1,
        vec![
            "file.txt L1: foobar".to_string(),
            "file.txt L1: foobar".to_string(),
        ]
    );
    let out2 = report_line(&ps, "file.txt ", 2, "baz", false);
    assert!(out2.is_empty());
    let out3 = report_line(&ps, "file.txt ", 3, "foo only", false);
    assert_eq!(out3, vec!["file.txt L3: foo only".to_string()]);
}

#[test]
fn stream_lines_have_empty_label() {
    let inputs = vec!["hello".to_string()];
    let ps = PatternSet::compile(&inputs).unwrap();
    let out1 = report_line(&ps, "", 1, "hello world", false);
    assert_eq!(out1, vec!["L1: hello world".to_string()]);
    let out2 = report_line(&ps, "", 2, "no match", false);
    assert!(out2.is_empty());
}

#[test]
fn zero_firing_patterns_zero_output_lines() {
    let ps = two_patterns();
    assert!(report_line(&ps, "x ", 1, "nothing here", false).is_empty());
    assert!(report_line(&ps, "x ", 1, "nothing here", true).is_empty());
}

#[test]
fn modes_agree_on_line_selection() {
    let ps = two_patterns();
    for (n, line) in [(1, "foobar"), (2, "baz"), (3, "foo only"), (4, "a bar b")]
        .into_iter()
    {
        let plain = report_line(&ps, "p ", n, line, false);
        let colored = report_line(&ps, "p ", n, line, true);
        assert_eq!(plain.len(), colored.len());
    }
}

#[test]
fn colored_lines_keep_label_number_and_text() {
    let ps = two_patterns();
    let colored = report_line(&ps, "file.txt ", 7, "a foo b", true);
    assert_eq!(colored.len(), 1);
    assert!(colored[0].contains("file.txt "));
    assert!(colored[0].contains("L7"));
    assert!(colored[0].contains("foo"));
    assert!(colored[0].contains("a "));
    assert!(colored[0].contains(" b"));
}

#[test]
fn colorized_line_is_plain_or_exactly_marked() {
    let ps = two_patterns();
    let colored = report_line(&ps, "file.txt ", 7, "a foo b", true);
    assert_eq!(colored.len(), 1);
    let plain_form = "file.txt L7: a foo b";
    let marked_form = "\u{1b}[32mfile.txt \u{1b}[0m\u{1b}[33mL7\u{1b}[0m: a \u{1b}[1;31mfoo\u{1b}[0m b";
    assert!(colored[0] == plain_form || colored[0] == marked_form);
}

#[test]
fn non_ascii_lines_highlight_the_right_characters() {
    let inputs = vec!["β".to_string()];
    let ps = PatternSet::compile(&inputs).unwrap();
    let plain = report_line(&ps, "", 1, "ααβγ", false);
    assert_eq!(plain, vec!["L1: ααβγ".to_string()]);
    let colored = report_line(&ps, "", 1, "ααβγ", true);
    assert_eq!(colored.len(), 1);
    assert!(colored[0].contains("αα"));
    assert!(colored[0].contains("β"));
    assert!(colored[0].contains("γ"));
}

#[test]
fn duplicate_patterns_each_fire() {
    let inputs = vec!["foo".to_string(), "foo".to_string()];
    let ps = PatternSet::compile(&inputs).unwrap();
    let out = report_line(&ps, "d ", 1, "a foo", false);
    assert_eq!(
        out,
        vec!["d L1: a foo".to_string(), "d L1: a foo".to_string()]
    );
}

#[test]
fn line_numbers_render_in_decimal() {
    let inputs = vec!["x".to_string()];
    let ps = PatternSet::compile(&inputs).unwrap();
    let out = report_line(&ps, "", 1205, "x", false);
    assert_eq!(out, vec!["L1205: x".to_string()]);
}
