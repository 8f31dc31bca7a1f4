use grip::text::{find_first, usize_to_string};

#[test]
fn decimal_rendering() {
    assert_eq!(usize_to_string(0), "0");
    assert_eq!(usize_to_string(7), "7");
    assert_eq!(usize_to_string(10), "10");
    assert_eq!(usize_to_string(1234), "1234");
    assert_eq!(usize_to_string(18446744073709551615), "18446744073709551615");
}

#[test]
fn find_first_positions() {
    assert_eq!(find_first("foobar", "bar"), Some(3));
    assert_eq!(find_first("foobar", "zz"), None);
    assert_eq!(find_first("aaa", "aa"), Some(0));
    assert_eq!(find_first("abc", ""), Some(0));
    assert_eq!(find_first("", "a"), None);
}

#[test]
fn find_first_counts_characters_not_bytes() {
    assert_eq!(find_first("ααβ", "β"), Some(2));
}
