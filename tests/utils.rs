use text_editor::utils::word_wrap;

#[test]
fn words_wrap_at_the_width() {
    assert_eq!(word_wrap("hello world foo", 11), "hello world \nfoo ");
    assert_eq!(word_wrap("  a \t b\n", 100), "a b ");
    assert_eq!(word_wrap("", 5), "");
}

#[test]
fn zero_width_puts_each_word_alone() {
    assert_eq!(word_wrap("a b", 0), "\na \nb ");
}

#[test]
fn negative_width_never_wraps() {
    assert_eq!(word_wrap("a b c", -1), "a b c ");
}

#[test]
fn width_counts_bytes() {
    assert_eq!(word_wrap("éé x", 4), "éé \nx ");
    assert_eq!(word_wrap("ab x", 4), "ab x ");
}
