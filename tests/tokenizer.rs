use sh_inline::lexer::tokenize;

fn words(v: &[&str]) -> Option<Vec<String>> {
    Some(v.iter().map(|s| s.to_string()).collect())
}

#[test]
fn splits_on_blanks() {
    assert_eq!(tokenize("  foo \tbar\nbaz  "), words(&["foo", "bar", "baz"]));
}

#[test]
fn blank_line_has_no_words() {
    assert_eq!(tokenize(""), words(&[]));
    assert_eq!(tokenize("   \t "), words(&[]));
}

#[test]
fn mixed_quoting_in_one_word() {
    assert_eq!(tokenize("'it'\\''s'"), words(&["it's"]));
    assert_eq!(tokenize("a\"b c\"'d e'f"), words(&["ab cd ef"]));
}

#[test]
fn single_quotes_keep_backslashes() {
    assert_eq!(tokenize("'a\\nb'"), words(&["a\\nb"]));
}

#[test]
fn double_quote_escapes() {
    assert_eq!(tokenize("\"\\\" \\\\ \\` \\$ \\n\""), words(&["\" \\ ` $ \\n"]));
}

#[test]
fn unquoted_backslash_escapes_next_char() {
    assert_eq!(tokenize("a\\ b c"), words(&["a b", "c"]));
    assert_eq!(tokenize("foo\\\nbar"), words(&["foobar"]));
}

#[test]
fn empty_quotes_make_an_empty_word() {
    assert_eq!(tokenize("'' \"\""), words(&["", ""]));
}

#[test]
fn unterminated_quoting_is_none() {
    assert_eq!(tokenize("'abc"), None);
    assert_eq!(tokenize("\"abc"), None);
    assert_eq!(tokenize("abc\\"), None);
}
