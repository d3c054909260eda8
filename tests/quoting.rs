use sh_inline::arg::{command_arg, path_arg, render_argument, CommandArg};
use sh_inline::ansi::bash_binary_quote;
use sh_inline::lexer::tokenize;

fn words(v: &[&str]) -> Vec<String> {
    v.iter().map(|s| s.to_string()).collect()
}

fn render_literal(s: &str) -> String {
    render_argument(&CommandArg::Literal(s.to_string()))
}

#[test]
fn literal_round_trips_through_tokenizer() {
    let cases = [
        "",
        "plain",
        "with space",
        "it's",
        "say \"hi\"",
        "$HOME",
        "`id`",
        "line\nbreak",
        "-leading-dash",
        "back\\slash",
        "tab\there",
        "a;b|c&d>e<f(g)h*i?j[k#l~m=n%o",
        "\u{e9}t\u{e9} \u{2603}",
    ];
    for s in cases.iter() {
        let r = render_literal(s);
        assert_eq!(tokenize(&r), Some(vec![s.to_string()]), "rendered {:?}", r);
    }
}

#[test]
fn literal_exact_forms() {
    assert_eq!(render_literal(""), "\"\"");
    assert_eq!(render_literal("foobar"), "foobar");
    assert_eq!(render_literal("/no/such/path"), "/no/such/path");
    assert_eq!(render_literal("foo bar"), "\"foo bar\"");
    assert_eq!(render_literal("a$b`c\"d\\e"), "\"a\\$b\\`c\\\"d\\\\e\"");
    assert_eq!(render_literal("it's"), "\"it's\"");
}

#[test]
fn raw_is_emitted_unchanged() {
    assert_eq!(render_argument(&CommandArg::Raw("$'\\x00'".to_string())), "$'\\x00'");
}

#[test]
fn list_round_trips_as_separate_words() {
    let list = words(&["a", "b c", "", "d'e"]);
    let r = render_argument(&CommandArg::List(list.clone()));
    assert_eq!(r, "a \"b c\" \"\" \"d'e\"");
    assert_eq!(tokenize(&r), Some(list));
    let abc = words(&["a", "b", "c"]);
    let r = render_argument(&CommandArg::List(abc.clone()));
    assert_eq!(r, "a b c");
    assert_eq!(tokenize(&r), Some(abc));
}

#[test]
fn empty_list_and_empty_value_render_nothing() {
    let r = render_argument(&CommandArg::List(vec![]));
    assert_eq!(r, "");
    assert_eq!(tokenize(&r), Some(vec![]));
    assert_eq!(render_argument(&CommandArg::Empty), "");
}

#[test]
fn binary_path_renders_as_ansi_c_literal() {
    let bytes = [0x21u8, 0x00, 0xFF, 0x22, 0x61];
    match path_arg(&bytes) {
        CommandArg::Raw(s) => assert_eq!(s, "$'!\\x00\\xff\\\"a'"),
        _ => panic!("expected a raw value"),
    }
}

#[test]
fn text_path_is_a_literal() {
    match path_arg(b"/no/such/path") {
        CommandArg::Literal(s) => assert_eq!(s, "/no/such/path"),
        _ => panic!("expected a literal"),
    }
}

#[test]
fn ansi_c_escapes_each_byte() {
    assert_eq!(bash_binary_quote(b""), "$''");
    assert_eq!(bash_binary_quote(b"a b"), "$'a b'");
    assert_eq!(bash_binary_quote(b"\t\r\n'\"\\"), "$'\\t\\r\\n\\'\\\"\\\\'");
    assert_eq!(bash_binary_quote(&[0x01, 0x7f, 0x80, 0x9d]), "$'\\x01\\x7f\\x80\\x9d'");
}

fn literal_text(a: CommandArg) -> String {
    match a {
        CommandArg::Literal(s) => s,
        _ => panic!("expected a literal"),
    }
}

#[test]
fn scalars_become_literals() {
    assert_eq!(literal_text(command_arg(&"foo")), "foo");
    assert_eq!(literal_text(command_arg(&"baz".to_string())), "baz");
    assert_eq!(literal_text(command_arg(&42u64)), "42");
    assert_eq!(literal_text(command_arg(&0u32)), "0");
    assert_eq!(literal_text(command_arg(&42i32)), "42");
    assert_eq!(literal_text(command_arg(&-7i32)), "-7");
    assert_eq!(literal_text(command_arg(&u64::MAX)), "18446744073709551615");
    assert_eq!(literal_text(command_arg(&i64::MIN)), "-9223372036854775808");
}

#[test]
fn optional_values() {
    assert_eq!(literal_text(command_arg(&Some(42u32))), "42");
    assert_eq!(literal_text(command_arg(&Some("ostr"))), "ostr");
    assert!(matches!(command_arg(&None::<u32>), CommandArg::Empty));
    assert!(matches!(command_arg(&None::<&str>), CommandArg::Empty));
    let joined = format!(
        "{}{}{}{}",
        render_argument(&command_arg(&Some(42u32))),
        render_argument(&command_arg(&None::<u32>)),
        render_argument(&command_arg(&Some("ostr"))),
        render_argument(&command_arg(&None::<&str>)),
    );
    assert_eq!(joined, "42ostr");
}

#[test]
fn vectors_become_lists() {
    match command_arg(&vec![1i64, -2, 30]) {
        CommandArg::List(v) => assert_eq!(v, words(&["1", "-2", "30"])),
        _ => panic!("expected a list"),
    }
    match command_arg(&vec!["-V"]) {
        CommandArg::List(v) => assert_eq!(v, words(&["-V"])),
        _ => panic!("expected a list"),
    }
}
