use sh_inline::arg::{render_argument, CommandArg};
use sh_inline::process::{build_descriptor, classify_exit, ExecOutcome, Platform};
use sh_inline::script::{parse_script, ParseError, ScriptSpec};

fn strings(v: &[&str]) -> Vec<String> {
    v.iter().map(|s| s.to_string()).collect()
}

fn parse_ok(text: &str) -> ScriptSpec {
    match parse_script(text) {
        Ok(s) => s,
        Err(e) => panic!("parse of {:?} failed: {:?}", text, e),
    }
}

fn parse_err(text: &str) -> ParseError {
    match parse_script(text) {
        Ok(s) => panic!("parse of {:?} gave binary {:?}", text, s.binary),
        Err(e) => e,
    }
}

#[test]
fn single_command() {
    let s = parse_ok("exit 42");
    assert_eq!(s.binary, "exit");
    assert_eq!(s.args, strings(&["42"]));
    assert!(s.env.is_empty());
    assert_eq!(s.cd, None);
}

#[test]
fn cd_export_and_command() {
    let s = parse_ok("cd /tmp\nexport A=hello\necho $A");
    assert_eq!(s.cd, Some("/tmp".to_string()));
    assert_eq!(s.env, vec![("A".to_string(), "hello".to_string())]);
    assert_eq!(s.binary, "echo");
    assert_eq!(s.args, strings(&["$A"]));
}

#[test]
fn leading_blank_lines_and_exports_without_cd() {
    let s = parse_ok("\n  \nexport X=1\n\nexport Y=\"b c\"\nls -l");
    assert_eq!(s.cd, None);
    assert_eq!(
        s.env,
        vec![("X".to_string(), "1".to_string()), ("Y".to_string(), "b c".to_string())]
    );
    assert_eq!(parse_err("export Y=a=b\nls"), ParseError::ExportSyntax);
    assert_eq!(s.binary, "ls");
    assert_eq!(s.args, strings(&["-l"]));
}

#[test]
fn export_value_may_be_empty() {
    let s = parse_ok("export A=\ntrue");
    assert_eq!(s.env, vec![("A".to_string(), String::new())]);
}

#[test]
fn cd_after_export_is_rejected() {
    assert_eq!(parse_err("export A=1\ncd /tmp\necho"), ParseError::CdNotFirst);
    assert_eq!(parse_err("cd /a\ncd /b\necho"), ParseError::CdNotFirst);
    assert_eq!(parse_err("export A=1\n\n\n\ncd /tmp"), ParseError::CdNotFirst);
}

#[test]
fn cd_without_command_is_rejected() {
    assert_eq!(parse_err("cd /tmp"), ParseError::NoCommand);
    assert_eq!(parse_err("cd /tmp\nexport A=1\n\n"), ParseError::NoCommand);
    assert_eq!(parse_err(""), ParseError::NoCommand);
    assert_eq!(parse_err("  \n\t\n"), ParseError::NoCommand);
    assert_eq!(parse_err("''"), ParseError::NoCommand);
}

#[test]
fn cd_argument_count() {
    assert_eq!(parse_err("cd\necho"), ParseError::CdArgCount);
    assert_eq!(parse_err("cd /a /b\necho"), ParseError::CdArgCount);
}

#[test]
fn export_validation() {
    assert_eq!(parse_err("export FOO\necho"), ParseError::ExportSyntax);
    assert_eq!(parse_err("export =x\necho"), ParseError::ExportSyntax);
    assert_eq!(parse_err("export FOO=1 BAR=2\necho"), ParseError::ExportArgCount);
    assert_eq!(parse_err("export\necho"), ParseError::ExportArgCount);
}

#[test]
fn continuation_lines_collapse() {
    let s = parse_ok("echo foo \\\nbar");
    assert_eq!(s.binary, "echo");
    assert_eq!(s.args, strings(&["foo", "bar"]));
}

#[test]
fn multi_line_body_is_kept() {
    let s = parse_ok("printf 'a\n\nb' c\n\nd");
    assert_eq!(s.binary, "printf");
    assert_eq!(s.args, strings(&["a\n\nb", "c", "d"]));
}

#[test]
fn cd_inside_body_is_part_of_command() {
    let s = parse_ok("echo a\ncd /tmp");
    assert_eq!(s.binary, "echo");
    assert_eq!(s.args, strings(&["a", "cd", "/tmp"]));
}

#[test]
fn unterminated_body_is_rejected() {
    assert_eq!(parse_err("echo 'abc"), ParseError::Tokenize);
}

#[test]
fn interpolated_list_stays_separate_words() {
    let args = render_argument(&CommandArg::List(strings(&["-V"])));
    let s = parse_ok(&format!("rustc {}", args));
    assert_eq!(s.binary, "rustc");
    assert_eq!(s.args, strings(&["-V"]));
}

#[test]
fn interpolated_empty_adds_no_word() {
    let text = format!("echo {}end", render_argument(&CommandArg::Empty));
    assert_eq!(text, "echo end");
    let s = parse_ok(&text);
    assert_eq!(s.binary, "echo");
    assert_eq!(s.args, strings(&["end"]));
}

#[test]
fn posix_descriptor_runs_binary_directly() {
    let s = parse_ok("cd /tmp\nexport A=hello\necho $A x");
    let d = build_descriptor(s, "/tmp".to_string(), Platform::Posix);
    assert_eq!(d.workdir, "/tmp");
    assert_eq!(d.program, "echo");
    assert_eq!(d.args, strings(&["$A", "x"]));
    assert_eq!(d.env, vec![("A".to_string(), "hello".to_string())]);
}

#[test]
fn windows_descriptor_goes_through_cmd() {
    let s = parse_ok("cd C:\\\\work\nbin\\\\tool.exe a b");
    assert_eq!(s.cd, Some("C:\\work".to_string()));
    let d = build_descriptor(s, "\\\\?\\C:\\work".to_string(), Platform::Windows);
    assert_eq!(d.workdir, "C:\\work");
    assert_eq!(d.program, "cmd");
    assert_eq!(d.args, strings(&["/C", "C:\\work\\bin\\tool.exe a b"]));
}

#[test]
fn windows_descriptor_keeps_plain_binary() {
    let s = parse_ok("dir /w");
    let d = build_descriptor(s, "C:\\here".to_string(), Platform::Windows);
    assert_eq!(d.workdir, "C:\\here");
    assert_eq!(d.args, strings(&["/C", "dir /w"]));
    let s = parse_ok("cd D:\\\\x\nC:\\\\bin\\\\t.exe");
    let d = build_descriptor(s, "D:\\x".to_string(), Platform::Windows);
    assert_eq!(d.args, strings(&["/C", "C:\\bin\\t.exe"]));
}

#[test]
fn exit_codes_are_classified() {
    assert_eq!(classify_exit(Some(42)), ExecOutcome::NonZeroExit(42));
    assert_eq!(classify_exit(Some(0)), ExecOutcome::Success);
    assert_eq!(classify_exit(None), ExecOutcome::Interrupted);
}
