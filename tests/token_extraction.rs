use shaper_shell::commands::{
    greet, ACTIVE_INTERFACE_COMMAND, SHELL, TERMINAL_PROGRAM, WONDERSHAPER_VERSION_COMMAND,
};
use shaper_shell::output::CapturedOutput;
use shaper_shell::token::last_token_or_unknown;

fn ran(success: bool, stdout: &[u8]) -> CapturedOutput {
    CapturedOutput { success, stdout: stdout.to_vec() }
}

#[test]
fn failed_run_is_unknown() {
    assert_eq!(ran(false, b"tool version 1.2.3\n").last_token(), "unknown");
    assert_eq!(ran(false, b"").last_token(), "unknown");
}

#[test]
fn failed_run_has_empty_working_text() {
    assert_eq!(ran(false, b"eth0\n").working_text(), "");
}

#[test]
fn empty_output_is_unknown() {
    assert_eq!(ran(true, b"").last_token(), "unknown");
}

#[test]
fn whitespace_only_output_is_unknown() {
    assert_eq!(ran(true, b"  \n\t \r\n").last_token(), "unknown");
    assert_eq!(last_token_or_unknown(""), "unknown");
    assert_eq!(last_token_or_unknown(" \u{A0}\u{3000}\n"), "unknown");
}

#[test]
fn version_line_gives_version() {
    assert_eq!(ran(true, b"tool version 1.2.3").last_token(), "1.2.3");
    assert_eq!(ran(true, b"tool version 1.2.3\n").last_token(), "1.2.3");
}

#[test]
fn interface_pipeline_output_gives_device() {
    assert_eq!(ran(true, b"eth0\n").last_token(), "eth0");
    assert!(ACTIVE_INTERFACE_COMMAND.ends_with("cut -d: -f1"));
}

#[test]
fn invalid_utf8_is_unknown() {
    assert_eq!(ran(true, &[0x41, 0xff, 0x42]).last_token(), "unknown");
    assert_eq!(ran(true, &[0x41, 0xff, 0x42]).working_text(), "");
}

#[test]
fn working_text_decodes_utf8() {
    assert_eq!(ran(true, b"hi there").working_text(), "hi there");
    assert_eq!(ran(true, "версия 2.0".as_bytes()).working_text(), "версия 2.0");
}

#[test]
fn non_ascii_output_is_split_on_unicode_whitespace() {
    assert_eq!(ran(true, "версия 2.0\n".as_bytes()).last_token(), "2.0");
    assert_eq!(last_token_or_unknown("a\u{A0}b"), "b");
    assert_eq!(last_token_or_unknown("x\u{3000}yé"), "yé");
}

#[test]
fn single_token_is_returned_whole() {
    assert_eq!(last_token_or_unknown("eth0"), "eth0");
    assert_eq!(last_token_or_unknown("  eth0  "), "eth0");
    assert_eq!(last_token_or_unknown("eth0:connected"), "eth0:connected");
}

#[test]
fn last_of_many_lines() {
    assert_eq!(last_token_or_unknown("a b\nc  d\t\te\n\n"), "e");
}

#[test]
fn interleaved_runs_do_not_affect_each_other() {
    let a = ran(true, b"tool version 1.2.3\n");
    let b = ran(true, b"wlan0\n");
    let first_a = a.clone().last_token();
    let first_b = b.clone().last_token();
    let second_a = a.clone().last_token();
    let second_b = b.last_token();
    assert_eq!(first_a, "1.2.3");
    assert_eq!(first_b, "wlan0");
    assert_eq!(second_a, first_a);
    assert_eq!(second_b, first_b);
}

#[test]
fn greeting_text() {
    assert_eq!(greet("Tauri"), "Hello, Tauri! You've been greeted from Rust!");
    assert_eq!(greet(""), "Hello, ! You've been greeted from Rust!");
}

#[test]
fn command_lines() {
    assert_eq!(SHELL, "sh");
    assert_eq!(WONDERSHAPER_VERSION_COMMAND, "wondershaper -v");
    assert_eq!(TERMINAL_PROGRAM, "konsole");
}
