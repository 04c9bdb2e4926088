use atc::shell_text::{shell_display_arg, show_quoted};
use atc::terminal_text::{display_text, is_control_char, is_dangerous_format_control, terminal_safe_json};

#[test]
fn display_text_escapes_terminal_control_sequences() {
    let value = "task\x1b[31mred\x1b[0m\r\n\t\x07\u{9b}done";
    let escaped = display_text(value);
    assert_eq!(escaped, "task\\x1b[31mred\\x1b[0m\\r\\n\\t\\x07\\x9bdone");
    assert!(!escaped.contains('\x1b'));
    assert!(!escaped.contains('\x07'));
    assert!(!escaped.contains('\u{9b}'));
}

#[test]
fn display_text_escapes_bidi_and_invisible_format_controls() {
    let value = "safe\u{202e}gpj.exe\u{2066}visible\u{2069}\u{200b}";
    let escaped = display_text(value);
    assert_eq!(
        escaped,
        "safe\\u{202e}gpj.exe\\u{2066}visible\\u{2069}\\u{200b}"
    );
    assert!(!escaped.contains('\u{202e}'));
    assert!(!escaped.contains('\u{2066}'));
    assert!(!escaped.contains('\u{2069}'));
    assert!(!escaped.contains('\u{200b}'));
}

#[test]
fn display_text_keeps_plain_text() {
    assert_eq!(display_text("plain \\ text \u{e9}"), "plain \\ text \u{e9}");
    assert_eq!(display_text(""), "");
}

#[test]
fn controls_are_recognised() {
    assert!(is_control_char('\x7f'));
    assert!(is_control_char('\u{80}'));
    assert!(!is_control_char('a'));
    assert!(is_dangerous_format_control('\u{feff}'));
    assert!(!is_dangerous_format_control('a'));
}

#[test]
fn json_is_made_safe_for_terminals() {
    let safe = terminal_safe_json("{\"a\":\"\u{202e}x\u{9b}\"}");
    assert_eq!(safe, "{\"a\":\"\\u202ex\\u009b\"}");
    assert_eq!(terminal_safe_json("{\"a\":1}"), "{\"a\":1}");
}

#[test]
fn shell_display_arg_shell_quotes_special_characters() {
    let value = "tasks/foo; rm -rf /";
    let quoted = shell_display_arg(value);
    assert_ne!(quoted, value);
    assert!(quoted.contains("rm -rf"));
}

#[test]
fn shell_display_arg_escapes_terminal_controls_after_quoting() {
    let quoted = shell_display_arg("tasks/foo\x1b[31m\u{202e}");
    assert!(quoted.contains("\\x1b"));
    assert!(quoted.contains("\\u{202e}"));
    assert!(!quoted.contains('\x1b'));
    assert!(!quoted.contains('\u{202e}'));
}

#[test]
fn shell_display_arg_marks_values_that_cannot_be_shell_arguments() {
    assert_eq!(shell_display_arg("tasks/foo\0bar"), "<unrepresentable>");
}

#[test]
fn quoted_arguments_are_escaped() {
    assert_eq!(show_quoted(Some("'a\nb'".to_string())), "'a\\nb'");
    assert_eq!(show_quoted(None), "<unrepresentable>");
}
