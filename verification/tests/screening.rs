//! What may run and what may be shown: lines of scripts, control sequences, and keys that confirm.
use aish_shell::screen::{is_ai_call_line, sanitize_for_display, strip_tool_output_xml};
use aish_shell::shell::{interpret_confirm_byte, ConfirmResponse, InterruptionState, ShellPhase};

#[test]
fn rejects_command_substitution_form() {
    // `ai $(rm -rf /)` looks like an AI call
    // under a loose `starts_with("ai ")` check, but is a destructive
    // shell command. Must be rejected so InputGuard screens it.
    assert!(!is_ai_call_line("ai $(rm -rf /)"));
}

#[test]
fn rejects_unquoted_payload() {
    // No quotes → not a strict AI prompt → must screen.
    assert!(!is_ai_call_line("ai rm -rf /"));
}

#[test]
fn rejects_trailing_content_after_close_quote() {
    // `ai "x" ; rm -rf /` would be a two-statement attack if accepted
    // as an AI line. Must reject so the second statement is screened.
    assert!(!is_ai_call_line("ai \"x\" ; rm -rf /"));
}

#[test]
fn rejects_lookalike_commands() {
    // `aid` and `aim` are real shell commands, not AI prompts.
    assert!(!is_ai_call_line("aid --help"));
    assert!(!is_ai_call_line("aim commit"));
}

// --- Positive cases: legitimate strict-quoted AI prompts MUST be
//     recognized so they reach the LLM, not bash. ---

#[test]
fn accepts_double_quoted_prompt() {
    assert!(is_ai_call_line("ai \"summarize this\""));
}

#[test]
fn accepts_single_quoted_prompt() {
    assert!(is_ai_call_line("ai 'summarize this'"));
}

#[test]
fn accepts_leading_whitespace() {
    assert!(is_ai_call_line("   ai \"hi\""));
    assert!(is_ai_call_line("\tai \"hi\""));
}

#[test]
fn test_strip_tool_output_xml_removes_return_code_block() {
    let output = "<stdout>\nconfig.yaml\n</stdout>\n<return_code>\n0\n</return_code>";
    assert_eq!(strip_tool_output_xml(output), "config.yaml");
}

#[test]
fn test_strip_tool_output_xml_preserves_return_code_text_in_stdout() {
    let output = "<stdout>\nliteral <return_code>\n0\n</return_code> block\n</stdout>\n<return_code>\n0\n</return_code>";
    assert_eq!(strip_tool_output_xml(output), "literal \n0\n block");
}

#[test]
fn strips_csi_color_sequences() {
    assert_eq!(sanitize_for_display("\x1b[31mrm\x1b[0m /tmp"), "rm /tmp");
}

#[test]
fn strips_osc_clipboard_sequence() {
    // OSC 52 (clipboard) must not execute on display.
    assert_eq!(
        sanitize_for_display("\x1b]52;c;Zm1lbQ==\x07echo hi"),
        "echo hi"
    );
}

#[test]
fn preserves_common_whitespace_and_plain_text() {
    assert_eq!(sanitize_for_display("a\tb\nc\rd"), "a\tb\nc\rd");
    assert_eq!(
        sanitize_for_display("systemctl restart nginx"),
        "systemctl restart nginx"
    );
}

#[test]
fn test_shell_phase_display() {
    assert_eq!(ShellPhase::Booting.to_string(), "booting");
    assert_eq!(ShellPhase::Editing.to_string(), "editing");
    assert_eq!(ShellPhase::Running.to_string(), "running");
    assert_eq!(ShellPhase::Exiting.to_string(), "exiting");
}

#[test]
fn test_interruption_default() {
    assert_eq!(InterruptionState::default(), InterruptionState::Normal);
}

#[test]
fn test_phase_equality() {
    assert_eq!(ShellPhase::Booting, ShellPhase::Booting);
    assert_ne!(ShellPhase::Booting, ShellPhase::Editing);
}

#[test]
fn yes_lower_confirms() {
    assert_eq!(interpret_confirm_byte(b'y'), ConfirmResponse::Yes);
}

#[test]
fn yes_upper_confirms() {
    assert_eq!(interpret_confirm_byte(b'Y'), ConfirmResponse::Yes);
}

#[test]
fn no_rejects() {
    assert_eq!(interpret_confirm_byte(b'n'), ConfirmResponse::No);
}

#[test]
fn ctrl_c_cancels() {
    assert_eq!(interpret_confirm_byte(0x03), ConfirmResponse::Cancel);
}

#[test]
fn esc_cancels() {
    assert_eq!(interpret_confirm_byte(0x1b), ConfirmResponse::Cancel);
}

#[test]
fn enter_rejects() {
    // Default action is No: bare Enter must not confirm.
    assert_eq!(interpret_confirm_byte(b'\r'), ConfirmResponse::No);
    assert_eq!(interpret_confirm_byte(b'\n'), ConfirmResponse::No);
}

#[test]
fn arbitrary_byte_rejects() {
    assert_eq!(interpret_confirm_byte(b'x'), ConfirmResponse::No);
    assert_eq!(interpret_confirm_byte(b' '), ConfirmResponse::No);
}
