//! Short forms for the terminal, and the host that a command leads to.
use aish_shell::accounts::{account_label, unique_account_name, Account};
use aish_shell::display::{collapse_output, format_user_submitted_line};
use aish_shell::remote::extract_remote_host;

#[test]
fn submitted_line_includes_prompt_and_command() {
    let line = format_user_submitted_line("◆ aish ", "/help");
    assert_eq!(line, "◆ aish /help");
}

#[test]
fn test_collapse_output_short() {
    let output = "line1\nline2\nline3";
    let result = collapse_output(output, None, 20, 5);
    assert_eq!(result, output);
}

#[test]
fn test_collapse_output_long() {
    let lines: Vec<String> = (0..30).map(|i| format!("line {}", i)).collect();
    let output = lines.join("\n");
    let result = collapse_output(&output, None, 20, 5);
    assert!(result.contains("line 0"));
    assert!(result.contains("line 29"));
    assert!(result.contains("truncated"));
    assert!(!result.contains("line 10"));
}

#[test]
fn test_collapse_output_with_offload() {
    let lines: Vec<String> = (0..30).map(|i| format!("line {}", i)).collect();
    let output = lines.join("\n");
    let result = collapse_output(&output, Some("/tmp/offload.raw"), 20, 5);
    assert!(result.contains("/tmp/offload.raw"));
}

// Regression: ssh -q is the quiet flag (no argument). Treating -q as an
// option-with-arg caused `ssh -q host` to skip `host` and return None,
// disabling the [ssh:host] banner and remote PS1 marker.
#[test]
fn ssh_quiet_flag_does_not_consume_host() {
    assert_eq!(
        extract_remote_host("ssh -q 10.10.17.243"),
        Some("10.10.17.243".to_string())
    );
    assert_eq!(
        extract_remote_host("ssh -q user@host"),
        Some("user@host".to_string())
    );
}

#[test]
fn ssh_port_option_still_consumes_argument() {
    assert_eq!(
        extract_remote_host("ssh -p 2222 user@host"),
        Some("user@host".to_string())
    );
}

#[test]
fn ssh_flags_and_argument_options_parse_host() {
    // -K (GSSAPI auth) is a flag — host must be found, not consumed.
    assert_eq!(
        extract_remote_host("ssh -K root@host uptime"),
        Some("root@host".to_string())
    );
    // -Q takes a query_option argument.
    assert_eq!(
        extract_remote_host("ssh -Q cipher root@host"),
        Some("root@host".to_string())
    );
    // -D (dynamic forward) takes a port argument.
    assert_eq!(
        extract_remote_host("ssh -D 1080 root@host"),
        Some("root@host".to_string())
    );
}

#[test]
fn account_label_extracts_dotted_host() {
    assert_eq!(
        account_label("https://api.openai.com/v1", "gpt-4"),
        "api.openai.com"
    );
}

#[test]
fn account_label_falls_back_to_model_for_non_fqdn_or_garbage() {
    // No dot in host → not a usable label.
    assert_eq!(account_label("http://localhost:8080", "llama"), "llama");
    // No scheme/host → model fallback.
    assert_eq!(account_label("not-a-url", "my-model"), "my-model");
    assert_eq!(account_label("", "my-model"), "my-model");
}

#[test]
fn unique_account_name_appends_suffix_only_on_collision() {
    let existing = Account {
        name: "api.openai.com".into(),
        api_key: "k".into(),
        api_base: None,
        model: None,
        weight: 1,
        disabled: false,
    };
    let accts = vec![existing];
    assert_eq!(unique_account_name(&accts, "free"), "free");
    assert_eq!(
        unique_account_name(&accts, "api.openai.com"),
        "api.openai.com-2"
    );
}
