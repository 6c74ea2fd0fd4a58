//! Reading what the model answers: corrections, diagnoses, and facts worth keeping.
use aish_shell::correction::parse_error_correction_response;
use aish_shell::diagnose::{
    is_auto_executable_suggested_fix, parse_diagnose_report_response, should_offer_confirm_execute,
    summarize_verification_conclusion, DiagnoseConfidence, DiagnoseParseOutcome,
    FailureDiagnoseConclusion, VerifyOutcome, VerifyStepResult,
};
use aish_shell::memory::{
    categorize_fact, extract_keywords, extract_retainable_facts, MemoryCategory,
};

#[test]
fn test_parse_json_code_block() {
    let response = r#"```json
{"type": "corrected_command", "command": "ls -la", "description": "Added -la flag"}
```"#;
    let result = parse_error_correction_response(response);
    assert_eq!(result.command, Some("ls -la".to_string()));
    assert_eq!(result.description, Some("Added -la flag".to_string()));
}

#[test]
fn test_parse_multiline_json_code_block() {
    let response = r#"```json
{
  "type": "corrected_command",
  "command": "ls -la",
  "description": "Added -la flag for detailed listing"
}
```"#;
    let result = parse_error_correction_response(response);
    assert_eq!(result.command, Some("ls -la".to_string()));
    assert_eq!(
        result.description,
        Some("Added -la flag for detailed listing".to_string())
    );
}

#[test]
fn test_parse_json_with_braces_in_value() {
    let response = r#"```json
{
  "type": "corrected_command",
  "command": "echo ${HOME}",
  "description": "Variable expansion fix"
}
```"#;
    let result = parse_error_correction_response(response);
    assert_eq!(result.command, Some("echo ${HOME}".to_string()));
    assert_eq!(
        result.description,
        Some("Variable expansion fix".to_string())
    );
}

#[test]
fn test_parse_json_bare() {
    let response =
        r#"{"type": "corrected_command", "command": "ls -la", "description": "fix"}"#;
    let result = parse_error_correction_response(response);
    assert_eq!(result.command, Some("ls -la".to_string()));
}

#[test]
fn test_parse_json_empty_command() {
    let response = r#"```json
{"type": "corrected_command", "command": "", "description": "No fix available"}
```"#;
    let result = parse_error_correction_response(response);
    assert_eq!(result.command, None);
    assert_eq!(result.description, Some("No fix available".to_string()));
}

#[test]
fn test_parse_fallback_bash_block() {
    let response = "Here is the fix:\n```bash\nls -la\n```\nTry that.";
    let result = parse_error_correction_response(response);
    assert_eq!(result.command, Some("ls -la".to_string()));
    assert_eq!(result.description, None);
}

#[test]
fn test_parse_fallback_zsh_block() {
    let response = "```zsh\necho hello\n```";
    let result = parse_error_correction_response(response);
    assert_eq!(result.command, Some("echo hello".to_string()));
}

#[test]
fn test_parse_none() {
    let response = "I don't see a command to fix here.";
    let result = parse_error_correction_response(response);
    assert_eq!(result.command, None);
    assert_eq!(result.description, None);
}

#[test]
fn test_categorize_preference() {
    assert!(matches!(
        categorize_fact("user prefers dark theme"),
        MemoryCategory::Preference
    ));
    assert!(matches!(
        categorize_fact("I always use vim"),
        MemoryCategory::Preference
    ));
}

#[test]
fn test_categorize_environment() {
    assert!(matches!(
        categorize_fact("database port is 5432"),
        MemoryCategory::Environment
    ));
    assert!(matches!(
        categorize_fact("API endpoint at /v1/chat"),
        MemoryCategory::Environment
    ));
}

#[test]
fn test_categorize_solution() {
    assert!(matches!(
        categorize_fact("fixed the connection error by restarting"),
        MemoryCategory::Solution
    ));
}

#[test]
fn test_categorize_pattern() {
    assert!(matches!(
        categorize_fact("follow the convention of using snake_case"),
        MemoryCategory::Pattern
    ));
}

#[test]
fn test_categorize_other() {
    assert!(matches!(
        categorize_fact("the weather is nice today"),
        MemoryCategory::Other
    ));
}

#[test]
fn classes_have_an_order() {
    let class = categorize_fact;
    assert_eq!(class("I prefer the server port and a workaround"), MemoryCategory::Preference);
    assert_eq!(class("server bug, see the style rule"), MemoryCategory::Environment);
    assert_eq!(class("a bug against the style"), MemoryCategory::Solution);
    assert_eq!(class("house style"), MemoryCategory::Pattern);
    for fact in ["I PREFER vim", "The PORT is 1", "FIXED it", "Our STYLE", "Nice day"] {
        assert_eq!(class(fact), class(&fact.to_lowercase()));
    }
}

#[test]
fn test_extract_keywords_basic() {
    let keywords = extract_keywords("How do I configure the database connection?");
    assert!(!keywords.is_empty());
    assert!(keywords.contains(&"configure".to_string()));
    assert!(keywords.contains(&"database".to_string()));
    assert!(keywords.contains(&"connection".to_string()));
    assert!(!keywords.contains(&"how".to_string()));
    assert!(!keywords.contains(&"do".to_string()));
}

#[test]
fn test_extract_keywords_short() {
    let keywords = extract_keywords("ls");
    // Single char words (len < 2) are filtered out
    assert!(keywords.is_empty() || keywords.contains(&"ls".to_string()));
}

#[test]
fn test_extract_keywords_dedup() {
    let keywords = extract_keywords("test test test");
    // Should deduplicate
    let count = keywords.iter().filter(|k| *k == "test").count();
    assert!(count <= 1);
}

#[test]
fn test_extract_retainable_facts_preference() {
    let facts = extract_retainable_facts("I prefer dark mode for all editors");
    assert!(!facts.is_empty());
    assert!(facts[0].contains("dark mode"));
}

#[test]
fn test_extract_retainable_facts_remember() {
    let facts = extract_retainable_facts("Please remember that the API key expires in June");
    assert!(!facts.is_empty());
    assert!(facts[0].contains("API key"));
}

#[test]
fn test_extract_retainable_facts_none() {
    let facts = extract_retainable_facts("What is the weather today?");
    assert!(facts.is_empty());
}

#[test]
fn test_extract_retainable_facts_environment() {
    let facts = extract_retainable_facts("the database port is 5432");
    assert!(!facts.is_empty());
}

#[test]
fn test_parse_diagnose_report_json() {
    let response = r#"```json
{
  "type": "diagnose_report",
  "root_cause": "command not found",
  "evidence": ["which foo returned empty"],
  "suggested_fix": "sudo apt install foo",
  "verify_commands": ["which foo"],
  "confidence": "high"
}
```"#;
    let parsed = parse_diagnose_report_response(response);
    assert_eq!(parsed.outcome, DiagnoseParseOutcome::Structured);
    assert_eq!(parsed.report.root_cause, "command not found");
    assert_eq!(parsed.report.evidence.len(), 1);
    assert_eq!(
        parsed.report.suggested_fix.as_deref(),
        Some("sudo apt install foo")
    );
    assert_eq!(parsed.report.confidence, DiagnoseConfidence::High);
}

#[test]
fn test_parse_diagnose_report_empty_evidence_accepted() {
    let response = r#"{"type":"diagnose_report","root_cause":"x","evidence":[]}"#;
    let parsed = parse_diagnose_report_response(response);
    assert_eq!(parsed.outcome, DiagnoseParseOutcome::Structured);
    assert_eq!(parsed.report.root_cause, "x");
    assert!(parsed.report.evidence.is_empty());
}

#[test]
fn test_parse_diagnose_report_without_type_field() {
    let response = r#"{"root_cause":"service inactive","evidence":["systemctl status"]}"#;
    let parsed = parse_diagnose_report_response(response);
    assert_eq!(parsed.outcome, DiagnoseParseOutcome::Structured);
    assert_eq!(parsed.report.root_cause, "service inactive");
}

#[test]
fn test_parse_diagnose_report_from_answer_wrapper() {
    let response =
        r#"{"answer":"{\"root_cause\":\"missing binary\",\"evidence\":[\"which missing\"]}"}"#;
    let parsed = parse_diagnose_report_response(response);
    assert_eq!(parsed.outcome, DiagnoseParseOutcome::Structured);
    assert_eq!(parsed.report.root_cause, "missing binary");
}

#[test]
fn test_parse_diagnose_report_malformed_json_is_format_error() {
    let response = r#"{"type":"diagnose_report","root_cause":"","evidence":["x"]}"#;
    let parsed = parse_diagnose_report_response(response);
    assert_eq!(parsed.outcome, DiagnoseParseOutcome::FormatError);
}

#[test]
fn test_parse_diagnose_report_prose_fallback() {
    let response = "The command failed because foo is not installed.";
    let parsed = parse_diagnose_report_response(response);
    assert_eq!(parsed.outcome, DiagnoseParseOutcome::ProseFallback);
    assert_eq!(parsed.report.root_cause, response);
}

#[test]
fn test_is_auto_executable_suggested_fix_accepts_single_command() {
    assert!(is_auto_executable_suggested_fix("sudo apt install foo"));
    assert!(is_auto_executable_suggested_fix(
        "sed -i \"s/#alias ll=/alias ll=/\" ~/.bashrc && source ~/.bashrc"
    ));
    assert!(is_auto_executable_suggested_fix("alias ll='ls -l'"));
}

#[test]
fn test_is_auto_executable_suggested_fix_rejects_menus_and_prose() {
    assert!(!is_auto_executable_suggested_fix(""));
    assert!(!is_auto_executable_suggested_fix("line1\nline2"));
    assert!(!is_auto_executable_suggested_fix(
        "执行以下命令之一：1. 临时启用 alias ll='ls -l' 2. 永久取消注释 ~/.bashrc"
    ));
    assert!(!is_auto_executable_suggested_fix(
        "1. 临时: alias ll='ls -l'；2. 永久: edit bashrc"
    ));
    assert!(!is_auto_executable_suggested_fix(
        "Choose one of: apt install foo or yum install foo"
    ));
    assert!(!is_auto_executable_suggested_fix(
        "Temporary: alias ll='ls -l'; permanent: uncomment in bashrc"
    ));
}

#[test]
fn test_should_offer_confirm_execute_skips_when_has_alternatives() {
    let fix = "sed -i \"s/#alias ll='ls -l'/alias ll='ls -l'/\" ~/.bashrc && source ~/.bashrc";
    assert!(is_auto_executable_suggested_fix(fix));
    assert!(!should_offer_confirm_execute(Some(fix), true));
    assert!(should_offer_confirm_execute(
        Some("sudo apt install foo"),
        false
    ));
    assert!(!should_offer_confirm_execute(None, false));
}

#[test]
fn test_parse_diagnose_report_has_alternatives() {
    let response = r#"{"root_cause":"x","evidence":["y"],"has_alternatives":true}"#;
    let parsed = parse_diagnose_report_response(response);
    assert!(parsed.report.has_alternatives);
}

#[test]
fn test_summarize_verification_conclusion() {
    let fixed = summarize_verification_conclusion(&[VerifyStepResult {
        command: "true".into(),
        output: String::new(),
        exit_code: 0,
        outcome: VerifyOutcome::Passed,
        block_reason: None,
    }]);
    assert_eq!(fixed, FailureDiagnoseConclusion::Fixed);

    let partial = summarize_verification_conclusion(&[VerifyStepResult {
        command: "false".into(),
        output: String::new(),
        exit_code: 1,
        outcome: VerifyOutcome::Failed,
        block_reason: None,
    }]);
    assert_eq!(partial, FailureDiagnoseConclusion::PartialFailure);

    let unknown = summarize_verification_conclusion(&[VerifyStepResult {
        command: "rm x".into(),
        output: String::new(),
        exit_code: -1,
        outcome: VerifyOutcome::Blocked,
        block_reason: Some("blocked".into()),
    }]);
    assert_eq!(unknown, FailureDiagnoseConclusion::CannotDetermine);
}
