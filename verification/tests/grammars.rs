//! The small grammars of terminal text, held against regular expressions that say the same.
use aish_shell::remote::extract_failed_command;
use aish_shell::screen::{
    ai_call_prompt, cut_open_tag, is_ai_call_line, remove_tokens, sanitize_for_display,
    strip_tool_output_xml, Token,
};
use regex::Regex;

/// Every text of up to `len` pieces.
fn texts(pieces: &[&str], len: usize) -> Vec<String> {
    let mut all = vec![String::new()];
    let mut last = vec![String::new()];
    for _ in 0..len {
        let mut next = Vec::new();
        for t in &last {
            for p in pieces {
                next.push(format!("{t}{p}"));
            }
        }
        all.extend(next.iter().cloned());
        last = next;
    }
    all
}

#[test]
fn sanitizing_agrees_with_the_expression() {
    let re = Regex::new(
        r"\x1b\][^\x07\x1b]*(?:\x07|\x1b\\)|\x1b\[[0-9;?]*[A-Za-z]|\x1b[@-Z\\-_]|[\x00-\x08\x0b\x0c\x0e-\x1f\x7f]",
    )
    .unwrap();
    let pieces = ["\x1b", "[", "]", "\\", "\x07", "m", "0;", "?", "é", "\n"];
    for t in texts(&pieces, 4) {
        assert_eq!(sanitize_for_display(&t), re.replace_all(&t, ""), "{t:?}");
    }
}

#[test]
fn sanitizing_treats_every_ascii_character_alike() {
    let re = Regex::new(
        r"\x1b\][^\x07\x1b]*(?:\x07|\x1b\\)|\x1b\[[0-9;?]*[A-Za-z]|\x1b[@-Z\\-_]|[\x00-\x08\x0b\x0c\x0e-\x1f\x7f]",
    )
    .unwrap();
    for a in 0u8..=127 {
        for b in 0u8..=127 {
            let t = format!("x\x1b{}{}y", a as char, b as char);
            assert_eq!(sanitize_for_display(&t), re.replace_all(&t, ""), "{t:?}");
        }
    }
}

#[test]
fn colour_sequences_agree_with_the_expressions() {
    let any = Regex::new(r"\x1b\[[0-9;?]*[a-zA-Z]").unwrap();
    let plain = Regex::new(r"\x1b\[[0-9;]*[a-zA-Z]").unwrap();
    let pieces = ["\x1b", "[", "1", ";", "?", "m", "Z", "é", " "];
    for t in texts(&pieces, 4) {
        assert_eq!(remove_tokens(Token::AnySequence, &t), any.replace_all(&t, ""), "{t:?}");
        assert_eq!(remove_tokens(Token::PlainSequence, &t), plain.replace_all(&t, ""), "{t:?}");
    }
}

#[test]
fn tool_tags_agree_with_the_expressions() {
    let tag = Regex::new(r"</?(?:stdout|stderr|return_code|exit-code)/?>").unwrap();
    let open = Regex::new(r"<[^>]*$").unwrap();
    let pieces = ["<", "</", "stdout", "stderr", "return_code", "exit-code", "/>", ">", "a", "\n"];
    for t in texts(&pieces, 3) {
        assert_eq!(remove_tokens(Token::ToolTag, &t), tag.replace_all(&t, ""), "{t:?}");
        assert_eq!(cut_open_tag(&t), open.replace_all(&t, ""), "{t:?}");
    }
}

#[test]
fn prompt_lines_agree_with_the_expression() {
    let re = Regex::new(r#"^\s*ai\s+(?:"([^"']+)"|'([^"']+)')\s*$"#).unwrap();
    let pieces = ["ai", " ", "\t", "\"", "'", "x", "\n", "\u{a0}", "\u{3000}", "\u{200b}"];
    for t in texts(&pieces, 4) {
        assert_eq!(is_ai_call_line(&t), re.is_match(&t), "{t:?}");
        let prompt =
            re.captures(&t).map(|c| c.get(1).or(c.get(2)).unwrap().as_str().to_string());
        assert_eq!(ai_call_prompt(&t), prompt, "{t:?}");
    }
    for inner in ["\"x\"", "'x", "\"a b\" ", "\"a\u{3000}b'", "''", "\"it's\""] {
        let t = format!("ai {inner}");
        assert_eq!(is_ai_call_line(&t), re.is_match(&t), "{t:?}");
    }
}

#[test]
fn prompt_closes_as_it_opened() {
    assert!(!is_ai_call_line("ai \"hi'"));
    assert!(!is_ai_call_line("ai 'hi\""));
    assert_eq!(ai_call_prompt(" ai \"hi there\" ").as_deref(), Some("hi there"));
    assert_eq!(ai_call_prompt("ai 'hi'").as_deref(), Some("hi"));
}

#[test]
fn tool_output_is_stripped_in_order() {
    let metadata = Regex::new(
        r"(?ms)(?:^|\n)<(?:offload|return_code|exit-code)>\n.*?\n</(?:offload|return_code|exit-code)>\s*$",
    )
    .unwrap();
    let open = Regex::new(r"<[^>]*$").unwrap();
    let tag = Regex::new(r"</?(?:stdout|stderr|return_code|exit-code)/?>").unwrap();
    let pieces = [
        "<stdout>\n",
        "\n</stdout>\n",
        "<return_code>\n0\n</return_code>",
        "<offload>\n{\"a\":1}\n</offload>\n",
        "text",
        "\n\n",
        "<exit-c",
        " ",
    ];
    for t in texts(&pieces, 3) {
        let mut cleaned = t.trim().to_string();
        loop {
            let next = metadata.replace(&cleaned, "").to_string();
            if next == cleaned {
                break;
            }
            cleaned = next.trim_end().to_string();
        }
        let cleaned = open.replace_all(&cleaned, "").to_string();
        let cleaned = tag.replace_all(&cleaned, "").to_string();
        assert_eq!(strip_tool_output_xml(&t), cleaned.trim(), "{t:?}");
    }
}

#[test]
fn sanitized_text_is_harmless_and_stays_as_it_is() {
    let once = sanitize_for_display("a\x1b\x1b[31m[32mb\x00c\x1b]0;t\x1b\\d\x7f");
    assert!(once.chars().all(|c| c >= ' ' && c != '\x7f' || c == '\n' || c == '\r' || c == '\t'));
    assert_eq!(sanitize_for_display(&once), once);
    assert_eq!(sanitize_for_display("ls -la | grep é"), "ls -la | grep é");
}

#[test]
fn failed_command_is_read_off_the_prompt_line() {
    let out = "\x1b[32muser@host\x1b[0m:~$ gti status | cat\nbash: gti: command not found\n";
    assert_eq!(extract_failed_command(out), "gti status | cat");
}

#[test]
fn failed_command_is_read_off_the_error() {
    assert_eq!(extract_failed_command("bash: foo: command not found"), "foo");
    assert_eq!(extract_failed_command("bash: line 1: foo: command not found"), "foo");
    assert_eq!(extract_failed_command("sh: 1: foo: not found"), "foo");
    assert_eq!(extract_failed_command("bash: ./run.sh: Permission denied"), "./run.sh");
    assert_eq!(extract_failed_command("bash: ./run.sh: No such file or directory"), "./run.sh");
    assert_eq!(extract_failed_command("zsh: command not found: foo"), "foo");
    assert_eq!(extract_failed_command("fish: Unknown command: foo"), "foo");
    assert_eq!(extract_failed_command("bash: cd: /x: No such file or directory"), "cd");
    assert_eq!(extract_failed_command("bash: cd: /etc/hosts: Not a directory"), "cd");
    assert_eq!(extract_failed_command("-bash: /tmp: Is a directory"), "/tmp");
    assert_eq!(extract_failed_command("bash: line 12: cd: /x: Not a directory"), "cd");
    assert_eq!(extract_failed_command("csh: foo: Command not found."), "foo");
    assert_eq!(extract_failed_command("zsh: permission denied: ./run.sh"), "./run.sh");
    assert_eq!(extract_failed_command("zsh: no such file or directory: ./run.sh"), "./run.sh");
    assert_eq!(extract_failed_command("sh: 1: command not found"), "(remote command)");
    assert_eq!(extract_failed_command("bash: command not found"), "(remote command)");
    assert_eq!(extract_failed_command("all is well"), "(remote command)");
}
