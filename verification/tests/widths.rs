//! Columns: how wide text stands, and lines of a fixed width.
use aish_shell::panel::{
    border, estimate_security_panel_lines, inner_width, panel_scroll, prompt_gap,
    security_panel_body, security_panel_wrap_width, terminal_columns,
};
use aish_shell::width::{
    ansi_display_width, char_width, panel_line, truncate_ansi_display_width, truncate_display_width, wrap_text,
};

#[test]
fn wide_characters_count_twice() {
    assert_eq!(ansi_display_width("abc"), 3);
    assert_eq!(ansi_display_width("思考"), 4);
    assert_eq!(ansi_display_width("\x1b[31m思\x1b[0m"), 2);
    assert_eq!(ansi_display_width("e\u{301}"), 1);
    assert_eq!(ansi_display_width("\t\u{7f}"), 0);
}

#[test]
fn plain_text_is_cut_with_dots() {
    assert_eq!(truncate_display_width("hello", 5), "hello");
    assert_eq!(truncate_display_width("hello!", 5), "he...");
    assert_eq!(truncate_display_width("hello", 3), "hel");
    assert_eq!(truncate_display_width("思考思考", 6), "思...");
    assert_eq!(truncate_display_width("思考思考", 5), "思...");
    assert_eq!(truncate_display_width("x", 0), "");
}

#[test]
fn coloured_text_is_cut_and_reset() {
    assert_eq!(truncate_ansi_display_width("\x1b[31mhi\x1b[0m", 2), "\x1b[31mhi\x1b[0m");
    assert_eq!(
        truncate_ansi_display_width("\x1b[31mhello world\x1b[0m", 8),
        "\x1b[31mhello...\x1b[0m"
    );
    assert_eq!(truncate_ansi_display_width("hello", 2), "he\x1b[0m");
    for max in 0..12 {
        let cut = truncate_ansi_display_width("\x1b[1m思考 long text\x1b[0m", max);
        assert!(ansi_display_width(&cut) <= max);
    }
}

#[test]
fn words_are_wrapped() {
    assert_eq!(wrap_text("one two three", 7), "one two\nthree");
    assert_eq!(wrap_text("  one   two ", 20), "one two");
    assert_eq!(wrap_text("a verylongword b", 4), "a\nverylongword\nb");
    assert_eq!(wrap_text("思考 思考", 4), "思考\n思考");
    assert_eq!(wrap_text("思考 思考", 9), "思考 思考");
    assert_eq!(wrap_text(" keep  as is", 0), " keep  as is");
    assert_eq!(wrap_text("", 5), "");
}

#[test]
fn panel_lines_are_exactly_as_wide_as_the_panel() {
    for text in ["", "short", "\x1b[1mbold\x1b[0m text", "思考 and a very long line of text indeed"] {
        for width in 0..30 {
            assert_eq!(ansi_display_width(&panel_line(text, width)), width, "{text:?} {width}");
        }
    }
    assert_eq!(panel_line("ab", 4), "ab  ");
}

#[test]
fn panel_widths() {
    assert_eq!(inner_width(80), 76);
    assert_eq!(inner_width(24), 20);
    assert_eq!(inner_width(3), 20);
    assert_eq!(security_panel_wrap_width(80), 66);
    assert_eq!(security_panel_wrap_width(14), 1);
    assert_eq!(security_panel_wrap_width(0), 1);
    assert_eq!(terminal_columns(Some("120"), Some(90)), 120);
    assert_eq!(terminal_columns(Some("wide"), Some(90)), 90);
    assert_eq!(terminal_columns(None, None), 80);
    assert_eq!(border('╭', '╮', 3), "╭───╮");
    assert_eq!(prompt_gap("choose", 20, false), 11);
    assert_eq!(prompt_gap("choose", 20, true), 10);
    assert_eq!(prompt_gap("choose", 5, true), 0);
}

#[test]
fn panel_body_has_as_many_lines_as_estimated() {
    let rows = vec![
        ("Command".to_string(), "rm -rf /tmp/x\necho done".to_string()),
        ("Reason".to_string(), "\x1b[31m\x1b[0m".to_string()),
        ("Long".to_string(), "word ".repeat(40)),
        ("Blank".to_string(), "a\n\nb".to_string()),
    ];
    for width in [1usize, 15, 20, 40, 80, 200] {
        let body = security_panel_body(&rows, width);
        assert_eq!(estimate_security_panel_lines(&rows, width, false), body.len() + 4);
        assert_eq!(estimate_security_panel_lines(&rows, width, true), body.len() + 8);
    }
    let body = security_panel_body(&rows, 80);
    let labels: Vec<Option<&str>> = body.iter().map(|r| r.label.as_deref()).collect();
    assert_eq!(
        labels[..4],
        [Some("Command"), None, Some("Reason"), Some("Long")]
    );
    assert_eq!(body[0].text, "rm -rf /tmp/x");
    assert_eq!(body[1].text, "echo done");
    assert_eq!(body[2].text, "");
}

#[test]
fn screen_scrolls_to_make_room() {
    assert_eq!(panel_scroll(10, 24, Some(0)), 0);
    assert_eq!(panel_scroll(10, 24, Some(14)), 0);
    assert_eq!(panel_scroll(10, 24, Some(20)), 6);
    assert_eq!(panel_scroll(100, 24, Some(23)), 23);
    assert_eq!(panel_scroll(10, 24, None), 10);
    assert_eq!(panel_scroll(10, 0, None), 0);
    for row in 0..24u16 {
        for lines in 0..=24usize {
            let scroll = panel_scroll(lines, 24, Some(row)) as usize;
            assert!((24 - row) as usize + scroll >= lines);
        }
    }
}

#[test]
fn control_characters_have_no_column() {
    assert_eq!(char_width('a'), 1);
    assert_eq!(char_width('思'), 2);
    assert_eq!(char_width('\u{301}'), 0);
    assert_eq!(char_width('\n'), 0);
    assert_eq!(char_width('\u{85}'), 0);
}

#[test]
fn wrapping_keeps_words_and_breaks_late() {
    let text = "the quick  brown fox\tjumps over averyveryverylongword and on";
    for max in 1..30usize {
        let wrapped = wrap_text(text, max);
        let words: Vec<&str> = wrapped.split_whitespace().collect();
        assert_eq!(words, text.split_whitespace().collect::<Vec<_>>());
        let lines: Vec<&str> = wrapped.split('\n').collect();
        for (i, line) in lines.iter().enumerate() {
            assert!(line.len() <= max || !line.contains(' '));
            if i > 0 {
                let first = line.split(' ').next().unwrap();
                assert!(lines[i - 1].len() + 1 + first.len() > max);
            }
        }
    }
    assert_eq!(wrap_text(text, 0), text);
    // A word without any column leaves no gap behind it.
    assert_eq!(wrap_text("\u{200b} a b", 80), "\u{200b}a b");
}

#[test]
fn heights_of_rows_add_up() {
    let row = |v: &str| ("L".to_string(), v.to_string());
    let a = vec![row("x"), row(&"word ".repeat(30))];
    let b = vec![row(""), row("1\n2\n3")];
    let both: Vec<(String, String)> = a.iter().chain(b.iter()).cloned().collect();
    assert_eq!(estimate_security_panel_lines(&vec![], 80, false), 4);
    for width in [10usize, 40, 80] {
        for asks in [false, true] {
            let height = |rows: &Vec<(String, String)>| {
                estimate_security_panel_lines(rows, width, asks)
            };
            assert_eq!(height(&both) + height(&vec![]), height(&a) + height(&b));
        }
        assert_eq!(
            estimate_security_panel_lines(&a, width, true),
            estimate_security_panel_lines(&a, width, false) + 4
        );
        assert!(estimate_security_panel_lines(&both, width, false) >= 4 + both.len());
    }
}
