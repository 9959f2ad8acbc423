use leaf_core::approx::{parse_inline_approximate, render_approximate};
use leaf_core::text::{find_stable_prefix_len, lines_equal, Color, Line, Span, Style, BOLD};

fn contents(spans: &[Span]) -> Vec<String> {
    spans.iter().map(|s| s.content.clone()).collect()
}

fn code() -> Style {
    Style { fg: Some(Color::Cyan), bg: Some(Color::Black), ..Style::new() }
}

fn bold() -> Style {
    Style { add_modifier: BOLD, ..Style::new() }
}

#[test]
fn raw_line_splits_at_newlines() {
    let line = Line::raw("a\nb\r\nc");
    assert_eq!(contents(&line.spans), vec!["a", "b", "c"]);
    assert!(line.spans.iter().all(|s| s.style == Style::new()));
    assert!(line.alignment.is_none());
}

#[test]
fn raw_line_of_empty_text_has_no_spans() {
    assert!(Line::raw("").spans.is_empty());
    assert_eq!(contents(&Line::raw("end\n").spans), vec!["end"]);
}

#[test]
fn lines_equal_compares_text_and_style() {
    let a = Line::raw("hello");
    let b = Line::raw("hello");
    assert!(lines_equal(&a, &b));
    let c = Line::from_spans(vec![Span::styled("hello".to_string(), bold())]);
    assert!(!lines_equal(&a, &c));
    assert!(!lines_equal(&a, &Line::raw("hello\nworld")));
}

#[test]
fn stable_prefix_of_identical_and_shorter_renders() {
    let a = vec![Line::raw("x"), Line::raw("y")];
    let b = vec![Line::raw("x"), Line::raw("y")];
    assert_eq!(find_stable_prefix_len(&a, &b), 2);
    let c = vec![Line::raw("x")];
    assert_eq!(find_stable_prefix_len(&a, &c), 1);
    assert_eq!(find_stable_prefix_len(&c, &a), 1);
    let d = vec![Line::raw("z"), Line::raw("y")];
    assert_eq!(find_stable_prefix_len(&a, &d), 0);
}

#[test]
fn inline_code_is_padded_and_cyan() {
    let spans = parse_inline_approximate("a `b` c");
    assert_eq!(contents(&spans), vec!["a ", " b ", " c"]);
    assert_eq!(spans[0].style, Style::new());
    assert_eq!(spans[1].style, code());
    assert_eq!(spans[2].style, Style::new());
}

#[test]
fn unclosed_code_runs_to_end_of_line() {
    let spans = parse_inline_approximate("x `open");
    assert_eq!(contents(&spans), vec!["x ", " open "]);
    assert_eq!(spans[1].style, code());
}

#[test]
fn bold_between_star_pairs() {
    let spans = parse_inline_approximate("**bold** and *one*");
    assert_eq!(contents(&spans), vec!["bold", " and *one*"]);
    assert_eq!(spans[0].style, bold());
    assert_eq!(spans[1].style, Style::new());
}

#[test]
fn unclosed_bold_keeps_its_stars() {
    let spans = parse_inline_approximate("ab**cd");
    assert_eq!(contents(&spans), vec!["ab", "**cd"]);
    assert!(spans.iter().all(|s| s.style == Style::new()));
}

#[test]
fn empty_line_gives_one_empty_span() {
    let spans = parse_inline_approximate("");
    assert_eq!(contents(&spans), vec![""]);
    let spans = parse_inline_approximate("``");
    assert_eq!(contents(&spans), vec!["  "]);
}

#[test]
fn headings_fences_and_plain_lines() {
    let lines = render_approximate("# One\n## Two\n### Three\n```rust\n\nplain `c`");
    assert_eq!(lines.len(), 6);
    assert_eq!(contents(&lines[0].spans), vec!["One"]);
    assert_eq!(lines[0].spans[0].style, Style { fg: Some(Color::Yellow), add_modifier: BOLD, ..Style::new() });
    assert_eq!(contents(&lines[1].spans), vec!["Two"]);
    assert_eq!(lines[1].spans[0].style.fg, Some(Color::Cyan));
    assert_eq!(contents(&lines[2].spans), vec!["Three"]);
    assert_eq!(lines[2].spans[0].style.fg, Some(Color::Blue));
    assert_eq!(contents(&lines[3].spans), vec!["```rust"]);
    assert_eq!(lines[3].spans[0].style, Style { fg: Some(Color::DarkGray), ..Style::new() });
    assert!(lines[4].spans.is_empty());
    assert_eq!(contents(&lines[5].spans), vec!["plain ", " c "]);
}

#[test]
fn markup_free_line_is_shown_as_is() {
    let lines = render_approximate("just text, *maybe*");
    assert_eq!(lines.len(), 1);
    assert_eq!(contents(&lines[0].spans), vec!["just text, *maybe*"]);
    assert_eq!(lines[0].spans[0].style, Style::new());
}

#[test]
fn lines_differing_in_alignment_or_style_are_not_equal() {
    let a = Line::raw("a");
    let mut centered = Line::raw("a");
    centered.alignment = Some(leaf_core::text::Alignment::Center);
    assert!(!lines_equal(&a, &centered));
    assert_eq!(find_stable_prefix_len(&[Line::raw("a")], &[centered]), 0);
    let mut styled = Line::raw("a");
    styled.style = bold();
    assert!(!lines_equal(&a, &styled));
}

#[test]
fn backtick_free_text_is_rebuilt_from_its_spans() {
    let text = "x **b** *y* **open";
    let rebuilt: String = parse_inline_approximate(text)
        .iter()
        .map(|s| if s.style == bold() { format!("**{}**", s.content) } else { s.content.clone() })
        .collect();
    assert_eq!(rebuilt, text);
}
