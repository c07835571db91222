use fzc::ansi::{apply_sgr_sequence, map_ansi_color, parse_ansi_spans, Color, TextStyle, Toggle};

fn white() -> TextStyle {
    TextStyle::new().with_fg(Color::White)
}

#[test]
fn red_then_reset_gives_two_segments() {
    let segments = parse_ansi_spans("\u{1b}[31mred \u{1b}[0mplain", white(), Color::White);
    assert_eq!(segments.len(), 2);
    assert_eq!(segments[0].text, "red ");
    assert_eq!(segments[0].style.fg, Some(Color::Red));
    assert_eq!(segments[1].text, "plain");
    assert_eq!(segments[1].style, white());
}

#[test]
fn unknown_sequence_is_dropped_whole() {
    let segments = parse_ansi_spans("before\u{1b}[?25hafter", white(), Color::White);
    let text: String = segments.iter().map(|s| s.text.as_str()).collect();
    assert_eq!(text, "beforeafter");
    assert!(segments.iter().all(|s| s.style == white()));
}

#[test]
fn unknown_sequence_leaves_the_style_alone() {
    let segments = parse_ansi_spans("\u{1b}[32mgreen\u{1b}[2Kstill", white(), Color::White);
    assert_eq!(segments.len(), 2);
    assert_eq!(segments[0].text, "green");
    assert_eq!(segments[1].text, "still");
    assert_eq!(segments[1].style.fg, Some(Color::Green));
}

#[test]
fn line_without_text_gives_one_empty_segment() {
    let segments = parse_ansi_spans("", white(), Color::White);
    assert_eq!(segments.len(), 1);
    assert_eq!(segments[0].text, "");
    assert_eq!(segments[0].style, white());

    let only_codes = parse_ansi_spans("\u{1b}[31m\u{1b}[0m", white(), Color::White);
    assert_eq!(only_codes.len(), 1);
    assert_eq!(only_codes[0].text, "");
    assert_eq!(only_codes[0].style, white());
}

#[test]
fn escape_without_bracket_stays_in_the_text() {
    let segments = parse_ansi_spans("a\u{1b}b", white(), Color::White);
    assert_eq!(segments.len(), 1);
    assert_eq!(segments[0].text, "a\u{1b}b");
}

#[test]
fn sequence_that_never_ends_is_dropped() {
    let segments = parse_ansi_spans("text\u{1b}[31", white(), Color::White);
    assert_eq!(segments.len(), 1);
    assert_eq!(segments[0].text, "text");
}

#[test]
fn style_is_carried_across_sequences() {
    let segments = parse_ansi_spans("\u{1b}[1mbold\u{1b}[31mred", white(), Color::White);
    assert_eq!(segments.len(), 2);
    assert_eq!(segments[0].style.bold, Toggle::On);
    assert_eq!(segments[0].style.fg, Some(Color::White));
    assert_eq!(segments[1].style.bold, Toggle::On);
    assert_eq!(segments[1].style.fg, Some(Color::Red));
}

#[test]
fn sgr_codes_set_and_clear_attributes() {
    let mut style = white();
    apply_sgr_sequence("1;3;4", &mut style, white(), Color::White);
    assert_eq!(style.bold, Toggle::On);
    assert_eq!(style.italic, Toggle::On);
    assert_eq!(style.underlined, Toggle::On);

    apply_sgr_sequence("22;23;24", &mut style, white(), Color::White);
    assert_eq!(style.bold, Toggle::Off);
    assert_eq!(style.dim, Toggle::Off);
    assert_eq!(style.italic, Toggle::Off);
    assert_eq!(style.underlined, Toggle::Off);
}

#[test]
fn sgr_standard_and_bright_colours() {
    let mut style = white();
    apply_sgr_sequence("34;45", &mut style, white(), Color::White);
    assert_eq!(style.fg, Some(Color::Blue));
    assert_eq!(style.bg, Some(Color::Magenta));

    apply_sgr_sequence("96;101", &mut style, white(), Color::White);
    assert_eq!(style.fg, Some(Color::LightCyan));
    assert_eq!(style.bg, Some(Color::LightRed));

    apply_sgr_sequence("39;49", &mut style, white(), Color::LightRed);
    assert_eq!(style.fg, Some(Color::LightRed));
    assert_eq!(style.bg, Some(Color::Reset));
}

#[test]
fn sgr_indexed_and_rgb_colours() {
    let mut style = white();
    apply_sgr_sequence("38;5;208", &mut style, white(), Color::White);
    assert_eq!(style.fg, Some(Color::Indexed(208)));

    apply_sgr_sequence("48;2;10;20;30", &mut style, white(), Color::White);
    assert_eq!(style.bg, Some(Color::Rgb(10, 20, 30)));

    apply_sgr_sequence("38;2;300;0;999", &mut style, white(), Color::White);
    assert_eq!(style.fg, Some(Color::Rgb(255, 0, 255)));
}

#[test]
fn sgr_extended_colour_without_its_parameters_is_skipped() {
    let mut style = white();
    apply_sgr_sequence("38;1", &mut style, white(), Color::White);
    assert_eq!(style.fg, Some(Color::White));
    assert_eq!(style.bold, Toggle::On);
}

#[test]
fn sgr_unknown_codes_are_ignored() {
    let mut style = white();
    apply_sgr_sequence("31;999;4", &mut style, white(), Color::White);
    assert_eq!(style.fg, Some(Color::Red));
    assert_eq!(style.underlined, Toggle::On);
}

#[test]
fn sgr_without_parameters_resets() {
    let base = white();
    let mut style = base.with_fg(Color::Red).bolded();
    apply_sgr_sequence("", &mut style, base, Color::White);
    assert_eq!(style, base);

    let mut style = base.with_fg(Color::Red).bolded();
    apply_sgr_sequence(";;", &mut style, base, Color::White);
    assert_eq!(style, base);

    let mut style = base.with_fg(Color::Red).bolded();
    apply_sgr_sequence("70000", &mut style, base, Color::White);
    assert_eq!(style, base);
}

#[test]
fn colour_table() {
    assert_eq!(map_ansi_color(30), Color::Black);
    assert_eq!(map_ansi_color(37), Color::Gray);
    assert_eq!(map_ansi_color(90), Color::DarkGray);
    assert_eq!(map_ansi_color(97), Color::White);
    assert_eq!(map_ansi_color(38), Color::Reset);
}
