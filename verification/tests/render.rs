use std::collections::HashMap;
use xi_term::cache::Update;
use xi_term::client::Client;
use xi_term::command::ViewId;
use xi_term::line::{Line, StyleDef};
use xi_term::op::{Op, OpType};
use xi_term::render::{
    char_columns, click_column_of, escape_control, insert_all, insert_chars, insert_ordered,
    is_control_char, prefix_width, style_sequences, tab_width, Insertion,
};
use xi_term::style::{reset_style, set_style, Style};
use xi_term::text::{append_chars, chars_of, decimal_chars, string_of};
use xi_term::view::{ConfigChanges, Cursor, View, ViewConfig};

fn text_line(text: &str) -> Line {
    Line::new(text.to_string(), vec![], vec![])
}

fn styled(text: &str, styles: Vec<StyleDef>) -> Line {
    Line::new(text.to_string(), vec![], styles)
}

fn run(offset: i64, length: u64, style_id: u64) -> StyleDef {
    StyleDef { offset, length, style_id }
}

fn view_of(lines: Vec<Line>, before: u64, after: u64) -> View {
    let mut view = View::new(Client::new(ViewId(1)), None);
    let n = lines.len() as u64;
    let update = Update { before, after, ops: vec![Op::new(OpType::Ins, n, Some(lines))] };
    assert_eq!(view.update_cache(update), Ok(()));
    view
}

fn red() -> Style {
    Style {
        id: 1,
        fg_color: Some(0x00ff_0000),
        bg_color: None,
        weight: None,
        italic: None,
        underline: None,
    }
}

fn table() -> HashMap<u64, Style> {
    let mut styles = HashMap::new();
    styles.insert(1, red());
    styles
}

fn escaped(text: &str, tab: u16) -> String {
    string_of(&escape_control(text, tab))
}

const RED_ON: &str = "\x1b[38;2;255;0;0m";
const RED_OFF: &str = "\x1b[39m";

#[test]
fn tab_expands_to_the_next_tab_stop() {
    assert_eq!(escaped("\t", 4), "    ");
    assert_eq!(escaped("abc\t", 4), "abc ");
    assert_eq!(escaped("abcd\t", 4), "abcd    ");
    assert_eq!(escaped("a\tb\tc", 4), "a   b   c");
    assert_eq!(escaped("\t\t", 8), "                ");
    assert_eq!(escaped("ab\t", 1), "ab ");
}

#[test]
fn tab_width_is_never_zero() {
    assert_eq!(tab_width(0, 4), 4);
    assert_eq!(tab_width(3, 4), 1);
    assert_eq!(tab_width(4, 4), 4);
    assert_eq!(tab_width(5, 4), 3);
    for position in 0..40u64 {
        for tab in 1..9u16 {
            let width = tab_width(position, tab);
            assert!(1 <= width && width <= tab);
            assert_eq!((position + width as u64) % tab as u64, 0);
        }
    }
    assert_eq!(tab_width(u64::MAX, 65535), 65535 - (u64::MAX % 65535) as u16);
}

#[test]
fn control_characters_are_shown_in_caret_notation() {
    assert_eq!(escaped("\x02", 4), "^B");
    assert_eq!(escaped("\x00", 4), "^@");
    assert_eq!(escaped("\x08", 4), "^H");
    assert_eq!(escaped("\n", 4), "^J");
    assert_eq!(escaped("\x1f", 4), "^_");
    assert_eq!(escaped("\x7f", 4), "^?");
    assert_eq!(escaped("a\x01b", 4), "a^Ab");
    assert_eq!(escaped(" ~\u{80}é", 4), " ~\u{80}é");
}

#[test]
fn control_characters_count_two_columns_for_the_tab_stops() {
    assert_eq!(escaped("\x02\t", 4), "^B  ");
    assert_eq!(escaped("\x02\x02\t", 4), "^B^B    ");
}

#[test]
fn which_characters_are_control_characters() {
    assert!(is_control_char('\x00'));
    assert!(is_control_char('\x08'));
    assert!(!is_control_char('\t'));
    assert!(is_control_char('\x0a'));
    assert!(is_control_char('\x1f'));
    assert!(!is_control_char(' '));
    assert!(!is_control_char('~'));
    assert!(is_control_char('\x7f'));
    assert!(!is_control_char('\u{80}'));
}

#[test]
fn character_widths() {
    assert_eq!(char_columns(0, 'a', 4), 1);
    assert_eq!(char_columns(0, '\x02', 4), 2);
    assert_eq!(char_columns(1, '\t', 4), 3);
    let view = View::new(Client::new(ViewId(0)), None);
    assert_eq!(view.translate_char_width(6, '\t'), 2);
    assert_eq!(view.translate_char_width(6, 'x'), 1);
    assert_eq!(view.tab_width_at_position(7), 1);
    assert_eq!(view.tab_width_at_position(8), 4);
}

#[test]
fn prefix_widths() {
    assert_eq!(prefix_width("a\tb", 0, 4, 100), 0);
    assert_eq!(prefix_width("a\tb", 1, 4, 100), 1);
    assert_eq!(prefix_width("a\tb", 2, 4, 100), 4);
    assert_eq!(prefix_width("a\tb", 3, 4, 100), 5);
    assert_eq!(prefix_width("a\tb", 30, 4, 100), 5);
    assert_eq!(prefix_width("abcdef", 6, 4, 3), 4);
    assert_eq!(prefix_width("abc", 3, 4, 3), 3);
}

#[test]
fn set_and_reset_sequences_of_a_style() {
    assert_eq!(set_style(&red()), RED_ON);
    assert_eq!(reset_style(&red()), RED_OFF);
    let full = Style {
        id: 2,
        fg_color: Some(0xff01_0203),
        bg_color: Some(0x0000_0a0b),
        weight: Some(700),
        italic: Some(true),
        underline: Some(true),
    };
    assert_eq!(set_style(&full), "\x1b[38;2;1;2;3m\x1b[48;2;0;10;11m\x1b[3m\x1b[4m");
    assert_eq!(reset_style(&full), "\x1b[39m\x1b[49m\x1b[23m\x1b[24m");
    let plain = Style::default();
    assert_eq!(set_style(&plain), "");
    assert_eq!(reset_style(&plain), "");
    let off = Style { italic: Some(false), underline: Some(false), ..plain };
    assert_eq!(set_style(&off), "");
    assert_eq!(reset_style(&off), "");
    let under = Style { underline: Some(true), ..plain };
    assert_eq!(set_style(&under), "\x1b[4m");
    assert_eq!(reset_style(&under), "\x1b[24m");
    let slanted = Style { italic: Some(true), ..plain };
    assert_eq!(set_style(&slanted), "\x1b[3m");
    assert_eq!(reset_style(&slanted), "\x1b[23m");
    let back = Style { bg_color: Some(0x00ff_ffff), ..plain };
    assert_eq!(set_style(&back), "\x1b[48;2;255;255;255m");
    assert_eq!(reset_style(&back), "\x1b[49m");
}

#[test]
fn style_injection_of_a_single_run() {
    let view = View::new(Client::new(ViewId(0)), None);
    let line = styled("hello", vec![run(0, 5, 1)]);
    assert_eq!(
        view.escape_control_and_add_styles(&table(), &line),
        format!("{}hello{}", RED_ON, RED_OFF)
    );
}

#[test]
fn style_injection_with_an_empty_second_run() {
    let view = View::new(Client::new(ViewId(0)), None);
    let line = styled("hello", vec![run(0, 5, 1), run(0, 0, 2)]);
    assert_eq!(
        view.escape_control_and_add_styles(&table(), &line),
        format!("{}hello{}", RED_ON, RED_OFF)
    );
    let line = styled("hello", vec![run(0, 5, 1), run(0, 0, 1)]);
    assert_eq!(
        view.escape_control_and_add_styles(&table(), &line),
        format!("{}hello{}{}{}", RED_ON, RED_OFF, RED_ON, RED_OFF)
    );
}

#[test]
fn style_runs_are_relative_to_the_end_of_the_run_before() {
    let view = View::new(Client::new(ViewId(0)), None);
    let line = styled("abcdefgh", vec![run(1, 2, 1), run(2, 1, 1)]);
    assert_eq!(
        view.escape_control_and_add_styles(&table(), &line),
        format!("a{on}bc{off}de{on}f{off}gh", on = RED_ON, off = RED_OFF)
    );
}

#[test]
fn runs_of_unknown_styles_are_skipped_but_move_the_offset() {
    let view = View::new(Client::new(ViewId(0)), None);
    let line = styled("abcdefgh", vec![run(1, 2, 9), run(2, 1, 1)]);
    assert_eq!(
        view.escape_control_and_add_styles(&table(), &line),
        format!("abcde{on}f{off}gh", on = RED_ON, off = RED_OFF)
    );
    let line = styled("abc", vec![run(0, 3, 9)]);
    assert_eq!(view.escape_control_and_add_styles(&table(), &line), "abc");
}

#[test]
fn negative_offsets_go_back_and_are_held_at_the_start() {
    let view = View::new(Client::new(ViewId(0)), None);
    let line = styled("abcdefgh", vec![run(4, 2, 1), run(-3, 1, 1)]);
    assert_eq!(
        view.escape_control_and_add_styles(&table(), &line),
        format!("abc{on}d{on}{off}ef{off}gh", on = RED_ON, off = RED_OFF)
    );
    let line = styled("abc", vec![run(-5, 1, 1)]);
    assert_eq!(
        view.escape_control_and_add_styles(&table(), &line),
        format!("{on}a{off}bc", on = RED_ON, off = RED_OFF)
    );
    let line = styled("abc", vec![run(i64::MIN, 1, 1)]);
    assert_eq!(
        view.escape_control_and_add_styles(&table(), &line),
        format!("{on}a{off}bc", on = RED_ON, off = RED_OFF)
    );
}

#[test]
fn runs_past_the_end_are_held_at_the_end() {
    let view = View::new(Client::new(ViewId(0)), None);
    let line = styled("abc", vec![run(1, 100, 1)]);
    assert_eq!(
        view.escape_control_and_add_styles(&table(), &line),
        format!("a{on}bc{off}", on = RED_ON, off = RED_OFF)
    );
    let line = styled("abc", vec![run(7, u64::MAX, 1), run(i64::MAX, 2, 1)]);
    assert_eq!(
        view.escape_control_and_add_styles(&table(), &line),
        format!("abc{on}{off}{on}{off}", on = RED_ON, off = RED_OFF)
    );
}

#[test]
fn style_offsets_count_in_the_escaped_text() {
    let view = View::new(Client::new(ViewId(0)), None);
    let line = styled("\tab", vec![run(4, 1, 1)]);
    assert_eq!(
        view.escape_control_and_add_styles(&table(), &line),
        format!("    {on}a{off}b", on = RED_ON, off = RED_OFF)
    );
    let line = styled("héllo", vec![run(1, 1, 1)]);
    assert_eq!(
        view.escape_control_and_add_styles(&table(), &line),
        format!("h{on}é{off}llo", on = RED_ON, off = RED_OFF)
    );
}

#[test]
fn style_sequences_come_from_the_last_place_to_the_first() {
    let runs = vec![run(0, 2, 1), run(1, 1, 1)];
    let out = style_sequences(&table(), &runs, 10);
    let offsets: Vec<usize> = out.iter().map(|i| i.offset).collect();
    assert_eq!(offsets, vec![4, 3, 2, 0]);
    let sequences: Vec<&str> = out.iter().map(|i| i.sequence.as_str()).collect();
    assert_eq!(sequences, vec![RED_OFF, RED_ON, RED_OFF, RED_ON]);
    let view = View::new(Client::new(ViewId(0)), None);
    let line = styled("0123456789", runs);
    assert_eq!(view.get_style_sequences(&table(), &line, 10), out);
    assert_eq!(style_sequences(&table(), &vec![], 10), vec![]);
}

#[test]
fn of_two_insertions_at_one_place_the_later_comes_first() {
    let mut ordered: Vec<Insertion> = vec![];
    for (offset, s) in [(3, "a"), (1, "b"), (3, "c"), (2, "d"), (1, "e")] {
        insert_ordered(&mut ordered, Insertion { offset, sequence: s.to_string() });
    }
    let got: Vec<(usize, &str)> = ordered.iter().map(|i| (i.offset, i.sequence.as_str())).collect();
    assert_eq!(got, vec![(3, "c"), (3, "a"), (2, "d"), (1, "e"), (1, "b")]);
    let out = insert_all(chars_of("0123"), &ordered);
    assert_eq!(string_of(&out), "0be1d2ac3");
}

#[test]
fn inserting_characters() {
    let text = chars_of("abc");
    assert_eq!(string_of(&insert_chars(&text, 0, &chars_of("XY"))), "XYabc");
    assert_eq!(string_of(&insert_chars(&text, 2, &chars_of("XY"))), "abXYc");
    assert_eq!(string_of(&insert_chars(&text, 3, &chars_of("XY"))), "abcXY");
    assert_eq!(string_of(&insert_chars(&text, 99, &chars_of("XY"))), "abcXY");
    assert_eq!(string_of(&insert_chars(&text, 1, &chars_of(""))), "abc");
}

#[test]
fn text_helpers() {
    assert_eq!(chars_of("aé\t"), vec!['a', 'é', '\t']);
    assert_eq!(string_of(&vec!['x', 'y']), "xy");
    assert_eq!(string_of(&decimal_chars(0)), "0");
    assert_eq!(string_of(&decimal_chars(7)), "7");
    assert_eq!(string_of(&decimal_chars(10)), "10");
    assert_eq!(string_of(&decimal_chars(65535)), "65535");
    assert_eq!(string_of(&decimal_chars(u64::MAX as u128)), "18446744073709551615");
    assert_eq!(string_of(&decimal_chars(u64::MAX as u128 + 1)), "18446744073709551616");
    let mut text = vec!['a'];
    append_chars(&mut text, &vec!['b', 'c']);
    assert_eq!(text, vec!['a', 'b', 'c']);
}

#[test]
fn row_with_line_number() {
    let view = View::new(Client::new(ViewId(0)), None);
    let out = view.render_line_str(&text_line("hello"), Some(0), 0, &table());
    assert_eq!(out, "\x1b[1;3H\x1b[2K1\x1b[1;5Hhello");
    let out = view.render_line_str(&text_line("x"), Some(11), 2, &table());
    assert_eq!(out, "\x1b[3;2H\x1b[2K12\x1b[3;5Hx");
    let out = view.render_line_str(&text_line("x"), Some(998), 2, &table());
    assert_eq!(out, "\x1b[3;1H\x1b[2K999\x1b[3;5Hx");
}

#[test]
fn row_whose_number_does_not_fit_the_gutter() {
    let view = View::new(Client::new(ViewId(0)), None);
    let out = view.render_line_str(&text_line("x"), Some(9998), 0, &table());
    assert_eq!(out, "\x1b[1;0H\x1b[2K9999\x1b[1;5Hx");
    let out = view.render_line_str(&text_line("x"), Some(u64::MAX), 0, &table());
    assert_eq!(out, "\x1b[1;0H\x1b[2K18446744073709551616\x1b[1;5Hx");
}

#[test]
fn row_without_gutter() {
    let mut view = View::new(Client::new(ViewId(0)), None);
    view.toggle_line_numbers();
    let out = view.render_line_str(&text_line("hello"), Some(0), 4, &table());
    assert_eq!(out, "\x1b[5;0H\x1b[2Khello");
}

#[test]
fn blank_row() {
    let view = View::new(Client::new(ViewId(0)), None);
    let out = view.render_line_str(&Line::default(), None, 1, &table());
    assert_eq!(out, "\x1b[2;5H\x1b[2K");
}

#[test]
fn row_far_down_is_held_at_the_last_row() {
    let view = View::new(Client::new(ViewId(0)), None);
    let out = view.render_line_str(&Line::default(), None, 70000, &table());
    assert_eq!(out, "\x1b[65535;5H\x1b[2K");
    let out = view.render_line_str(&Line::default(), None, 65534, &table());
    assert_eq!(out, "\x1b[65535;5H\x1b[2K");
    let out = view.render_line_str(&Line::default(), None, 65533, &table());
    assert_eq!(out, "\x1b[65534;5H\x1b[2K");
}

#[test]
fn rows_of_a_window_with_blank_rows_below() {
    let mut view = view_of(vec![text_line("a"), styled("bc", vec![run(0, 1, 1)])], 0, 0);
    view.resize(3);
    let out = view.render_lines(&table());
    assert_eq!(
        out,
        format!(
            "\x1b[1;3H\x1b[2K1\x1b[1;5Ha\x1b[2;3H\x1b[2K2\x1b[2;5H{on}b{off}c\x1b[3;5H\x1b[2K",
            on = RED_ON,
            off = RED_OFF
        )
    );
}

#[test]
fn rows_of_a_scrolled_window_carry_document_line_numbers() {
    let lines: Vec<Line> = (0..6).map(|i| text_line(&format!("l{}", i))).collect();
    let mut view = view_of(lines, 100, 5);
    view.resize(2);
    view.set_cursor(104, 0);
    assert_eq!(view.window().start(), 3);
    assert_eq!(view.cfg().gutter_size, 4);
    let out = view.render_lines(&table());
    assert_eq!(out, "\x1b[1;1H\x1b[2K104\x1b[1;5Hl3\x1b[2;1H\x1b[2K105\x1b[2;5Hl4");
}

#[test]
fn gutter_grows_with_the_document() {
    let mut view = view_of(vec![text_line("a")], 0, 0);
    view.update_window();
    assert_eq!(view.cfg().gutter_size, 4);
    let mut view = view_of(vec![text_line("a")], 998, 0);
    view.update_window();
    assert_eq!(view.cfg().gutter_size, 4);
    let mut view = view_of(vec![text_line("a")], 999, 0);
    view.update_window();
    assert_eq!(view.cfg().gutter_size, 5);
    let mut view = view_of(vec![text_line("a")], 0, u64::MAX - 1);
    view.update_window();
    assert_eq!(view.cfg().gutter_size, 21);
}

#[test]
fn cursor_in_an_empty_cache_is_at_the_top_left() {
    let view = View::new(Client::new(ViewId(0)), None);
    assert_eq!(view.render_cursor(), Some("\x1b[1;1H".to_string()));
}

#[test]
fn cursor_column_counts_widths() {
    let mut view = view_of(vec![text_line("a\tb\x02c"), text_line("second")], 0, 0);
    view.resize(5);
    view.set_cursor(0, 0);
    assert_eq!(view.render_cursor(), Some("\x1b[1;5H".to_string()));
    view.set_cursor(0, 2);
    assert_eq!(view.render_cursor(), Some("\x1b[1;9H".to_string()));
    view.set_cursor(0, 4);
    assert_eq!(view.render_cursor(), Some("\x1b[1;12H".to_string()));
    view.set_cursor(0, 400);
    assert_eq!(view.render_cursor(), Some("\x1b[1;13H".to_string()));
    view.set_cursor(1, 3);
    assert_eq!(view.render_cursor(), Some("\x1b[2;8H".to_string()));
}

#[test]
fn cursor_outside_the_lines_or_the_window_is_not_shown() {
    let lines: Vec<Line> = (0..6).map(|i| text_line(&format!("l{}", i))).collect();
    let mut view = view_of(lines, 10, 0);
    view.resize(2);
    view.set_cursor(3, 0);
    assert_eq!(view.cursor(), Cursor { line: 3, column: 0 });
    assert_eq!(view.render_cursor(), None);
    view.set_cursor(16, 0);
    assert_eq!(view.render_cursor(), None);
    view.set_cursor(15, 1);
    assert_eq!(view.window().start(), 4);
    assert_eq!(view.render_cursor(), Some("\x1b[2;6H".to_string()));
    let mut view = view_of(vec![], 3, 0);
    view.resize(2);
    assert_eq!(view.render_cursor(), None);
}

#[test]
fn cursor_column_is_held_at_the_last_column() {
    let long: String = std::iter::repeat('x').take(70000).collect();
    let mut view = view_of(vec![text_line(&long)], 0, 0);
    view.resize(1);
    view.set_cursor(0, 70000);
    assert_eq!(view.render_cursor(), Some("\x1b[1;65535H".to_string()));
    view.set_cursor(0, 65530);
    assert_eq!(view.render_cursor(), Some("\x1b[1;65535H".to_string()));
    view.set_cursor(0, 65529);
    assert_eq!(view.render_cursor(), Some("\x1b[1;65534H".to_string()));
}

#[test]
fn render_follows_the_cursor_and_draws_rows_then_cursor() {
    let lines: Vec<Line> = (0..4).map(|i| text_line(&format!("l{}", i))).collect();
    let mut view = view_of(lines, 0, 0);
    view.resize(2);
    view.set_cursor(3, 1);
    let out = view.render(&table());
    assert_eq!(
        out,
        "\x1b[1;3H\x1b[2K3\x1b[1;5Hl2\x1b[2;3H\x1b[2K4\x1b[2;5Hl3\x1b[2;6H"
    );
    assert_eq!(view.window().start(), 2);
}

#[test]
fn render_without_a_cursor_to_show_draws_the_rows_only() {
    let mut view = view_of(vec![text_line("a")], 5, 0);
    view.resize(1);
    view.set_cursor(0, 0);
    let out = view.render(&table());
    assert_eq!(out, "\x1b[1;3H\x1b[2K6\x1b[1;5Ha");
}

#[test]
fn click_in_the_gutter_lands_on_column_zero() {
    let mut view = view_of(vec![text_line("\t\x02abc"), text_line("")], 7, 0);
    view.resize(2);
    for column in 0..4 {
        assert_eq!(view.get_click_location(0, column), (7, 0));
        assert_eq!(view.get_click_location(1, column), (8, 0));
    }
}

#[test]
fn click_on_the_text_lands_on_the_character_that_reaches_the_column() {
    let mut view = view_of(vec![text_line("ab\tc")], 0, 0);
    view.resize(2);
    assert_eq!(view.get_click_location(0, 4), (0, 0));
    assert_eq!(view.get_click_location(0, 5), (0, 0));
    assert_eq!(view.get_click_location(0, 6), (0, 1));
    assert_eq!(view.get_click_location(0, 7), (0, 2));
    assert_eq!(view.get_click_location(0, 8), (0, 2));
    assert_eq!(view.get_click_location(0, 9), (0, 3));
    assert_eq!(view.get_click_location(0, 10), (0, 4));
    assert_eq!(view.get_click_location(0, u64::MAX), (0, 4));
    assert_eq!(click_column_of("ab\tc", 0, 4), 0);
    assert_eq!(click_column_of("", 0, 4), 0);
    assert_eq!(click_column_of("", 3, 4), 0);
    assert_eq!(click_column_of("\x02\x02", 3, 4), 1);
}

#[test]
fn click_counts_rows_from_the_start_of_the_window() {
    let lines: Vec<Line> = (0..6).map(|i| text_line(&format!("l{}", i))).collect();
    let mut view = view_of(lines, 100, 0);
    view.resize(2);
    view.set_cursor(105, 0);
    assert_eq!(view.window().start(), 4);
    assert_eq!(view.get_click_location(0, 0), (104, 0));
    assert_eq!(view.get_click_location(1, 5), (105, 0));
    assert_eq!(view.get_click_location(1, 6), (105, 1));
}

#[test]
fn click_on_a_row_without_a_line_is_handed_back() {
    let mut view = view_of(vec![text_line("a")], 3, 0);
    view.resize(5);
    assert_eq!(view.get_click_location(1, 9), (1, 9));
    assert_eq!(view.get_click_location(u64::MAX, 2), (u64::MAX, 2));
}

#[test]
fn config_change_takes_over_a_valid_tab_size() {
    let mut view = View::new(Client::new(ViewId(0)), None);
    assert_eq!(view.cfg(), ViewConfig { gutter_size: 4, tab_size: 4, display_gutter: true });
    assert_eq!(view.cfg(), ViewConfig::default());
    view.config_changed(ConfigChanges { tab_size: Some(8) });
    assert_eq!(view.cfg().tab_size, 8);
    view.config_changed(ConfigChanges { tab_size: Some(0) });
    assert_eq!(view.cfg().tab_size, 8);
    view.config_changed(ConfigChanges { tab_size: Some(65536) });
    assert_eq!(view.cfg().tab_size, 8);
    view.config_changed(ConfigChanges { tab_size: None });
    assert_eq!(view.cfg().tab_size, 8);
    view.config_changed(ConfigChanges { tab_size: Some(65535) });
    assert_eq!(view.cfg().tab_size, 65535);
    assert_eq!(view.escape_control_and_add_styles(&table(), &text_line("a\t")).len(), 65535);
}

#[test]
fn cursor_below_the_window_is_placed_on_its_row() {
    let mut view = view_of(vec![text_line("ab"), text_line("cd"), text_line("ef")], 0, 0);
    view.resize(0);
    view.set_cursor(1, 1);
    assert_eq!(view.window().start(), 0);
    assert_eq!(view.window().size(), 0);
    assert_eq!(view.render_cursor(), Some("\x1b[2;6H".to_string()));
    view.set_cursor(2, 2);
    assert_eq!(view.window().start(), 0);
    assert_eq!(view.render_cursor(), Some("\x1b[3;7H".to_string()));
}
