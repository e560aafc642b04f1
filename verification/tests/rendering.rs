use console_menu::ansi::{clear_screen, fill_field, screen_padding};
use console_menu::key::Key;
use console_menu::menu::{Menu, MenuOption, MenuProps};

fn menu(labels: &[&str], props: MenuProps, rows: usize) -> Menu<()> {
    let options = labels.iter().map(|l| MenuOption::new(l, ())).collect();
    Menu::new(options, props, rows)
}

/// Takes every control sequence, from its escape character to the first
/// letter behind it, out of `s`.
fn strip(s: &str) -> String {
    let mut out = String::new();
    let mut inside = false;
    for c in s.chars() {
        if inside {
            inside = !c.is_ascii_alphabetic();
        } else if c == '\x1b' {
            inside = true;
        } else {
            out.push(c);
        }
    }
    assert!(!inside);
    out
}

#[test]
fn clear_screen_homes_clears_and_homes() {
    assert_eq!(clear_screen(), "\x1b[H\x1b[J\x1b[H");
}

#[test]
fn screen_padding_is_one_line_feed_short_of_the_rows() {
    assert_eq!(screen_padding(4), "\n\n\n");
    assert_eq!(screen_padding(1), "");
    assert_eq!(screen_padding(0), "");
    assert_eq!(screen_padding(24).len(), 23);
}

#[test]
fn bold_wraps_in_nine_control_characters() {
    let m = menu(&["a"], MenuProps::default(), 20);
    assert_eq!(m.apply_bold("hi"), "\x1b[1mhi\x1b[22m");
    assert_eq!(m.apply_bold("hi").len(), 2 + 9);
    assert_eq!(m.apply_bold(""), "\x1b[1m\x1b[22m");
}

#[test]
fn underline_wraps_in_nine_control_characters() {
    let m = menu(&["a"], MenuProps::default(), 20);
    assert_eq!(m.apply_underline("hi"), "\x1b[4mhi\x1b[24m");
    assert_eq!(m.apply_underline("hi").len(), 2 + 9);
}

#[test]
fn switch_fg_sets_the_color_and_restores_the_text_color() {
    let m = menu(&["a"], MenuProps { fg_color: 15, ..MenuProps::default() }, 20);
    assert_eq!(m.switch_fg("hi", 160), "\x1b[38;5;160mhi\x1b[38;5;15m");
    assert_eq!(m.switch_fg("hi", 160).len(), 2 + 16 + 3 + 2);
    assert_eq!(m.switch_fg("", 0), "\x1b[38;5;0m\x1b[38;5;15m");
    let m = menu(&["a"], MenuProps { fg_color: 7, ..MenuProps::default() }, 20);
    assert_eq!(m.switch_fg("x", 255), "\x1b[38;5;255mx\x1b[38;5;7m");
}

#[test]
fn apply_bg_takes_any_width() {
    let m = menu(&["a"], MenuProps::default(), 20);
    assert_eq!(m.apply_bg("abc", 0), "\x1b[48;5;8m  abc\x1b[49m");
    assert_eq!(m.apply_bg("a", 0), "\x1b[48;5;8m  a \x1b[49m");
    assert_eq!(m.apply_bg("", 0), "\x1b[48;5;8m    \x1b[49m");
    let long = "x".repeat(40);
    assert_eq!(m.apply_bg(&long, 39), format!("\x1b[48;5;8m  {} \x1b[49m", long));
    assert_eq!(m.apply_bg(&long, 38), format!("\x1b[48;5;8m  {}\x1b[49m", long));
}

#[test]
fn fill_field_leaves_control_characters_out_of_the_width() {
    assert_eq!(fill_field("ab", 5, 2, 8), "\x1b[48;5;8m  ab     \x1b[49m");
    assert_eq!(fill_field("\x1b[1mab\x1b[22m", 5, 2, 8), "\x1b[48;5;8m  \x1b[1mab\x1b[22m     \x1b[49m");
    assert_eq!(fill_field("abcdef", 5, 6, 30), "\x1b[48;5;30m  abcdef \x1b[49m");
    assert_eq!(fill_field("abcdefg", 5, 7, 30), "\x1b[48;5;30m  abcdefg\x1b[49m");
    assert_eq!(fill_field("abcdefgh", 5, 8, 30), "\x1b[48;5;30m  abcdefgh\x1b[49m");
    assert_eq!(fill_field("abc", 1, 0, 0), "\x1b[48;5;0m  abc   \x1b[49m");
}

#[test]
fn apply_bg_pads_behind_a_margin_to_width_plus_four() {
    let m = menu(&["a"], MenuProps { bg_color: 8, ..MenuProps::default() }, 20);
    assert_eq!(m.apply_bg("ab", 5), "\x1b[48;5;8m  ab     \x1b[49m");
    assert_eq!(m.apply_bg("", 3), "\x1b[48;5;8m       \x1b[49m");
    assert_eq!(m.apply_bg("abcdef", 2), "\x1b[48;5;8m  abcdef\x1b[49m");
    assert_eq!(m.apply_bg("abc", 2), "\x1b[48;5;8m  abc \x1b[49m");
    let m = menu(&["a"], MenuProps { bg_color: 236, ..MenuProps::default() }, 20);
    assert_eq!(m.apply_bg("x", 1), "\x1b[48;5;236m  x  \x1b[49m");
}

#[test]
fn lines_of_a_bare_menu() {
    let m = menu(&["one", "three"], MenuProps::default(), 20);
    let lines = m.content_lines();
    assert_eq!(
        lines,
        vec![
            "\x1b[48;5;8m         \x1b[49m".to_string(),
            "\x1b[48;5;8m  \x1b[38;5;15m\x1b[1mone\x1b[22m\x1b[38;5;15m    \x1b[49m".to_string(),
            "\x1b[48;5;8m  three  \x1b[49m".to_string(),
            "\x1b[48;5;8m         \x1b[49m".to_string(),
        ]
    );
}

#[test]
fn lines_with_title_message_and_colors() {
    let props = MenuProps {
        title: "Menu",
        message: "pick",
        exit_on_action: true,
        bg_color: 234,
        fg_color: 7,
        title_color: Some(160),
        selected_color: Some(32),
        msg_color: None,
    };
    let mut m = menu(&["ab", "c"], props, 20);
    m.handle_key(Key::ArrowDown);
    let bar = "\x1b[48;5;234m        \x1b[49m".to_string();
    assert_eq!(
        m.content_lines(),
        vec![
            bar.clone(),
            "\x1b[48;5;234m  \x1b[38;5;160m\x1b[4m\x1b[1mMenu\x1b[22m\x1b[24m\x1b[38;5;7m  \x1b[49m"
                .to_string(),
            bar.clone(),
            "\x1b[48;5;234m  ab    \x1b[49m".to_string(),
            "\x1b[48;5;234m  \x1b[38;5;32m\x1b[1mc\x1b[22m\x1b[38;5;7m     \x1b[49m".to_string(),
            "\x1b[38;5;7m\x1b[48;5;234m  pick  \x1b[49m\x1b[38;5;7m".to_string(),
            bar,
        ]
    );
}

#[test]
fn the_footer_shows_the_message_not_the_title() {
    let props = MenuProps { title: "TITLE", message: "footer", ..MenuProps::default() };
    let m = menu(&["a"], props, 20);
    let lines = m.content_lines();
    assert_eq!(lines.len(), 6);
    assert_eq!(strip(&lines[1]), "  TITLE   ");
    assert_eq!(strip(&lines[4]), "  footer  ");
    assert_eq!(lines[4], "\x1b[38;5;7m\x1b[48;5;8m  footer  \x1b[49m\x1b[38;5;15m");
}

#[test]
fn lines_come_in_order_from_bar_to_bar() {
    let props = MenuProps { title: "Choose", message: "q to quit", ..MenuProps::default() };
    let labels = ["first", "second", "third", "fourth", "fifth"];
    let mut m = menu(&labels, props, 8);
    m.handle_key(Key::ArrowRight);
    let shown: Vec<String> = m.content_lines().iter().map(|l| strip(l)).collect();
    assert_eq!(
        shown,
        vec![
            "             ",
            "  Choose     ",
            "             ",
            "  third      ",
            "  fourth     ",
            "  Page 2 of 3",
            "  q to quit  ",
            "             ",
        ]
    );
}

#[test]
fn one_footer_line_stands_between_the_options_and_the_closing_bar() {
    let props = MenuProps { message: "m", ..MenuProps::default() };
    let m = menu(&["a"], props, 20);
    let lines = m.content_lines();
    assert_eq!(lines.len(), 4);
    assert_eq!(lines[2], "\x1b[38;5;7m\x1b[48;5;8m  m  \x1b[49m\x1b[38;5;15m");
    let without = menu(&["a"], MenuProps::default(), 20);
    assert_eq!(without.content_lines().len(), 3);
}

#[test]
fn a_message_without_a_title_still_shows() {
    let props = MenuProps { message: "note", ..MenuProps::default() };
    let m = menu(&["a"], props, 20);
    let shown: Vec<String> = m.content_lines().iter().map(|l| strip(l)).collect();
    assert_eq!(shown, vec!["        ", "  a     ", "  note  ", "        "]);
}

#[test]
fn the_page_indicator_shows_only_with_several_pages() {
    let labels = ["option 0", "option 1", "option 2", "option 3", "option 4"];
    let mut m = menu(&labels, MenuProps::default(), 8);
    assert_eq!(m.num_pages(), 3);
    let shown: Vec<String> = m.content_lines().iter().map(|l| strip(l)).collect();
    assert_eq!(
        shown,
        vec!["            ", "  option 0  ", "  option 1  ", "  Page 1 of 3", "            "]
    );
    m.handle_key(Key::ArrowRight);
    m.handle_key(Key::ArrowRight);
    let lines = m.content_lines();
    assert_eq!(lines.len(), 4);
    assert_eq!(lines[2], "\x1b[48;5;8m  Page 3 of 3\x1b[49m");

    let one_page = menu(&labels, MenuProps::default(), 20);
    assert_eq!(one_page.num_pages(), 1);
    assert!(one_page.content_lines().iter().all(|l| !l.contains("Page")));
}

#[test]
fn page_numbers_are_written_in_decimal() {
    let labels: Vec<String> = (0..123).map(|i| format!("a rather long label {}", i)).collect();
    let refs: Vec<&str> = labels.iter().map(|s| s.as_str()).collect();
    let mut m = menu(&refs, MenuProps::default(), 7);
    assert_eq!(m.num_pages(), 123);
    for _ in 0..99 {
        m.handle_key(Key::ArrowRight);
    }
    let lines = m.content_lines();
    assert_eq!(m.max_width(), 23);
    assert_eq!(strip(&lines[2]), "  Page 100 of 123          ");
}

#[test]
fn frame_of_a_single_option() {
    let m = menu(&["a"], MenuProps::default(), 10);
    let indent = " ".repeat(8);
    let bar = "\x1b[48;5;8m     \x1b[49m";
    let option = "\x1b[48;5;8m  \x1b[38;5;15m\x1b[1ma\x1b[22m\x1b[38;5;15m  \x1b[49m";
    let expected = format!(
        "\x1b[H\x1b[J\x1b[H\n\n\n\n\x1b[38;5;15m{i}{bar}\n{i}{option}\n{i}{bar}\n\x1b[39m",
        i = indent,
        bar = bar,
        option = option
    );
    assert_eq!(m.draw(10, 20), expected);
}

#[test]
fn the_box_is_centered() {
    let props = MenuProps { title: "T", message: "m", ..MenuProps::default() };
    let m = menu(&["abcdef", "b", "c"], props, 30);
    assert_eq!(m.max_width(), 6);
    assert_eq!(m.options_per_page(), 3);
    let frame = m.draw(30, 80);
    let body = frame.strip_prefix("\x1b[H\x1b[J\x1b[H").unwrap();
    let pad = body.len() - body.trim_start_matches('\n').len();
    assert_eq!(pad, 30 / 2 - (3 + 5) / 2);
    let rest = body.trim_start_matches('\n').strip_prefix("\x1b[38;5;15m").unwrap();
    let first = rest.lines().next().unwrap();
    let indent = first.len() - first.trim_start_matches(' ').len();
    assert_eq!(indent, 80 / 2 - (6 + 4) / 2);
    for line in rest.lines().take(8) {
        assert!(line.starts_with(&" ".repeat(35)));
        assert_eq!(strip(line).chars().count(), 35 + 10);
    }
    assert!(frame.ends_with("\n\x1b[39m"));
}

#[test]
fn a_terminal_smaller_than_the_box_gets_no_padding() {
    let m = menu(&["a long label", "b", "c"], MenuProps::default(), 3);
    assert_eq!(m.options_per_page(), 1);
    let frame = m.draw(3, 10);
    let tiny = m.draw(0, 0);
    assert_eq!(frame, tiny);
    assert!(frame.starts_with("\x1b[H\x1b[J\x1b[H\x1b[38;5;15m\x1b[48;5;8m"));
}

#[test]
fn drawing_twice_gives_the_same_frame() {
    let props = MenuProps { title: "Title", message: "message", ..MenuProps::default() };
    let mut m = menu(&["a", "bb", "ccc", "dddd", "eeeee"], props, 9);
    for key in [Key::ArrowDown, Key::ArrowRight, Key::Other, Key::ArrowUp] {
        m.handle_key(key);
        let first = m.draw(9, 60);
        let second = m.draw(9, 60);
        assert_eq!(first, second);
        assert_eq!(m.content_lines(), m.content_lines());
    }
}

#[test]
fn every_line_shows_the_width_of_the_box() {
    let props = MenuProps {
        title: "A title",
        message: "and a message",
        exit_on_action: false,
        bg_color: 0,
        fg_color: 255,
        title_color: Some(9),
        selected_color: Some(100),
        msg_color: Some(42),
    };
    let labels = ["first", "second option", "3", "", "the last of them all"];
    for rows in [0, 7, 8, 9, 10, 30] {
        let mut m = menu(&labels, props_copy(&props), rows);
        for _ in 0..6 {
            let width = m.max_width() + 4;
            assert_eq!(width, 24);
            for line in m.content_lines() {
                assert_eq!(strip(&line).chars().count(), width, "{:?}", line);
            }
            m.handle_key(Key::ArrowDown);
        }
    }
}

fn props_copy<'a>(p: &MenuProps<'a>) -> MenuProps<'a> {
    MenuProps {
        title: p.title,
        message: p.message,
        exit_on_action: p.exit_on_action,
        bg_color: p.bg_color,
        fg_color: p.fg_color,
        title_color: p.title_color,
        selected_color: p.selected_color,
        msg_color: p.msg_color,
    }
}

#[test]
fn a_selected_line_shows_what_an_unselected_one_does() {
    let mut m = menu(&["alpha", "beta"], MenuProps::default(), 20);
    let before = m.content_lines();
    m.handle_key(Key::ArrowDown);
    let after = m.content_lines();
    assert_ne!(before[1], after[1]);
    assert_ne!(before[2], after[2]);
    assert_eq!(strip(&before[1]), strip(&after[1]));
    assert_eq!(strip(&before[2]), strip(&after[2]));
    assert_eq!(strip(&after[2]), "  beta   ");
}

#[test]
fn a_long_page_indicator_sticks_out_of_a_narrow_box() {
    let m = menu(&["a", "b"], MenuProps::default(), 7);
    assert_eq!(m.max_width(), 1);
    let shown: Vec<String> = m.content_lines().iter().map(|l| strip(l)).collect();
    assert_eq!(shown, vec!["     ", "  a  ", "  Page 1 of 2", "     "]);
}
