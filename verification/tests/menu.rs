use console_menu::key::Key;
use console_menu::menu::{compute_max_width, Menu, MenuOption, MenuProps, Outcome};
use std::cell::Cell;
use std::rc::Rc;

type Action = Box<dyn FnMut()>;

fn counting(labels: &[&str], counts: &Rc<Vec<Cell<u32>>>) -> Vec<MenuOption<Action>> {
    let mut options = Vec::new();
    for (i, label) in labels.iter().enumerate() {
        let counts = Rc::clone(counts);
        let action: Action = Box::new(move || counts[i].set(counts[i].get() + 1));
        options.push(MenuOption::new(label, action));
    }
    options
}

fn counters(n: usize) -> Rc<Vec<Cell<u32>>> {
    Rc::new((0..n).map(|_| Cell::new(0)).collect())
}

fn tally(counts: &Rc<Vec<Cell<u32>>>) -> Vec<u32> {
    counts.iter().map(|c| c.get()).collect()
}

fn plain(labels: &[&str], props: MenuProps, rows: usize) -> Menu<()> {
    let options = labels.iter().map(|l| MenuOption::new(l, ())).collect();
    Menu::new(options, props, rows)
}

/// Feeds `keys` to `menu` as a session does: runs the actions asked for and
/// stops where the menu says so. Returns whether the session is still open
/// after the last key.
fn play(menu: &mut Menu<Action>, keys: &[Key]) -> bool {
    for key in keys {
        match menu.handle_key(*key) {
            Outcome::Continue => {}
            Outcome::Invoke(index) => (menu.action_mut(index))(),
            Outcome::InvokeAndExit(index) => {
                (menu.action_mut(index))();
                return false;
            }
            Outcome::Exit => return false,
        }
    }
    true
}

#[test]
fn default_props_are_white_on_gray() {
    let props = MenuProps::default();
    assert_eq!(props.title, "");
    assert_eq!(props.message, "");
    assert!(props.exit_on_action);
    assert_eq!(props.bg_color, 8);
    assert_eq!(props.fg_color, 15);
    assert_eq!(props.title_color, None);
    assert_eq!(props.selected_color, None);
    assert_eq!(props.msg_color, Some(7));
}

#[test]
fn an_option_keeps_its_label_and_action() {
    let option = MenuOption::new("option 1", 42u8);
    assert_eq!(option.label, "option 1");
    assert_eq!(option.action, 42);
}

#[test]
fn max_width_is_the_longest_of_labels_title_and_message() {
    let options = vec![
        MenuOption::new("one", ()),
        MenuOption::new("three", ()),
        MenuOption::new("", ()),
    ];
    assert_eq!(compute_max_width(&options, "", ""), 5);
    assert_eq!(compute_max_width(&options, "a longer title", ""), 14);
    assert_eq!(compute_max_width(&options, "title", "the longest message"), 19);
    assert_eq!(compute_max_width(&options, "abcde", "abcd"), 5);
    let none: Vec<MenuOption<()>> = Vec::new();
    assert_eq!(compute_max_width(&none, "", ""), 0);
}

#[test]
fn max_width_counts_characters() {
    let options = vec![MenuOption::new("日本語", ())];
    assert_eq!(compute_max_width(&options, "é", ""), 3);
}

#[test]
fn a_new_menu_selects_the_first_option() {
    let menu = plain(&["a", "bb", "ccc"], MenuProps::default(), 20);
    assert_eq!(menu.option_count(), 3);
    assert_eq!(menu.selected_page(), 0);
    assert_eq!(menu.selected_option(), 0);
    assert_eq!(menu.page_start(), 0);
    assert_eq!(menu.page_end(), 2);
    assert_eq!(menu.max_width(), 3);
    assert!(menu.exit_on_action());
    assert_eq!(menu.label(0), "a");
    assert_eq!(menu.label(2), "ccc");
}

#[test]
fn three_options_on_twenty_rows_make_one_page() {
    let menu = plain(&["a", "b", "c"], MenuProps::default(), 20);
    assert_eq!(menu.options_per_page(), 3);
    assert_eq!(menu.num_pages(), 1);
    assert_eq!((menu.page_start(), menu.page_end()), (0, 2));
}

#[test]
fn enter_with_exit_on_action_runs_the_option_once_and_ends() {
    let counts = counters(3);
    let props = MenuProps { exit_on_action: true, ..MenuProps::default() };
    let mut menu = Menu::new(counting(&["a", "b", "c"], &counts), props, 20);
    assert_eq!(menu.handle_key(Key::ArrowDown), Outcome::Continue);
    assert_eq!(menu.selected_option(), 1);
    assert_eq!(menu.handle_key(Key::Enter), Outcome::InvokeAndExit(1));
    assert_eq!(tally(&counts), vec![0, 0, 0]);

    let counts = counters(3);
    let props = MenuProps { exit_on_action: true, ..MenuProps::default() };
    let mut menu = Menu::new(counting(&["a", "b", "c"], &counts), props, 20);
    let open = play(&mut menu, &[Key::ArrowDown, Key::Enter, Key::Enter, Key::ArrowDown]);
    assert!(!open);
    assert_eq!(tally(&counts), vec![0, 1, 0]);
}

#[test]
fn enter_twice_without_exit_on_action_runs_the_option_twice() {
    let counts = counters(3);
    let props = MenuProps { exit_on_action: false, ..MenuProps::default() };
    let mut menu = Menu::new(counting(&["a", "b", "c"], &counts), props, 20);
    menu.handle_key(Key::Char('j'));
    menu.handle_key(Key::Char('j'));
    assert_eq!(menu.handle_key(Key::Enter), Outcome::Invoke(2));
    assert_eq!(menu.handle_key(Key::Enter), Outcome::Invoke(2));
    assert_eq!(menu.selected_option(), 2);

    let counts = counters(3);
    let props = MenuProps { exit_on_action: false, ..MenuProps::default() };
    let mut menu = Menu::new(counting(&["a", "b", "c"], &counts), props, 20);
    let open = play(&mut menu, &[Key::Char('j'), Key::Char('j'), Key::Enter, Key::Enter]);
    assert!(open);
    assert_eq!(tally(&counts), vec![0, 0, 2]);
}

#[test]
fn exit_keys_end_the_session_without_running_anything() {
    for key in [Key::Escape, Key::Char('q'), Key::Backspace] {
        let counts = counters(2);
        let mut menu = Menu::new(counting(&["a", "b"], &counts), MenuProps::default(), 20);
        assert_eq!(menu.handle_key(key), Outcome::Exit);
        assert!(!play(&mut menu, &[Key::ArrowDown, key, Key::Enter]));
        assert_eq!(tally(&counts), vec![0, 0]);
    }
}

#[test]
fn other_keys_change_nothing_and_ask_for_a_redraw() {
    let mut menu = plain(&["a", "b", "c"], MenuProps::default(), 20);
    menu.handle_key(Key::ArrowDown);
    let frame = menu.draw(20, 80);
    for key in [Key::Other, Key::Char('x'), Key::Char('Z')] {
        assert_eq!(menu.handle_key(key), Outcome::Continue);
        assert_eq!(menu.selected_option(), 1);
        assert_eq!(menu.draw(20, 80), frame);
    }
}

#[test]
fn down_four_times_on_ten_options_lands_on_page_two() {
    let labels = ["0", "1", "2", "3", "4", "5", "6", "7", "8", "9"];
    let mut menu = plain(&labels, MenuProps::default(), 10);
    assert_eq!(menu.options_per_page(), 4);
    assert_eq!(menu.num_pages(), 3);
    for _ in 0..4 {
        assert_eq!(menu.handle_key(Key::ArrowDown), Outcome::Continue);
    }
    assert_eq!((menu.selected_page(), menu.selected_option()), (1, 4));
    assert_eq!((menu.page_start(), menu.page_end()), (4, 7));
}

#[test]
fn set_page_selects_the_first_option_of_the_page() {
    let labels = ["0", "1", "2", "3", "4", "5", "6", "7", "8", "9"];
    let mut menu = plain(&labels, MenuProps::default(), 10);
    menu.set_page(2);
    assert_eq!((menu.selected_page(), menu.selected_option()), (2, 8));
    assert_eq!((menu.page_start(), menu.page_end()), (8, 9));
    menu.set_page(0);
    assert_eq!((menu.selected_page(), menu.selected_option()), (0, 0));
    assert_eq!((menu.page_start(), menu.page_end()), (0, 3));
}

#[test]
fn menu_edges_hold() {
    let labels = ["0", "1", "2", "3", "4", "5", "6", "7", "8", "9"];
    let mut menu = plain(&labels, MenuProps::default(), 10);
    menu.handle_key(Key::ArrowUp);
    assert_eq!((menu.selected_page(), menu.selected_option()), (0, 0));
    menu.handle_key(Key::ArrowLeft);
    assert_eq!((menu.selected_page(), menu.selected_option()), (0, 0));
    for _ in 0..20 {
        menu.handle_key(Key::ArrowDown);
    }
    assert_eq!((menu.selected_page(), menu.selected_option()), (2, 9));
    menu.handle_key(Key::ArrowRight);
    assert_eq!((menu.selected_page(), menu.selected_option()), (2, 9));
}

#[test]
fn a_new_session_lays_the_menu_out_again() {
    let labels = ["0", "1", "2", "3", "4", "5", "6", "7", "8", "9"];
    let mut menu = plain(&labels, MenuProps::default(), 10);
    menu.handle_key(Key::ArrowRight);
    menu.handle_key(Key::ArrowDown);
    assert_eq!((menu.selected_page(), menu.selected_option()), (1, 5));
    menu.begin_session(9);
    assert_eq!(menu.options_per_page(), 3);
    assert_eq!(menu.num_pages(), 4);
    assert_eq!((menu.selected_page(), menu.selected_option()), (0, 0));
    assert_eq!((menu.page_start(), menu.page_end()), (0, 2));
    menu.begin_session(40);
    assert_eq!(menu.options_per_page(), 10);
    assert_eq!(menu.num_pages(), 1);
}

#[test]
fn an_action_may_change_what_it_captured_between_runs() {
    let log = Rc::new(Cell::new(0u32));
    let seen = Rc::clone(&log);
    let mut calls = 0u32;
    let action: Action = Box::new(move || {
        calls += 1;
        seen.set(seen.get() * 10 + calls);
    });
    let props = MenuProps { exit_on_action: false, ..MenuProps::default() };
    let mut menu = Menu::new(vec![MenuOption::new("count", action)], props, 20);
    assert!(play(&mut menu, &[Key::Enter, Key::Enter, Key::Enter]));
    assert_eq!(log.get(), 123);
}
