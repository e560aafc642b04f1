//! The menu itself: its options and configuration, the layout computed for
//! a terminal, and the reaction to each key.

use vstd::prelude::*;
use crate::ansi::{
    bg_field, bold, clear_screen_seq, fg_set, fg_switched, fill_field, push_fg, underlined,
};
use crate::key::{Event, Key};
use crate::layout::{
    compute_options_per_page, lemma_page_bounds, lemma_page_count_is_ceiling, options_per_page,
    RESERVED_ROWS,
};
use crate::nav::{lemma_initial_valid, lemma_step_valid, Nav, Pager};
use crate::render::{content_width, longest, stacked, MenuView};
use crate::text::{num_digs, pad_left, push_decimal, push_repeated, repeated};

verus! {

/// Configuration handed to a menu when it is made. Colors are 8-bit color
/// numbers; those from 0 to 15 vary with the terminal's theme.
pub struct MenuProps<'a> {
    /// Shown above the options. Empty for no title.
    pub title: &'a str,
    /// Shown below the options. Empty for no message.
    pub message: &'a str,
    /// Whether the menu closes as soon as an option is confirmed.
    pub exit_on_action: bool,
    /// Background color of the box.
    pub bg_color: u8,
    /// Color of the text.
    pub fg_color: u8,
    /// Color of the title; the text color where `None`.
    pub title_color: Option<u8>,
    /// Color of the selected option; the text color where `None`.
    pub selected_color: Option<u8>,
    /// Color of the footer message; the text color where `None`.
    pub msg_color: Option<u8>,
}

impl<'a> Default for MenuProps<'a> {
    /// No title, no message, closing on the first confirmed option, white
    /// on gray with a light gray message.
    fn default() -> (props: Self)
        ensures
            props.title@.len() == 0,
            props.message@.len() == 0,
            props.exit_on_action,
            props.bg_color == 8,
            props.fg_color == 15,
            props.title_color is None,
            props.selected_color is None,
            props.msg_color == Some(7u8),
    {
        proof {
            reveal_strlit("");
        }
        MenuProps {
            title: "",
            message: "",
            exit_on_action: true,
            bg_color: 8,
            fg_color: 15,
            title_color: None,
            selected_color: None,
            msg_color: Some(7),
        }
    }
}

/// One entry of a menu: a label and the action that confirming it runs.
pub struct MenuOption<F> {
    pub label: String,
    pub action: F,
}

impl<F> MenuOption<F> {
    /// An option labeled `label` that runs `action`.
    pub fn new(label: &str, action: F) -> (option: Self)
        ensures
            option.label@ == label@,
            option.action == action,
    {
        Self { label: label.to_owned(), action }
    }
}

/// The labels of `options`, in order.
pub open spec fn labels_of<F>(options: Seq<MenuOption<F>>) -> Seq<Seq<char>> {
    Seq::new(options.len(), |i: int| options[i].label@)
}

/// The texts of `strings`, in order.
pub open spec fn texts_of(strings: Seq<String>) -> Seq<Seq<char>> {
    Seq::new(strings.len(), |i: int| strings[i]@)
}

/// The text of an optional string.
pub open spec fn text_of(text: Option<String>) -> Option<Seq<char>> {
    match text {
        Some(s) => Some(s@),
        None => None,
    }
}

/// `text`, or nothing where it is empty.
pub open spec fn non_empty(text: Seq<char>) -> Option<Seq<char>> {
    if text.len() == 0 {
        None
    } else {
        Some(text)
    }
}

/// `color`, or `fallback` where none is given.
pub open spec fn color_or(color: Option<u8>, fallback: u8) -> u8 {
    match color {
        Some(c) => c,
        None => fallback,
    }
}

/// The menu made from `labels` and `props` for a terminal of `rows` rows:
/// colors left open are the text color, the page size fits the terminal,
/// and the first option of the first page is selected.
pub open spec fn initial_view(labels: Seq<Seq<char>>, props: MenuProps<'_>, rows: int)
    -> MenuView {
    MenuView {
        labels,
        title: non_empty(props.title@),
        message: non_empty(props.message@),
        exit_on_action: props.exit_on_action,
        bg_color: props.bg_color,
        fg_color: props.fg_color,
        title_color: color_or(props.title_color, props.fg_color),
        selected_color: color_or(props.selected_color, props.fg_color),
        msg_color: color_or(props.msg_color, props.fg_color),
        nav: Nav::initial(labels.len() as int, options_per_page(rows, labels.len() as int)),
    }
}

/// What the caller of [`Menu::handle_key`] is to do next.
#[derive(Clone, Copy, PartialEq, Eq, Debug, Structural)]
pub enum Outcome {
    /// Draw the menu again and read the next key.
    Continue,
    /// Run the action of the option with this index, draw the menu again
    /// and read the next key.
    Invoke(usize),
    /// Restore the terminal, run the action of the option with this index,
    /// and end the session.
    InvokeAndExit(usize),
    /// Restore the terminal and end the session.
    Exit,
}

impl MenuView {
    /// The menu after `event`: only page and selection can change.
    pub open spec fn step(self, event: Event) -> MenuView {
        MenuView { nav: self.nav.step(event), ..self }
    }

    /// What `event` asks for besides moving the selection: confirming runs
    /// the selected option, and ends the session where the menu is set to
    /// exit on an action; leaving ends it at once.
    pub open spec fn outcome(self, event: Event) -> Outcome {
        match event {
            Event::Confirm => if self.exit_on_action {
                Outcome::InvokeAndExit(self.nav.option as usize)
            } else {
                Outcome::Invoke(self.nav.option as usize)
            },
            Event::Exit => Outcome::Exit,
            _ => Outcome::Continue,
        }
    }

    /// The menu laid out anew for a terminal of `rows` rows, back on its
    /// first option.
    pub open spec fn relaid(self, rows: int) -> MenuView {
        MenuView {
            nav: Nav::initial(self.nav.count, options_per_page(rows, self.nav.count)),
            ..self
        }
    }

    /// The menu on `page`, with that page's first option selected.
    pub open spec fn on_page(self, page: int) -> MenuView {
        MenuView { nav: self.nav.goto(page), ..self }
    }
}

/// A menu made from at least one label is valid.
pub proof fn lemma_initial_view_valid(labels: Seq<Seq<char>>, props: MenuProps<'_>, rows: int)
    requires
        labels.len() >= 1,
    ensures
        initial_view(labels, props, rows).wf(),
{
    lemma_initial_valid(labels.len() as int, options_per_page(rows, labels.len() as int));
}

/// No event leads a valid menu out of the valid states, so the selection
/// stays on the page on display; and an option that an event asks to run
/// is one of the list.
pub proof fn lemma_step_keeps_menu_valid(menu: MenuView, event: Event)
    requires
        menu.wf(),
    ensures
        menu.step(event).wf(),
        menu.step(event).nav.first() <= menu.step(event).nav.option <= menu.step(
            event,
        ).nav.last(),
        menu.outcome(event) matches Outcome::Invoke(index) ==> index < menu.labels.len(),
        menu.outcome(event) matches Outcome::InvokeAndExit(index) ==> index < menu.labels.len(),
{
    lemma_step_valid(menu.nav, event);
    lemma_page_bounds(menu.nav.count, menu.nav.per_page, menu.nav.page);
}

/// Computes the width of the widest text among the labels of `options`,
/// `title` and `message`.
pub fn compute_max_width<F>(
    options: &Vec<MenuOption<F>>,
    title: &str,
    message: &str,
) -> (width: usize)
    ensures
        width == content_width(labels_of(options@), title@, message@),
{
    let ghost labels: Seq<Seq<char>> = labels_of(options@);
    let mut width: usize = 0;
    let mut i: usize = 0;
    while i < options.len()
        invariant
            i <= options.len(),
            labels == labels_of(options@),
            width == longest(labels.take(i as int)),
        decreases options.len() - i,
    {
        let len: usize = options[i].label.as_str().unicode_len();
        proof {
            assert(labels.take(i + 1).drop_last() =~= labels.take(i as int));
            assert(labels.take(i + 1).last() == options@[i as int].label@);
        }
        if len > width {
            width = len;
        }
        i += 1;
    }
    proof {
        assert(labels.take(i as int) =~= labels);
    }
    let title_len: usize = title.unicode_len();
    if title_len > width {
        width = title_len;
    }
    let message_len: usize = message.unicode_len();
    if message_len > width {
        width = message_len;
    }
    width
}

/// A menu: its options, its configuration, and the navigation state of
/// the session.
pub struct Menu<F> {
    labels: Vec<String>,
    actions: Vec<F>,
    title: Option<String>,
    message: Option<String>,
    exit_on_action: bool,
    bg_color: u8,
    fg_color: u8,
    title_color: u8,
    selected_color: u8,
    msg_color: u8,
    max_width: usize,
    pager: Pager,
}

impl<F> View for Menu<F> {
    type V = MenuView;

    closed spec fn view(&self) -> MenuView {
        MenuView {
            labels: texts_of(self.labels@),
            title: text_of(self.title),
            message: text_of(self.message),
            exit_on_action: self.exit_on_action,
            bg_color: self.bg_color,
            fg_color: self.fg_color,
            title_color: self.title_color,
            selected_color: self.selected_color,
            msg_color: self.msg_color,
            nav: self.pager@,
        }
    }
}

impl<F> Menu<F> {
    #[verifier::type_invariant]
    spec fn consistent(self) -> bool {
        &&& self@.wf()
        &&& self.actions.len() == self.labels.len()
        &&& self.max_width == self@.max_width()
        &&& self@.nav.per_page + RESERVED_ROWS <= usize::MAX
    }

    /// The action of option `i`.
    pub closed spec fn action(self, i: int) -> F {
        self.actions[i]
    }

    /// A menu of `options`, configured by `props`, laid out for a terminal
    /// of `term_rows` rows. A menu needs at least one option.
    pub fn new(options: Vec<MenuOption<F>>, props: MenuProps<'_>, term_rows: usize) -> (menu: Self)
        requires
            options.len() >= 1,
        ensures
            menu@ == initial_view(labels_of(options@), props, term_rows as int),
            menu@.wf(),
            forall|i: int| 0 <= i < options.len() ==> menu.action(i) == options[i].action,
            menu@.nav.per_page == options_per_page(term_rows as int, options.len() as int),
            1 <= menu@.nav.per_page <= options.len(),
            1 <= menu@.nav.pages() <= options.len(),
            menu@.nav.pages() * menu@.nav.per_page >= options.len(),
            (menu@.nav.pages() - 1) * menu@.nav.per_page < options.len(),
            menu@.nav.pages() == 1 <==> menu@.nav.per_page == options.len(),
            menu@.nav.page == 0 && menu@.nav.option == 0,
            menu@.nav.first() == 0 && menu@.nav.last() == menu@.nav.per_page - 1,
    {
        proof {
            lemma_page_count_is_ceiling(
                options.len() as int,
                options_per_page(term_rows as int, options.len() as int),
            );
        }
        let max_width: usize = compute_max_width(&options, props.title, props.message);
        let per_page: usize = compute_options_per_page(term_rows, options.len());
        let pager: Pager = Pager::new(options.len(), per_page);
        let mut labels: Vec<String> = Vec::new();
        let mut actions: Vec<F> = Vec::new();
        for option in it: options
            invariant
                labels.len() == it.index(),
                actions.len() == it.index(),
                it.seq() == options@,
                forall|i: int| 0 <= i < it.index() ==> labels[i]@ == options[i].label@,
                forall|i: int| 0 <= i < it.index() ==> actions[i] == options[i].action,
        {
            labels.push(option.label);
            actions.push(option.action);
        }
        proof {
            assert(texts_of(labels@) =~= labels_of(options@));
        }
        let title: Option<String> = if props.title.is_empty() {
            None
        } else {
            Some(props.title.to_owned())
        };
        let message: Option<String> = if props.message.is_empty() {
            None
        } else {
            Some(props.message.to_owned())
        };
        let title_color: u8 = match props.title_color {
            Some(c) => c,
            None => props.fg_color,
        };
        let selected_color: u8 = match props.selected_color {
            Some(c) => c,
            None => props.fg_color,
        };
        let msg_color: u8 = match props.msg_color {
            Some(c) => c,
            None => props.fg_color,
        };
        Menu {
            labels,
            actions,
            title,
            message,
            exit_on_action: props.exit_on_action,
            bg_color: props.bg_color,
            fg_color: props.fg_color,
            title_color,
            selected_color,
            msg_color,
            max_width,
            pager,
        }
    }

    /// Starts a session on a terminal of `term_rows` rows: the page size
    /// is computed anew and the first option of the first page selected.
    pub fn begin_session(&mut self, term_rows: usize)
        ensures
            final(self)@ == old(self)@.relaid(term_rows as int),
            final(self)@.wf(),
            forall|i: int| final(self).action(i) == old(self).action(i),
            final(self)@.nav.first() == 0,
            final(self)@.nav.last() == final(self)@.nav.per_page - 1,
    {
        proof {
            use_type_invariant(&*self);
        }
        let per_page: usize = compute_options_per_page(term_rows, self.labels.len());
        self.pager = Pager::new(self.labels.len(), per_page);
    }

    /// Shows `page` and selects its first option.
    pub fn set_page(&mut self, page: usize)
        requires
            page < old(self)@.nav.pages(),
        ensures
            final(self)@ == old(self)@.on_page(page as int),
            final(self)@.wf(),
            forall|i: int| final(self).action(i) == old(self).action(i),
    {
        proof {
            use_type_invariant(&*self);
        }
        let mut pager: Pager = self.pager;
        pager.set_page(page);
        self.pager = pager;
    }

    /// Reacts to one key: moves the selection as the key asks and says
    /// what the caller is to do next. An option to run is always one of
    /// the list.
    pub fn handle_key(&mut self, key: Key) -> (outcome: Outcome)
        ensures
            final(self)@ == old(self)@.step(key.event_spec()),
            outcome == old(self)@.outcome(key.event_spec()),
            final(self)@.wf(),
            forall|i: int| final(self).action(i) == old(self).action(i),
            match outcome {
                Outcome::Invoke(index) => index < final(self)@.labels.len(),
                Outcome::InvokeAndExit(index) => index < final(self)@.labels.len(),
                _ => true,
            },
    {
        proof {
            use_type_invariant(&*self);
            lemma_page_bounds(
                self@.nav.count,
                self@.nav.per_page,
                self@.nav.page,
            );
        }
        let event: Event = key.event();
        let mut pager: Pager = self.pager;
        pager.apply(event);
        self.pager = pager;
        match event {
            Event::Confirm => {
                if self.exit_on_action {
                    Outcome::InvokeAndExit(self.pager.selected_option())
                } else {
                    Outcome::Invoke(self.pager.selected_option())
                }
            },
            Event::Exit => Outcome::Exit,
            _ => Outcome::Continue,
        }
    }

    /// The action of the option with this index, to run it.
    pub fn action_mut(&mut self, index: usize) -> (action: &mut F)
        requires
            index < old(self)@.labels.len(),
        ensures
            *action == old(self).action(index as int),
            final(self).action(index as int) == *final(action),
            forall|i: int|
                0 <= i < old(self)@.labels.len() && i != index ==> final(self).action(i) == old(
                    self,
                ).action(i),
            final(self)@ == old(self)@,
    {
        proof {
            use_type_invariant(&*self);
        }
        &mut self.actions[index]
    }
}

impl<F> Menu<F> {
    /// Number of options.
    pub fn option_count(&self) -> (n: usize)
        ensures
            n == self@.labels.len(),
            n == self@.nav.count,
            self@.wf(),
    {
        proof {
            use_type_invariant(self);
        }
        self.labels.len()
    }

    /// Label of the option with this index.
    pub fn label(&self, index: usize) -> (label: &str)
        requires
            index < self@.labels.len(),
        ensures
            label@ == self@.labels[index as int],
            self@.wf(),
    {
        proof {
            use_type_invariant(self);
        }
        self.labels[index].as_str()
    }

    /// Whether confirming an option ends the session.
    pub fn exit_on_action(&self) -> (flag: bool)
        ensures
            flag == self@.exit_on_action,
            self@.wf(),
    {
        proof {
            use_type_invariant(self);
        }
        self.exit_on_action
    }

    /// Index of the selected option.
    pub fn selected_option(&self) -> (n: usize)
        ensures
            n == self@.nav.option,
            self@.wf(),
    {
        proof {
            use_type_invariant(self);
        }
        self.pager.selected_option()
    }

    /// Index of the page on display.
    pub fn selected_page(&self) -> (n: usize)
        ensures
            n == self@.nav.page,
            self@.wf(),
    {
        proof {
            use_type_invariant(self);
        }
        self.pager.selected_page()
    }

    /// Options shown per page.
    pub fn options_per_page(&self) -> (n: usize)
        ensures
            n == self@.nav.per_page,
            self@.wf(),
    {
        proof {
            use_type_invariant(self);
        }
        self.pager.options_per_page()
    }

    /// Number of pages.
    pub fn num_pages(&self) -> (n: usize)
        ensures
            n == self@.nav.pages(),
            self@.wf(),
    {
        proof {
            use_type_invariant(self);
        }
        self.pager.num_pages()
    }

    /// First option of the page on display.
    pub fn page_start(&self) -> (n: usize)
        ensures
            n == self@.nav.first(),
            self@.wf(),
    {
        proof {
            use_type_invariant(self);
        }
        self.pager.page_start()
    }

    /// Last option of the page on display.
    pub fn page_end(&self) -> (n: usize)
        ensures
            n == self@.nav.last(),
            self@.wf(),
    {
        proof {
            use_type_invariant(self);
        }
        self.pager.page_end()
    }

    /// Width of the widest text shown.
    pub fn max_width(&self) -> (n: usize)
        ensures
            n == self@.max_width(),
            self@.wf(),
    {
        proof {
            use_type_invariant(self);
        }
        self.max_width
    }

    /// `s` in bold.
    pub fn apply_bold(&self, s: &str) -> (out: String)
        ensures
            out@ == bold(s@),
    {
        proof {
            reveal_strlit("\x1b[1m");
            reveal_strlit("\x1b[22m");
        }
        let mut out: String = String::from_str("\x1b[1m");
        out.append(s);
        out.append("\x1b[22m");
        assert(out@ =~= bold(s@));
        out
    }

    /// `s` underlined.
    pub fn apply_underline(&self, s: &str) -> (out: String)
        ensures
            out@ == underlined(s@),
    {
        proof {
            reveal_strlit("\x1b[4m");
            reveal_strlit("\x1b[24m");
        }
        let mut out: String = String::from_str("\x1b[4m");
        out.append(s);
        out.append("\x1b[24m");
        assert(out@ =~= underlined(s@));
        out
    }

    /// `s` in the color `color`, with the menu's text color set again
    /// behind it.
    pub fn switch_fg(&self, s: &str, color: u8) -> (out: String)
        ensures
            out@ == fg_switched(s@, color, self@.fg_color),
    {
        let mut out: String = String::new();
        push_fg(&mut out, color);
        out.append(s);
        push_fg(&mut out, self.fg_color);
        assert(out@ =~= fg_switched(s@, color, self@.fg_color));
        out
    }

    /// `s` behind a margin of two blanks, left-aligned in a field four
    /// wider than `width`, on the menu's background color.
    pub fn apply_bg(&self, s: &str, width: usize) -> (out: String)
        ensures
            out@ == bg_field(s@, width as int, self@.bg_color),
    {
        fill_field(s, width, s.unicode_len(), self.bg_color)
    }

    /// `s` in a field of the box's width, where `decoration` of its
    /// characters are control characters and take no room.
    fn apply_box(&self, s: &str, decoration: usize) -> (out: String)
        requires
            decoration <= s@.len(),
        ensures
            out@ == bg_field(s@, self@.max_width() + decoration, self@.bg_color),
    {
        proof {
            use_type_invariant(self);
        }
        fill_field(s, self.max_width, s.unicode_len() - decoration, self.bg_color)
    }

    /// The page indicator's text.
    fn page_text(&self) -> (out: String)
        ensures
            out@ == self@.page_text(),
    {
        proof {
            use_type_invariant(self);
            reveal_strlit("Page ");
            reveal_strlit(" of ");
        }
        let mut out: String = String::from_str("Page ");
        push_decimal(&mut out, self.pager.selected_page() + 1);
        out.append(" of ");
        push_decimal(&mut out, self.pager.num_pages());
        assert(out@ =~= self@.page_text());
        out
    }

    /// The line of the option with this index.
    fn option_line(&self, index: usize) -> (out: String)
        requires
            index < self@.labels.len(),
        ensures
            out@ == self@.option_line(index as int),
    {
        proof {
            use_type_invariant(self);
        }
        let label: &str = self.labels[index].as_str();
        if index == self.pager.selected_option() {
            let decoration: usize = 25 + num_digs(self.fg_color) + num_digs(self.selected_color);
            let text: String = self.switch_fg(
                self.apply_bold(label).as_str(),
                self.selected_color,
            );
            self.apply_box(text.as_str(), decoration)
        } else {
            self.apply_bg(label, self.max_width)
        }
    }

    /// The lines of the box for the current state, from top to bottom.
    pub fn content_lines(&self) -> (lines: Vec<String>)
        ensures
            texts_of(lines@) == self@.lines(),
            self@.wf(),
    {
        proof {
            use_type_invariant(self);
            lemma_page_bounds(self@.nav.count, self@.nav.per_page, self@.nav.page);
            reveal_strlit("");
        }
        let mut lines: Vec<String> = Vec::new();
        lines.push(self.apply_bg("", self.max_width));
        if let Some(title) = &self.title {
            let decoration: usize = 34 + num_digs(self.fg_color) + num_digs(self.title_color);
            let text: String = self.switch_fg(
                self.apply_underline(self.apply_bold(title.as_str()).as_str()).as_str(),
                self.title_color,
            );
            lines.push(self.apply_box(text.as_str(), decoration));
            lines.push(self.apply_bg("", self.max_width));
        }
        let ghost head: Seq<Seq<char>> = seq![self@.blank_line()] + self@.title_block();
        assert(texts_of(lines@) =~= head);
        let first: usize = self.pager.page_start();
        let last: usize = self.pager.page_end();
        let mut index: usize = first;
        while index <= last
            invariant
                first <= index <= last + 1,
                first == self@.nav.first(),
                last == self@.nav.last(),
                last < self.labels.len(),
                self.labels.len() == self@.labels.len(),
                texts_of(lines@) == head + self@.option_block().take(index - first),
            decreases last + 1 - index,
        {
            let ghost before: Seq<Seq<char>> = texts_of(lines@);
            let line: String = self.option_line(index);
            lines.push(line);
            proof {
                let block: Seq<Seq<char>> = self@.option_block();
                let k: int = index - first;
                assert(block.len() == last - first + 1);
                assert(block[k] == self@.option_line(index as int));
                assert(block.take(k + 1) =~= block.take(k).push(block[k]));
                assert(texts_of(lines@) =~= before.push(line@));
                assert(texts_of(lines@) =~= head + block.take(k + 1));
            }
            index += 1;
        }
        assert(self@.option_block().take(index - first) =~= self@.option_block());
        if self.pager.num_pages() > 1 {
            lines.push(self.apply_bg(self.page_text().as_str(), self.max_width));
        }
        assert(texts_of(lines@) =~= head + self@.option_block() + self@.page_block());
        if let Some(message) = &self.message {
            let field: String = self.apply_bg(message.as_str(), self.max_width);
            lines.push(self.switch_fg(field.as_str(), self.msg_color));
        }
        assert(texts_of(lines@) =~= head + self@.option_block() + self@.page_block()
            + self@.message_block());
        lines.push(self.apply_bg("", self.max_width));
        assert(texts_of(lines@) =~= self@.lines());
        lines
    }

    /// The whole frame for the current state on a terminal of `term_rows`
    /// by `term_cols`. The same state and terminal give the same frame.
    pub fn draw(&self, term_rows: usize, term_cols: usize) -> (frame: String)
        ensures
            frame@ == self@.frame(term_rows as int, term_cols as int),
            self@.wf(),
    {
        proof {
            use_type_invariant(self);
            reveal_strlit("\x1b[H\x1b[J\x1b[H");
            reveal_strlit("\n");
            reveal_strlit("\x1b[39m");
        }
        let mut extra_lines: usize = 2;
        if self.title.is_some() {
            extra_lines += 2;
        }
        if self.message.is_some() {
            extra_lines += 1;
        }
        let half_width: usize = self.max_width / 2 + 2;
        let indent: usize = if term_cols / 2 > half_width {
            term_cols / 2 - half_width
        } else {
            0
        };
        let half_height: usize = (self.pager.options_per_page() + extra_lines) / 2;
        let vertical_pad: usize = if term_rows / 2 > half_height {
            term_rows / 2 - half_height
        } else {
            0
        };
        let indent_str: String = pad_left(String::new(), indent);
        assert(indent_str@ =~= repeated(' ', indent as int));
        let lines: Vec<String> = self.content_lines();

        let mut frame: String = String::from_str("\x1b[H\x1b[J\x1b[H");
        push_repeated(&mut frame, "\n", vertical_pad);
        push_fg(&mut frame, self.fg_color);
        let ghost head: Seq<char> = frame@;
        let ghost all: Seq<Seq<char>> = texts_of(lines@);
        assert(head =~= clear_screen_seq() + repeated('\n', self@.vertical_pad(term_rows as int))
            + fg_set(self@.fg_color));
        let mut i: usize = 0;
        while i < lines.len()
            invariant
                i <= lines.len(),
                all == texts_of(lines@),
                indent_str@ == repeated(' ', indent as int),
                frame@ == head + stacked(all.take(i as int), indent as int),
            decreases lines.len() - i,
        {
            proof {
                reveal_strlit("\n");
            }
            frame.append(indent_str.as_str());
            frame.append(lines[i].as_str());
            frame.append("\n");
            proof {
                assert(all.take(i + 1).drop_last() =~= all.take(i as int));
                assert(all.take(i + 1).last() == lines@[i as int]@);
                assert(frame@ =~= head + stacked(all.take(i + 1), indent as int));
            }
            i += 1;
        }
        assert(all.take(i as int) =~= all);
        frame.append("\x1b[39m");
        assert(frame@ =~= self@.frame(term_rows as int, term_cols as int));
        frame
    }
}

} // verus!
