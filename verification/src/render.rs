//! What a menu looks like: its state as plain values, the lines of the box
//! drawn for that state, and the whole frame written to the terminal.

use vstd::prelude::*;
use crate::ansi::{
    bg_field, bold, clear_screen_seq, complete, esc, fg_reset, fg_set, fg_switched,
    lemma_bg_field_visible, lemma_bold_visible, lemma_fg_switched_visible, lemma_plain_visible,
    lemma_underlined_visible, plain, underlined, visible,
};
use crate::layout::lemma_page_bounds;
use crate::nav::Nav;
use crate::text::{decimal, is_digit, lemma_decimal_shape, pad_right_spec, repeated};

verus! {

/// Length of the longest of `texts`; zero where there is none.
pub open spec fn longest(texts: Seq<Seq<char>>) -> nat
    decreases texts.len(),
{
    if texts.len() == 0 {
        0
    } else if longest(texts.drop_last()) >= texts.last().len() {
        longest(texts.drop_last())
    } else {
        texts.last().len()
    }
}

/// The larger of two numbers.
pub open spec fn larger(a: int, b: int) -> int {
    if a >= b {
        a
    } else {
        b
    }
}

/// Width of the widest text a menu shows: the longest of all labels, the
/// title and the footer message, counted in characters.
pub open spec fn content_width(labels: Seq<Seq<char>>, title: Seq<char>, message: Seq<char>)
    -> int {
    larger(larger(longest(labels) as int, title.len() as int), message.len() as int)
}

/// `lines` one below the other, each behind `indent` blanks and ended by a
/// line feed.
pub open spec fn stacked(lines: Seq<Seq<char>>, indent: int) -> Seq<char>
    decreases lines.len(),
{
    if lines.len() == 0 {
        Seq::empty()
    } else {
        stacked(lines.drop_last(), indent) + repeated(' ', indent) + lines.last() + seq!['\n']
    }
}

/// The words "Page " and " of " of the page indicator.
pub open spec fn page_word() -> Seq<char> {
    seq!['P', 'a', 'g', 'e', ' ']
}

pub open spec fn of_word() -> Seq<char> {
    seq![' ', 'o', 'f', ' ']
}

/// A menu as plain values: what it shows, in which colors, and where the
/// selection stands.
pub struct MenuView {
    /// Labels of the options, in order.
    pub labels: Seq<Seq<char>>,
    /// Title above the options, if any.
    pub title: Option<Seq<char>>,
    /// Footer message below the options, if any.
    pub message: Option<Seq<char>>,
    /// Whether confirming an option ends the session.
    pub exit_on_action: bool,
    pub bg_color: u8,
    pub fg_color: u8,
    pub title_color: u8,
    pub selected_color: u8,
    pub msg_color: u8,
    /// Page and selection.
    pub nav: Nav,
}

impl MenuView {
    /// A valid menu: a valid navigation state over exactly its options,
    /// and no title or message that is present but empty.
    pub open spec fn wf(self) -> bool {
        &&& self.nav.wf()
        &&& self.nav.count == self.labels.len()
        &&& (self.title matches Some(t) ==> t.len() > 0)
        &&& (self.message matches Some(m) ==> m.len() > 0)
    }

    /// Width of the widest text shown.
    pub open spec fn max_width(self) -> int {
        content_width(
            self.labels,
            match self.title {
                Some(t) => t,
                None => Seq::empty(),
            },
            match self.message {
                Some(m) => m,
                None => Seq::empty(),
            },
        )
    }

    /// Lines of the box besides the options and the page indicator: the
    /// two bars, two for a title and the bar below it, one for a message.
    pub open spec fn extra_lines(self) -> int {
        2 + (if self.title is Some { 2int } else { 0int }) + (if self.message is Some {
            1int
        } else {
            0int
        })
    }

    /// Blanks in front of each line, which center the box on a terminal
    /// `cols` columns wide; none where the box is wider than that.
    pub open spec fn indent(self, cols: int) -> int {
        larger(cols / 2 - (self.max_width() + 4) / 2, 0)
    }

    /// Empty lines above the box, which center it on a terminal of `rows`
    /// rows; none where the box is higher than that.
    pub open spec fn vertical_pad(self, rows: int) -> int {
        larger(rows / 2 - (self.nav.per_page + self.extra_lines()) / 2, 0)
    }

    /// A bar of background color as wide as the box.
    pub open spec fn blank_line(self) -> Seq<char> {
        bg_field(Seq::empty(), self.max_width(), self.bg_color)
    }

    /// Control characters around the title: bold, underline and two color
    /// switches.
    pub open spec fn title_decoration(self) -> int {
        34int + decimal(self.fg_color as nat).len() + decimal(self.title_color as nat).len()
    }

    /// Control characters around the selected option: bold and two color
    /// switches.
    pub open spec fn selected_decoration(self) -> int {
        25int + decimal(self.fg_color as nat).len() + decimal(self.selected_color as nat).len()
    }

    /// The title, bold and underlined in its color. The field is widened
    /// by the control characters, so that what shows stays as wide as the
    /// box.
    pub open spec fn title_line(self, title: Seq<char>) -> Seq<char> {
        bg_field(
            fg_switched(underlined(bold(title)), self.title_color, self.fg_color),
            self.max_width() + self.title_decoration(),
            self.bg_color,
        )
    }

    /// The line of option `index`: the bare label, or bold and in the
    /// selection color where the option is selected.
    pub open spec fn option_line(self, index: int) -> Seq<char> {
        if index == self.nav.option {
            bg_field(
                fg_switched(bold(self.labels[index]), self.selected_color, self.fg_color),
                self.max_width() + self.selected_decoration(),
                self.bg_color,
            )
        } else {
            bg_field(self.labels[index], self.max_width(), self.bg_color)
        }
    }

    /// "Page 2 of 3": pages counted from one.
    pub open spec fn page_text(self) -> Seq<char> {
        page_word() + decimal((self.nav.page + 1) as nat) + of_word() + decimal(
            self.nav.pages() as nat,
        )
    }

    /// The line of the page indicator.
    pub open spec fn page_line(self) -> Seq<char> {
        bg_field(self.page_text(), self.max_width(), self.bg_color)
    }

    /// The footer message in its color.
    pub open spec fn message_line(self, message: Seq<char>) -> Seq<char> {
        fg_switched(
            bg_field(message, self.max_width(), self.bg_color),
            self.msg_color,
            self.fg_color,
        )
    }

    /// The title and the bar below it; nothing without a title.
    pub open spec fn title_block(self) -> Seq<Seq<char>> {
        match self.title {
            Some(t) => seq![self.title_line(t), self.blank_line()],
            None => Seq::empty(),
        }
    }

    /// One line for each option of the page on display.
    pub open spec fn option_block(self) -> Seq<Seq<char>> {
        Seq::new(
            (self.nav.last() - self.nav.first() + 1) as nat,
            |k: int| self.option_line(self.nav.first() + k),
        )
    }

    /// The page indicator, shown only where there is more than one page.
    pub open spec fn page_block(self) -> Seq<Seq<char>> {
        if self.nav.pages() > 1 {
            seq![self.page_line()]
        } else {
            Seq::empty()
        }
    }

    /// The footer message; nothing without a message.
    pub open spec fn message_block(self) -> Seq<Seq<char>> {
        match self.message {
            Some(m) => seq![self.message_line(m)],
            None => Seq::empty(),
        }
    }

    /// The lines of the box from top to bottom: a bar, the title block, the
    /// options, the page indicator, the message block, a bar.
    pub open spec fn lines(self) -> Seq<Seq<char>> {
        seq![self.blank_line()] + self.title_block() + self.option_block() + self.page_block()
            + self.message_block() + seq![self.blank_line()]
    }

    /// Everything written for one frame on a terminal of `rows` by `cols`:
    /// the screen is cleared, the box is centered and drawn in the
    /// foreground color, and the terminal's own foreground is put back.
    pub open spec fn frame(self, rows: int, cols: int) -> Seq<char> {
        clear_screen_seq() + repeated('\n', self.vertical_pad(rows)) + fg_set(self.fg_color)
            + stacked(self.lines(), self.indent(cols)) + fg_reset()
    }
}

/// The longest text is at least as long as each of the texts, and as long
/// as one of them where there is any.
pub proof fn lemma_longest_bounds(texts: Seq<Seq<char>>)
    ensures
        forall|i: int| 0 <= i < texts.len() ==> (#[trigger] texts[i]).len() <= longest(texts),
        texts.len() > 0 ==> exists|i: int|
            0 <= i < texts.len() && (#[trigger] texts[i]).len() == longest(texts),
        texts.len() == 0 ==> longest(texts) == 0,
    decreases texts.len(),
{
    if texts.len() > 0 {
        let front: Seq<Seq<char>> = texts.drop_last();
        lemma_longest_bounds(front);
        assert forall|i: int| 0 <= i < texts.len() implies (#[trigger] texts[i]).len() <= longest(
            texts,
        ) by {
            if i < front.len() {
                assert(front[i] == texts[i]);
            }
        }
        if longest(front) >= texts.last().len() && front.len() > 0 {
            let w: int = choose|i: int|
                0 <= i < front.len() && (#[trigger] front[i]).len() == longest(front);
            assert(texts[w] == front[w]);
        } else {
            assert(texts[texts.len() - 1].len() == longest(texts));
        }
    }
}

/// What a line of the box shows of `text`: a margin of two blanks, the
/// text, and blanks up to four more than `width`.
pub open spec fn boxed(text: Seq<char>, width: int) -> Seq<char> {
    pad_right_spec(seq![' ', ' '] + text, width + 4)
}

impl MenuView {
    /// Whether no label, title or message holds an escape character.
    pub open spec fn plain_texts(self) -> bool {
        &&& forall|i: int| 0 <= i < self.labels.len() ==> plain(#[trigger] self.labels[i])
        &&& (self.title matches Some(t) ==> plain(t))
        &&& (self.message matches Some(m) ==> plain(m))
    }
}

/// No label, title or message is wider than the width computed for them.
pub proof fn lemma_texts_fit(menu: MenuView)
    ensures
        forall|i: int|
            0 <= i < menu.labels.len() ==> (#[trigger] menu.labels[i]).len() <= menu.max_width(),
        menu.title matches Some(t) ==> t.len() <= menu.max_width(),
        menu.message matches Some(m) ==> m.len() <= menu.max_width(),
        menu.max_width() >= 0,
{
    lemma_longest_bounds(menu.labels);
}

/// A bar shows only blanks, as wide as the box.
pub proof fn lemma_blank_line_shows(menu: MenuView)
    ensures
        visible(menu.blank_line()) == boxed(Seq::empty(), menu.max_width()),
        visible(menu.blank_line()).len() == menu.max_width() + 4,
        complete(menu.blank_line()),
{
    lemma_texts_fit(menu);
    let none: Seq<char> = Seq::empty();
    lemma_plain_visible(none);
    lemma_bg_field_visible(none, menu.max_width(), menu.bg_color);
    assert(visible(menu.blank_line()) =~= boxed(none, menu.max_width()));
}

/// The title line shows the title in the box, as wide as the box, whatever
/// the colors.
pub proof fn lemma_title_line_shows(menu: MenuView, title: Seq<char>)
    requires
        menu.title == Some(title),
        plain(title),
    ensures
        visible(menu.title_line(title)) == boxed(title, menu.max_width()),
        visible(menu.title_line(title)).len() == menu.max_width() + 4,
        complete(menu.title_line(title)),
{
    lemma_texts_fit(menu);
    lemma_plain_visible(title);
    lemma_bold_visible(title);
    lemma_underlined_visible(bold(title));
    lemma_fg_switched_visible(underlined(bold(title)), menu.title_color, menu.fg_color);
    let text: Seq<char> = fg_switched(underlined(bold(title)), menu.title_color, menu.fg_color);
    lemma_decimal_shape(menu.title_color as nat);
    lemma_decimal_shape(menu.fg_color as nat);
    lemma_bg_field_visible(text, menu.max_width() + menu.title_decoration(), menu.bg_color);
    assert(visible(menu.title_line(title)) =~= boxed(title, menu.max_width()));
}

/// An option's line shows its label in the box, as wide as the box,
/// selected or not.
pub proof fn lemma_option_line_shows(menu: MenuView, index: int)
    requires
        0 <= index < menu.labels.len(),
        plain(menu.labels[index]),
    ensures
        visible(menu.option_line(index)) == boxed(menu.labels[index], menu.max_width()),
        visible(menu.option_line(index)).len() == menu.max_width() + 4,
        complete(menu.option_line(index)),
{
    lemma_texts_fit(menu);
    let label: Seq<char> = menu.labels[index];
    lemma_plain_visible(label);
    if index == menu.nav.option {
        lemma_bold_visible(label);
        lemma_fg_switched_visible(bold(label), menu.selected_color, menu.fg_color);
        let text: Seq<char> = fg_switched(bold(label), menu.selected_color, menu.fg_color);
        lemma_bg_field_visible(
            text,
            menu.max_width() + menu.selected_decoration(),
            menu.bg_color,
        );
    } else {
        lemma_bg_field_visible(label, menu.max_width(), menu.bg_color);
    }
    assert(visible(menu.option_line(index)) =~= boxed(label, menu.max_width()));
}

/// The page indicator is plain text.
pub proof fn lemma_page_text_plain(menu: MenuView)
    ensures
        plain(menu.page_text()),
{
    let current: Seq<char> = decimal((menu.nav.page + 1) as nat);
    let total: Seq<char> = decimal(menu.nav.pages() as nat);
    lemma_decimal_shape((menu.nav.page + 1) as nat);
    lemma_decimal_shape(menu.nav.pages() as nat);
    assert forall|i: int| 0 <= i < menu.page_text().len() implies menu.page_text()[i]
        != esc() by {
        if i < 5 {
        } else if i < 5 + current.len() {
            assert(menu.page_text()[i] == current[i - 5]);
            assert(is_digit(current[i - 5]));
        } else if i < 5 + current.len() + 4 {
            assert(menu.page_text()[i] == of_word()[i - 5 - current.len()]);
        } else {
            assert(menu.page_text()[i] == total[i - 9 - current.len()]);
            assert(is_digit(total[i - 9 - current.len()]));
        }
    }
}

/// The page indicator's line shows its text in the box; it is as wide as
/// the box where the text leaves room for the margin.
pub proof fn lemma_page_line_shows(menu: MenuView)
    ensures
        visible(menu.page_line()) == boxed(menu.page_text(), menu.max_width()),
        menu.page_text().len() <= menu.max_width() + 2 ==> visible(menu.page_line()).len()
            == menu.max_width() + 4,
        menu.page_text().len() > menu.max_width() + 2 ==> visible(menu.page_line()).len()
            == menu.page_text().len() + 2,
        complete(menu.page_line()),
{
    lemma_page_text_plain(menu);
    lemma_plain_visible(menu.page_text());
    lemma_bg_field_visible(menu.page_text(), menu.max_width(), menu.bg_color);
    assert(visible(menu.page_line()) =~= boxed(menu.page_text(), menu.max_width()));
}

/// The message line shows the message in the box, as wide as the box,
/// whatever the colors.
pub proof fn lemma_message_line_shows(menu: MenuView, message: Seq<char>)
    requires
        menu.message == Some(message),
        plain(message),
    ensures
        visible(menu.message_line(message)) == boxed(message, menu.max_width()),
        visible(menu.message_line(message)).len() == menu.max_width() + 4,
        complete(menu.message_line(message)),
{
    lemma_texts_fit(menu);
    lemma_plain_visible(message);
    lemma_bg_field_visible(message, menu.max_width(), menu.bg_color);
    lemma_fg_switched_visible(
        bg_field(message, menu.max_width(), menu.bg_color),
        menu.msg_color,
        menu.fg_color,
    );
    assert(visible(menu.message_line(message)) =~= boxed(message, menu.max_width()));
}

/// With the control sequences taken out, every line of the box is four
/// characters wider than the widest text, whatever decoration it carries.
/// This holds of menus whose texts hold no escape character, and of the
/// page indicator only where its text is at most two characters wider than
/// the widest text.
pub proof fn lemma_lines_fill_box(menu: MenuView, i: int)
    requires
        menu.wf(),
        menu.plain_texts(),
        0 <= i < menu.lines().len(),
        menu.lines()[i] == menu.page_line() ==> menu.page_text().len() <= menu.max_width() + 2,
    ensures
        visible(menu.lines()[i]).len() == menu.max_width() + 4,
        complete(menu.lines()[i]),
{
    lemma_page_bounds(menu.nav.count, menu.nav.per_page, menu.nav.page);
    lemma_blank_line_shows(menu);
    lemma_page_line_shows(menu);
    let titles: Seq<Seq<char>> = menu.title_block();
    let options: Seq<Seq<char>> = menu.option_block();
    let pages: Seq<Seq<char>> = menu.page_block();
    let messages: Seq<Seq<char>> = menu.message_block();
    let a: int = 1;
    let b: int = a + titles.len();
    let c: int = b + options.len();
    let d: int = c + pages.len();
    let e: int = d + messages.len();
    assert(menu.lines().len() == e + 1);
    if i < a {
        assert(menu.lines()[i] == menu.blank_line());
    } else if i < b {
        assert(menu.lines()[i] == titles[i - a]);
        let title: Seq<char> = menu.title->Some_0;
        lemma_title_line_shows(menu, title);
    } else if i < c {
        assert(menu.lines()[i] == options[i - b]);
        lemma_option_line_shows(menu, menu.nav.first() + (i - b));
    } else if i < d {
        assert(menu.lines()[i] == pages[i - c]);
    } else if i < e {
        assert(menu.lines()[i] == messages[i - d]);
        let message: Seq<char> = menu.message->Some_0;
        lemma_message_line_shows(menu, message);
    } else {
        assert(menu.lines()[i] == menu.blank_line());
    }
}

} // verus!
