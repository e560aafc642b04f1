//! Terminal control sequences: the ones the menu writes, what text looks
//! like wrapped in them, and what remains visible once they are taken out.

use vstd::prelude::*;
use crate::text::{
    decimal, is_digit, lemma_decimal_shape, pad_right_spec, push_decimal, push_repeated, repeated,
};

verus! {

/// The escape character, which opens every control sequence.
pub open spec fn esc() -> char {
    '\x1b'
}

/// Clears the screen and homes the cursor.
pub open spec fn clear_screen_seq() -> Seq<char> {
    seq!['\x1b', '[', 'H', '\x1b', '[', 'J', '\x1b', '[', 'H']
}

/// Switches bold on.
pub open spec fn bold_on() -> Seq<char> {
    seq!['\x1b', '[', '1', 'm']
}

/// Switches bold off.
pub open spec fn bold_off() -> Seq<char> {
    seq!['\x1b', '[', '2', '2', 'm']
}

/// Switches underlining on.
pub open spec fn underline_on() -> Seq<char> {
    seq!['\x1b', '[', '4', 'm']
}

/// Switches underlining off.
pub open spec fn underline_off() -> Seq<char> {
    seq!['\x1b', '[', '2', '4', 'm']
}

/// The opening of a sequence that picks a foreground color by number.
pub open spec fn fg_prefix() -> Seq<char> {
    seq!['\x1b', '[', '3', '8', ';', '5', ';']
}

/// The opening of a sequence that picks a background color by number.
pub open spec fn bg_prefix() -> Seq<char> {
    seq!['\x1b', '[', '4', '8', ';', '5', ';']
}

/// Sets the foreground to the 8-bit color `color`.
pub open spec fn fg_set(color: u8) -> Seq<char> {
    fg_prefix() + decimal(color as nat) + seq!['m']
}

/// Sets the background to the 8-bit color `color`.
pub open spec fn bg_set(color: u8) -> Seq<char> {
    bg_prefix() + decimal(color as nat) + seq!['m']
}

/// Puts the foreground back to the terminal's default.
pub open spec fn fg_reset() -> Seq<char> {
    seq!['\x1b', '[', '3', '9', 'm']
}

/// Puts the background back to the terminal's default.
pub open spec fn bg_reset() -> Seq<char> {
    seq!['\x1b', '[', '4', '9', 'm']
}

/// `s` in bold.
pub open spec fn bold(s: Seq<char>) -> Seq<char> {
    bold_on() + s + bold_off()
}

/// `s` underlined.
pub open spec fn underlined(s: Seq<char>) -> Seq<char> {
    underline_on() + s + underline_off()
}

/// `s` in the foreground color `color`, with the color `restore` set again
/// behind it.
pub open spec fn fg_switched(s: Seq<char>, color: u8, restore: u8) -> Seq<char> {
    fg_set(color) + s + fg_set(restore)
}

/// `s` behind a margin of two blanks, left-aligned in a field four wider
/// than `width`, on the background color `bg`.
pub open spec fn bg_field(s: Seq<char>, width: int, bg: u8) -> Seq<char> {
    bg_set(bg) + pad_right_spec(seq![' ', ' '] + s, width + 4) + bg_reset()
}

/// Whether `c` is a letter of the basic Latin alphabet; such a letter ends
/// a control sequence.
pub open spec fn is_letter(c: char) -> bool {
    ('a' <= c <= 'z') || ('A' <= c <= 'Z')
}

/// What a terminal shows of `s`: every control sequence, from its escape
/// character to the first letter behind it, is left out. `inside` says
/// whether `s` begins within such a sequence.
pub open spec fn visible_from(inside: bool, s: Seq<char>) -> Seq<char>
    decreases s.len(),
{
    if s.len() == 0 {
        Seq::empty()
    } else if inside {
        visible_from(!is_letter(s[0]), s.drop_first())
    } else if s[0] == esc() {
        visible_from(true, s.drop_first())
    } else {
        seq![s[0]] + visible_from(false, s.drop_first())
    }
}

/// Whether the end of `s` lies within a control sequence.
pub open spec fn inside_after(inside: bool, s: Seq<char>) -> bool
    decreases s.len(),
{
    if s.len() == 0 {
        inside
    } else if inside {
        inside_after(!is_letter(s[0]), s.drop_first())
    } else {
        inside_after(s[0] == esc(), s.drop_first())
    }
}

/// The visible text of `s`, read from outside any control sequence.
pub open spec fn visible(s: Seq<char>) -> Seq<char> {
    visible_from(false, s)
}

/// Whether every control sequence begun in `s` also ends in it.
pub open spec fn complete(s: Seq<char>) -> bool {
    !inside_after(false, s)
}

/// Text without an escape character.
pub open spec fn plain(s: Seq<char>) -> bool {
    forall|i: int| 0 <= i < s.len() ==> s[i] != esc()
}

/// Text that shows nothing and leaves no control sequence open.
pub open spec fn invisible(s: Seq<char>) -> bool {
    visible(s) == Seq::<char>::empty() && complete(s)
}

/// Reading `a + b` is reading `a` and then `b` from where `a` ended.
pub proof fn lemma_visible_concat(inside: bool, a: Seq<char>, b: Seq<char>)
    ensures
        visible_from(inside, a + b) == visible_from(inside, a) + visible_from(
            inside_after(inside, a),
            b,
        ),
        inside_after(inside, a + b) == inside_after(inside_after(inside, a), b),
    decreases a.len(),
{
    if a.len() == 0 {
        assert(a + b =~= b);
        assert(visible_from(inside, a) + visible_from(inside, b) =~= visible_from(inside, b));
    } else {
        assert((a + b).drop_first() =~= a.drop_first() + b);
        assert((a + b)[0] == a[0]);
        let next: bool = if inside {
            !is_letter(a[0])
        } else {
            a[0] == esc()
        };
        lemma_visible_concat(next, a.drop_first(), b);
        if !inside && a[0] != esc() {
            assert(seq![a[0]] + (visible_from(false, a.drop_first()) + visible_from(
                inside_after(false, a.drop_first()),
                b,
            )) =~= (seq![a[0]] + visible_from(false, a.drop_first())) + visible_from(
                inside_after(false, a.drop_first()),
                b,
            ));
        }
    }
}

/// Behind a complete text, what follows is read from outside any control
/// sequence: the visible texts join, and the whole is complete where the
/// second part is.
pub proof fn lemma_visible_join(a: Seq<char>, b: Seq<char>)
    requires
        complete(a),
    ensures
        visible(a + b) == visible(a) + visible(b),
        complete(a + b) == complete(b),
{
    lemma_visible_concat(false, a, b);
}

/// Plain text is shown as it is.
pub proof fn lemma_plain_visible(s: Seq<char>)
    requires
        plain(s),
    ensures
        visible(s) == s,
        complete(s),
    decreases s.len(),
{
    if s.len() > 0 {
        assert(plain(s.drop_first())) by {
            assert forall|i: int| 0 <= i < s.drop_first().len() implies s.drop_first()[i]
                != esc() by {
                assert(s.drop_first()[i] == s[i + 1]);
            }
        }
        lemma_plain_visible(s.drop_first());
        assert(seq![s[0]] + s.drop_first() =~= s);
    } else {
        assert(s =~= Seq::<char>::empty());
    }
}

/// Within a control sequence, characters that are not letters show nothing
/// and do not end the sequence.
pub proof fn lemma_parameters_hidden(s: Seq<char>)
    requires
        forall|i: int| 0 <= i < s.len() ==> !is_letter(#[trigger] s[i]),
    ensures
        visible_from(true, s) == Seq::<char>::empty(),
        inside_after(true, s),
    decreases s.len(),
{
    if s.len() > 0 {
        assert forall|i: int| 0 <= i < s.drop_first().len() implies !is_letter(
            #[trigger] s.drop_first()[i],
        ) by {
            assert(s.drop_first()[i] == s[i + 1]);
        }
        lemma_parameters_hidden(s.drop_first());
    }
}

/// The sequences without a parameter of their own show nothing.
pub proof fn lemma_fixed_sequences_invisible()
    ensures
        invisible(clear_screen_seq()),
        invisible(bold_on()),
        invisible(bold_off()),
        invisible(underline_on()),
        invisible(underline_off()),
        invisible(fg_reset()),
        invisible(bg_reset()),
{
    reveal_with_fuel(visible_from, 10);
    reveal_with_fuel(inside_after, 10);
    assert(visible(clear_screen_seq()) =~= Seq::<char>::empty());
    assert(visible(bold_on()) =~= Seq::<char>::empty());
    assert(visible(bold_off()) =~= Seq::<char>::empty());
    assert(visible(underline_on()) =~= Seq::<char>::empty());
    assert(visible(underline_off()) =~= Seq::<char>::empty());
    assert(visible(fg_reset()) =~= Seq::<char>::empty());
    assert(visible(bg_reset()) =~= Seq::<char>::empty());
}

/// A color sequence shows nothing, whatever the color.
pub proof fn lemma_color_sequences_invisible(color: u8)
    ensures
        invisible(fg_set(color)),
        invisible(bg_set(color)),
{
    let digits: Seq<char> = decimal(color as nat);
    lemma_decimal_shape(color as nat);
    assert forall|i: int| 0 <= i < digits.len() implies !is_letter(#[trigger] digits[i]) by {
        assert(is_digit(digits[i]));
    }
    lemma_parameters_hidden(digits);
    let tail: Seq<char> = digits + seq!['m'];
    lemma_visible_concat(true, digits, seq!['m']);
    assert(visible_from(true, seq!['m']) =~= Seq::<char>::empty() && !inside_after(
        true,
        seq!['m'],
    )) by {
        reveal_with_fuel(visible_from, 3);
        reveal_with_fuel(inside_after, 3);
    }
    assert(visible_from(true, tail) =~= Seq::<char>::empty());
    assert(!inside_after(true, tail));

    assert(visible_from(false, fg_prefix()) =~= Seq::<char>::empty() && inside_after(
        false,
        fg_prefix(),
    )) by {
        reveal_with_fuel(visible_from, 9);
        reveal_with_fuel(inside_after, 9);
    }
    lemma_visible_concat(false, fg_prefix(), tail);
    assert(fg_set(color) =~= fg_prefix() + tail);
    assert(visible(fg_set(color)) =~= Seq::<char>::empty());

    assert(visible_from(false, bg_prefix()) =~= Seq::<char>::empty() && inside_after(
        false,
        bg_prefix(),
    )) by {
        reveal_with_fuel(visible_from, 9);
        reveal_with_fuel(inside_after, 9);
    }
    lemma_visible_concat(false, bg_prefix(), tail);
    assert(bg_set(color) =~= bg_prefix() + tail);
    assert(visible(bg_set(color)) =~= Seq::<char>::empty());
}

/// Bold adds nine control characters and changes nothing of what shows.
pub proof fn lemma_bold_visible(s: Seq<char>)
    requires
        complete(s),
    ensures
        visible(bold(s)) == visible(s),
        complete(bold(s)),
        bold(s).len() == s.len() + 9,
{
    lemma_fixed_sequences_invisible();
    lemma_visible_join(bold_on(), s);
    lemma_visible_join(bold_on() + s, bold_off());
    assert(visible(bold(s)) =~= visible(s));
}

/// Underlining adds nine control characters and changes nothing of what
/// shows.
pub proof fn lemma_underlined_visible(s: Seq<char>)
    requires
        complete(s),
    ensures
        visible(underlined(s)) == visible(s),
        complete(underlined(s)),
        underlined(s).len() == s.len() + 9,
{
    lemma_fixed_sequences_invisible();
    lemma_visible_join(underline_on(), s);
    lemma_visible_join(underline_on() + s, underline_off());
    assert(visible(underlined(s)) =~= visible(s));
}

/// A color switch adds sixteen control characters and the digits of both
/// colors, and changes nothing of what shows.
pub proof fn lemma_fg_switched_visible(s: Seq<char>, color: u8, restore: u8)
    requires
        complete(s),
    ensures
        visible(fg_switched(s, color, restore)) == visible(s),
        complete(fg_switched(s, color, restore)),
        fg_switched(s, color, restore).len() == s.len() + 16 + decimal(color as nat).len()
            + decimal(restore as nat).len(),
{
    lemma_color_sequences_invisible(color);
    lemma_color_sequences_invisible(restore);
    lemma_visible_join(fg_set(color), s);
    lemma_visible_join(fg_set(color) + s, fg_set(restore));
    assert(visible(fg_switched(s, color, restore)) =~= visible(s));
}

/// A field shows its margin, what its content shows, and the blanks that
/// fill it up.
pub proof fn lemma_bg_field_visible(s: Seq<char>, width: int, bg: u8)
    requires
        complete(s),
    ensures
        visible(bg_field(s, width, bg)) == seq![' ', ' '] + visible(s) + repeated(
            ' ',
            width + 2 - s.len(),
        ),
        complete(bg_field(s, width, bg)),
{
    let margin: Seq<char> = seq![' ', ' '];
    let fill: Seq<char> = repeated(' ', width + 2 - s.len());
    lemma_color_sequences_invisible(bg);
    lemma_fixed_sequences_invisible();
    assert(plain(margin));
    assert(plain(fill));
    lemma_plain_visible(margin);
    lemma_plain_visible(fill);
    assert(pad_right_spec(margin + s, width + 4) =~= margin + s + fill);
    lemma_visible_join(margin, s);
    lemma_visible_join(margin + s, fill);
    lemma_visible_join(bg_set(bg), margin + s + fill);
    lemma_visible_join(bg_set(bg) + (margin + s + fill), bg_reset());
    assert(visible(bg_field(s, width, bg)) =~= margin + visible(s) + fill);
}

/// A field widened by exactly the control characters of its content shows
/// `width + 4` characters, however many control characters there are,
/// where what the content shows is at most `width + 2` wide.
pub proof fn lemma_bg_field_width(s: Seq<char>, width: int, bg: u8)
    requires
        complete(s),
        visible(s).len() <= width + 2,
    ensures
        visible(bg_field(s, width + (s.len() - visible(s).len()), bg)).len() == width + 4,
        visible(bg_field(s, width + (s.len() - visible(s).len()), bg)) == seq![' ', ' ']
            + visible(s) + repeated(' ', width + 2 - visible(s).len()),
{
    lemma_bg_field_visible(s, width + (s.len() - visible(s).len()), bg);
}

/// Appends the blanks that fill a field of `width + 4` in which `shown`
/// characters stand behind a margin of two; none where they leave no room.
fn push_fill(out: &mut String, width: usize, shown: usize)
    ensures
        final(out)@ == old(out)@ + repeated(' ', width + 2 - shown),
{
    proof {
        reveal_strlit(" ");
    }
    if shown <= width {
        push_repeated(out, " ", width - shown);
        push_repeated(out, " ", 2);
    } else if shown - width < 2 {
        push_repeated(out, " ", 2 - (shown - width));
    }
    assert(out@ =~= old(out)@ + repeated(' ', width + 2 - shown));
}

/// `s` behind a margin of two blanks on the background color `bg`, filled
/// up with blanks as if only `shown` of its characters took room: the
/// field is widened by the characters of `s` that do not show.
pub fn fill_field(s: &str, width: usize, shown: usize, bg: u8) -> (out: String)
    requires
        shown <= s@.len(),
    ensures
        out@ == bg_field(s@, width + (s@.len() - shown), bg),
{
    proof {
        reveal_strlit("  ");
        reveal_strlit("\x1b[49m");
    }
    let mut out: String = String::new();
    push_bg(&mut out, bg);
    out.append("  ");
    out.append(s);
    push_fill(&mut out, width, shown);
    out.append("\x1b[49m");
    assert(out@ =~= bg_field(s@, width + (s@.len() - shown), bg));
    out
}

/// Appends the sequence that sets the foreground color to `out`.
pub fn push_fg(out: &mut String, color: u8)
    ensures
        final(out)@ == old(out)@ + fg_set(color),
{
    proof {
        reveal_strlit("\x1b[38;5;");
        reveal_strlit("m");
    }
    out.append("\x1b[38;5;");
    push_decimal(out, color as usize);
    out.append("m");
    assert(out@ =~= old(out)@ + fg_set(color));
}

/// Appends the sequence that sets the background color to `out`.
pub fn push_bg(out: &mut String, color: u8)
    ensures
        final(out)@ == old(out)@ + bg_set(color),
{
    proof {
        reveal_strlit("\x1b[48;5;");
        reveal_strlit("m");
    }
    out.append("\x1b[48;5;");
    push_decimal(out, color as usize);
    out.append("m");
    assert(out@ =~= old(out)@ + bg_set(color));
}

/// The text that clears the screen and homes the cursor.
pub fn clear_screen() -> (out: String)
    ensures
        out@ == clear_screen_seq(),
{
    proof {
        reveal_strlit("\x1b[H\x1b[J\x1b[H");
    }
    let out: String = String::from_str("\x1b[H\x1b[J\x1b[H");
    assert(out@ =~= clear_screen_seq());
    out
}

/// The line feeds written before the first frame of a session on a
/// terminal of `term_rows` rows, one fewer than it has rows: they move
/// what the terminal showed before out of the way of the box.
pub fn screen_padding(term_rows: usize) -> (out: String)
    ensures
        out@ == repeated('\n', term_rows - 1),
{
    proof {
        reveal_strlit("\n");
    }
    let mut out: String = String::new();
    if term_rows > 1 {
        push_repeated(&mut out, "\n", term_rows - 1);
    }
    assert(out@ =~= repeated('\n', term_rows - 1));
    out
}

} // verus!
