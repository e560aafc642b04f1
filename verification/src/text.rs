//! Plain-text building blocks: runs of one character, padding to a field
//! width, and decimal numerals.

use vstd::prelude::*;

verus! {

/// `n` copies of `c`; nothing for a count of zero or less.
pub open spec fn repeated(c: char, n: int) -> Seq<char> {
    Seq::new(if n > 0 { n as nat } else { 0 }, |i: int| c)
}

/// `s` right-aligned in a field of `width` characters: blanks in front, and
/// `s` unchanged where it is already that wide.
pub open spec fn pad_left_spec(s: Seq<char>, width: int) -> Seq<char> {
    repeated(' ', width - s.len()) + s
}

/// `s` left-aligned in a field of `width` characters: blanks behind, and `s`
/// unchanged where it is already that wide.
pub open spec fn pad_right_spec(s: Seq<char>, width: int) -> Seq<char> {
    s + repeated(' ', width - s.len())
}

/// The character of the decimal digit `d`.
pub open spec fn digit_char(d: int) -> char {
    if d == 0 {
        '0'
    } else if d == 1 {
        '1'
    } else if d == 2 {
        '2'
    } else if d == 3 {
        '3'
    } else if d == 4 {
        '4'
    } else if d == 5 {
        '5'
    } else if d == 6 {
        '6'
    } else if d == 7 {
        '7'
    } else if d == 8 {
        '8'
    } else {
        '9'
    }
}

/// Whether `c` is one of the ten decimal digits.
pub open spec fn is_digit(c: char) -> bool {
    '0' <= c <= '9'
}

/// The decimal numeral of `n`, without leading zeros.
pub open spec fn decimal(n: nat) -> Seq<char>
    decreases n,
{
    if n < 10 {
        seq![digit_char(n as int)]
    } else {
        decimal(n / 10).push(digit_char((n % 10) as int))
    }
}

/// A numeral has one digit below ten and one more than the numeral of its
/// tenth above; all its characters are digits.
pub proof fn lemma_decimal_shape(n: nat)
    ensures
        decimal(n).len() >= 1,
        n < 10 ==> decimal(n).len() == 1,
        n >= 10 ==> decimal(n).len() == decimal(n / 10).len() + 1,
        forall|i: int| 0 <= i < decimal(n).len() ==> is_digit(#[trigger] decimal(n)[i]),
    decreases n,
{
    if n >= 10 {
        lemma_decimal_shape(n / 10);
    }
}

/// Appends `count` copies of the one-character string `unit` to `out`.
pub fn push_repeated(out: &mut String, unit: &str, count: usize)
    requires
        unit@.len() == 1,
    ensures
        final(out)@ == old(out)@ + repeated(unit@[0], count as int),
{
    let mut done: usize = 0;
    while done < count
        invariant
            done <= count,
            unit@.len() == 1,
            out@ == old(out)@ + repeated(unit@[0], done as int),
        decreases count - done,
    {
        out.append(unit);
        done += 1;
        assert(out@ =~= old(out)@ + repeated(unit@[0], done as int));
    }
}

/// Right-aligns `s` in a field of `width` characters.
pub fn pad_left(s: String, width: usize) -> (out: String)
    ensures
        out@ == pad_left_spec(s@, width as int),
{
    let len: usize = s.as_str().unicode_len();
    let mut out: String = String::new();
    if len < width {
        proof {
            reveal_strlit(" ");
        }
        push_repeated(&mut out, " ", width - len);
    }
    out.append(s.as_str());
    assert(out@ =~= pad_left_spec(s@, width as int));
    out
}

/// Left-aligns `s` in a field of `width` characters.
pub fn pad_right(s: String, width: usize) -> (out: String)
    ensures
        out@ == pad_right_spec(s@, width as int),
{
    let len: usize = s.as_str().unicode_len();
    let mut out: String = s;
    if len < width {
        proof {
            reveal_strlit(" ");
        }
        push_repeated(&mut out, " ", width - len);
    }
    assert(out@ =~= pad_right_spec(s@, width as int));
    out
}

/// Number of decimal digits of `num`.
pub fn num_digs(num: u8) -> (digits: usize)
    ensures
        digits == decimal(num as nat).len(),
        digits == if num < 10 { 1int } else if num < 100 { 2int } else { 3int },
{
    proof {
        lemma_decimal_shape(num as nat);
        lemma_decimal_shape(num as nat / 10);
        lemma_decimal_shape(num as nat / 100);
    }
    if num < 10 {
        1
    } else if num < 100 {
        2
    } else {
        3
    }
}

/// Appends the character of the decimal digit `d` to `out`.
fn push_digit(out: &mut String, d: usize)
    requires
        d < 10,
    ensures
        final(out)@ == old(out)@.push(digit_char(d as int)),
{
    proof {
        reveal_strlit("0");
        reveal_strlit("1");
        reveal_strlit("2");
        reveal_strlit("3");
        reveal_strlit("4");
        reveal_strlit("5");
        reveal_strlit("6");
        reveal_strlit("7");
        reveal_strlit("8");
        reveal_strlit("9");
    }
    if d == 0 {
        out.append("0");
    } else if d == 1 {
        out.append("1");
    } else if d == 2 {
        out.append("2");
    } else if d == 3 {
        out.append("3");
    } else if d == 4 {
        out.append("4");
    } else if d == 5 {
        out.append("5");
    } else if d == 6 {
        out.append("6");
    } else if d == 7 {
        out.append("7");
    } else if d == 8 {
        out.append("8");
    } else {
        out.append("9");
    }
    assert(out@ =~= old(out)@.push(digit_char(d as int)));
}

/// Appends the decimal numeral of `n` to `out`.
pub fn push_decimal(out: &mut String, n: usize)
    ensures
        final(out)@ == old(out)@ + decimal(n as nat),
    decreases n,
{
    if n >= 10 {
        push_decimal(out, n / 10);
    }
    push_digit(out, n % 10);
    assert(out@ =~= old(out)@ + decimal(n as nat));
}

} // verus!
