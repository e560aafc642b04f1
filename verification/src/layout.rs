//! Page layout arithmetic: how many options fit on a page, how many pages
//! there are, and which option indices each page holds.

use vstd::prelude::*;

verus! {

/// Terminal rows kept free for the borders, the title block, the footer and
/// the padding around the option list.
pub const RESERVED_ROWS: usize = 6;

/// `num` limited to the interval from `min` to `max`; should the interval be
/// empty, the upper bound wins.
pub open spec fn clamp_spec(num: int, min: int, max: int) -> int {
    let raised = if num < min { min } else { num };
    if raised > max { max } else { raised }
}

/// Options shown per page on a terminal of `rows` rows holding `count`
/// options: the rows left after the reserved ones, at least one, and never
/// more than there are options.
pub open spec fn options_per_page(rows: int, count: int) -> int {
    clamp_spec(rows - RESERVED_ROWS as int, 1, count)
}

/// Number of pages needed for `count` options at `per_page` options a page.
pub open spec fn page_count(count: int, per_page: int) -> int {
    (count - 1) / per_page + 1
}

/// Index of the first option on `page`.
pub open spec fn page_start(page: int, per_page: int) -> int {
    page * per_page
}

/// Index of the last option on `page`: a full page where enough options
/// remain, else the last option of the list.
pub open spec fn page_end(page: int, per_page: int, count: int) -> int {
    if count > page_start(page, per_page) + per_page {
        page_start(page, per_page) + per_page - 1
    } else {
        count - 1
    }
}

/// Limits `num` to the interval from `min` to `max`.
pub fn clamp(num: usize, min: usize, max: usize) -> (out: usize)
    ensures
        out == clamp_spec(num as int, min as int, max as int),
{
    let out: usize = if num < min { min } else { num };
    if out > max { max } else { out }
}

/// Computes how many options a page shows on a terminal of `terminal_rows`
/// rows.
pub fn compute_options_per_page(terminal_rows: usize, option_count: usize) -> (per_page: usize)
    requires
        option_count >= 1,
    ensures
        per_page == options_per_page(terminal_rows as int, option_count as int),
        1 <= per_page <= option_count,
{
    let free_rows: usize = if terminal_rows > RESERVED_ROWS {
        terminal_rows - RESERVED_ROWS
    } else {
        0
    };
    clamp(free_rows, 1, option_count)
}

/// Computes how many pages `option_count` options take.
pub fn compute_page_count(option_count: usize, options_per_page: usize) -> (pages: usize)
    requires
        option_count >= 1,
        options_per_page >= 1,
    ensures
        pages == page_count(option_count as int, options_per_page as int),
        1 <= pages <= option_count,
        pages * options_per_page >= option_count,
        (pages - 1) * options_per_page < option_count,
        pages == 1 <==> options_per_page >= option_count,
{
    proof {
        lemma_page_count_is_ceiling(option_count as int, options_per_page as int);
    }
    (option_count - 1) / options_per_page + 1
}

/// The page count is the ceiling of `count / per_page`: that many pages hold
/// every option, and one page fewer would not. There is a single page
/// exactly where one page holds all options.
pub proof fn lemma_page_count_is_ceiling(count: int, per_page: int)
    requires
        count >= 1,
        per_page >= 1,
    ensures
        1 <= page_count(count, per_page) <= count,
        page_count(count, per_page) * per_page >= count,
        (page_count(count, per_page) - 1) * per_page < count,
        page_count(count, per_page) == (count + per_page - 1) / per_page,
        page_count(count, per_page) == 1 <==> per_page >= count,
{
    let q: int = (count - 1) / per_page;
    let r: int = (count - 1) % per_page;
    assert(count - 1 == q * per_page + r && 0 <= r < per_page && 0 <= q <= count - 1)
        by (nonlinear_arith)
        requires
            q == (count - 1) / per_page,
            r == (count - 1) % per_page,
            count >= 1,
            per_page >= 1,
    ;
    assert((q + 1) * per_page == q * per_page + per_page) by (nonlinear_arith);
    assert((count + per_page - 1) / per_page == q + 1) by (nonlinear_arith)
        requires
            count - 1 == q * per_page + r,
            0 <= r < per_page,
            per_page >= 1,
    ;
    assert(q == 0 <==> per_page >= count) by (nonlinear_arith)
        requires
            count - 1 == q * per_page + r,
            0 <= r < per_page,
            0 <= q,
            per_page >= 1,
    ;
}

/// For every row count and every non-empty option list, the options per
/// page lie between one and the option count, and the resulting pages cover
/// the list exactly: all of them together hold every option, and the last
/// one is not empty.
pub proof fn lemma_layout_covers_options(rows: int, count: int)
    requires
        count >= 1,
    ensures
        1 <= options_per_page(rows, count) <= count,
        options_per_page(rows, count) == if rows - 6 < 1 {
            1
        } else if rows - 6 > count {
            count
        } else {
            rows - 6
        },
        page_count(count, options_per_page(rows, count)) * options_per_page(rows, count) >= count,
        (page_count(count, options_per_page(rows, count)) - 1) * options_per_page(rows, count)
            < count,
{
    lemma_page_count_is_ceiling(count, options_per_page(rows, count));
}

/// Every page holds a non-empty run of at most `per_page` consecutive
/// options inside the list; each page but the last is full, the last ends
/// with the last option, and each page starts right after the one before.
pub proof fn lemma_page_bounds(count: int, per_page: int, page: int)
    requires
        count >= 1,
        per_page >= 1,
        0 <= page < page_count(count, per_page),
    ensures
        0 <= page_start(page, per_page) <= page_end(page, per_page, count) < count,
        page_end(page, per_page, count) - page_start(page, per_page) + 1 <= per_page,
        page + 1 < page_count(count, per_page) ==> {
            &&& page_end(page, per_page, count) == page_start(page, per_page) + per_page - 1
            &&& page_start(page + 1, per_page) == page_end(page, per_page, count) + 1
        },
        page + 1 == page_count(count, per_page) ==> page_end(page, per_page, count) == count - 1,
{
    lemma_page_count_is_ceiling(count, per_page);
    let pages: int = page_count(count, per_page);
    assert(page * per_page >= 0) by (nonlinear_arith)
        requires
            page >= 0,
            per_page >= 1,
    ;
    assert(page * per_page <= (pages - 1) * per_page) by (nonlinear_arith)
        requires
            page <= pages - 1,
            per_page >= 1,
    ;
    assert((page + 1) * per_page == page * per_page + per_page) by (nonlinear_arith);
    if page + 1 < pages {
        assert((page + 1) * per_page <= (pages - 1) * per_page) by (nonlinear_arith)
            requires
                page + 1 <= pages - 1,
                per_page >= 1,
        ;
    } else {
        assert(pages * per_page == (pages - 1) * per_page + per_page) by (nonlinear_arith);
    }
}

} // verus!
