use console_menu::layout::{clamp, compute_options_per_page, compute_page_count};
use console_menu::text::{num_digs, pad_left, pad_right};

#[test]
fn clamp_keeps_a_value_inside_the_interval() {
    assert_eq!(clamp(5, 1, 10), 5);
    assert_eq!(clamp(1, 1, 10), 1);
    assert_eq!(clamp(10, 1, 10), 10);
}

#[test]
fn clamp_raises_and_lowers_to_the_bounds() {
    assert_eq!(clamp(0, 1, 10), 1);
    assert_eq!(clamp(14, 1, 3), 3);
    assert_eq!(clamp(usize::MAX, 1, 7), 7);
}

#[test]
fn clamp_prefers_the_upper_bound_of_an_empty_interval() {
    assert_eq!(clamp(0, 5, 3), 3);
    assert_eq!(clamp(9, 5, 3), 3);
}

#[test]
fn options_per_page_leaves_six_rows_free() {
    assert_eq!(compute_options_per_page(20, 100), 14);
    assert_eq!(compute_options_per_page(24, 100), 18);
    assert_eq!(compute_options_per_page(7, 100), 1);
}

#[test]
fn options_per_page_never_exceeds_the_option_count() {
    assert_eq!(compute_options_per_page(20, 3), 3);
    assert_eq!(compute_options_per_page(usize::MAX, 5), 5);
    assert_eq!(compute_options_per_page(20, 14), 14);
    assert_eq!(compute_options_per_page(20, 15), 14);
}

#[test]
fn options_per_page_is_at_least_one_on_tiny_terminals() {
    for rows in 0..=7 {
        assert_eq!(compute_options_per_page(rows, 10), 1, "rows = {}", rows);
    }
    assert_eq!(compute_options_per_page(8, 10), 2);
}

#[test]
fn page_count_is_the_ceiling_of_the_quotient() {
    assert_eq!(compute_page_count(10, 4), 3);
    assert_eq!(compute_page_count(8, 4), 2);
    assert_eq!(compute_page_count(9, 4), 3);
    assert_eq!(compute_page_count(1, 1), 1);
    assert_eq!(compute_page_count(3, 3), 1);
    assert_eq!(compute_page_count(7, 1), 7);
    assert_eq!(compute_page_count(usize::MAX, 1), usize::MAX);
}

#[test]
fn pages_cover_the_options_and_the_last_is_not_empty() {
    for n in 1..=40usize {
        for rows in 0..=50usize {
            let per_page = compute_options_per_page(rows, n);
            let expected = if rows < 7 { 1 } else { (rows - 6).min(n) };
            assert_eq!(per_page, expected);
            let pages = compute_page_count(n, per_page);
            assert_eq!(pages, (n + per_page - 1) / per_page);
            assert!(pages * per_page >= n);
            assert!((pages - 1) * per_page < n);
        }
    }
}

#[test]
fn num_digs_counts_decimal_digits() {
    assert_eq!(num_digs(0), 1);
    assert_eq!(num_digs(9), 1);
    assert_eq!(num_digs(10), 2);
    assert_eq!(num_digs(99), 2);
    assert_eq!(num_digs(100), 3);
    assert_eq!(num_digs(255), 3);
    for n in 0..=255u8 {
        assert_eq!(num_digs(n), format!("{}", n).len());
    }
}

#[test]
fn pad_right_fills_with_blanks_behind() {
    assert_eq!(pad_right("ab".to_string(), 5), "ab   ");
    assert_eq!(pad_right(String::new(), 3), "   ");
    assert_eq!(pad_right("abc".to_string(), 3), "abc");
}

#[test]
fn pad_right_leaves_longer_text_alone() {
    assert_eq!(pad_right("abcdef".to_string(), 3), "abcdef");
    assert_eq!(pad_right("x".to_string(), 0), "x");
}

#[test]
fn pad_left_fills_with_blanks_in_front() {
    assert_eq!(pad_left("ab".to_string(), 5), "   ab");
    assert_eq!(pad_left(String::new(), 4), "    ");
    assert_eq!(pad_left("abcdef".to_string(), 3), "abcdef");
}

#[test]
fn padding_counts_characters_not_bytes() {
    assert_eq!(pad_right("é".to_string(), 3), "é  ");
    assert_eq!(pad_left("日本".to_string(), 3), " 日本");
}
