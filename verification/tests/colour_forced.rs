use colored::control::set_override;
use hexdump::dump::render_rows;
use hexdump::highlight::format_token;
use hexdump::row::format_row;

#[test]
fn forced_colour_wraps_the_token_of_a_space_in_red() {
    set_override(true);
    assert_eq!(format_token(0x20, true), "\u{1b}[31m20 \u{1b}[0m");
    assert_eq!(format_token(0x0a, true), "\u{1b}[31m0a \u{1b}[0m");
    assert_eq!(format_token(0x7f, true), "\u{1b}[31m7f \u{1b}[0m");
}

#[test]
fn forced_colour_leaves_other_tokens_plain() {
    set_override(true);
    assert_eq!(format_token(0x41, true), "41 ");
    assert_eq!(format_token(0xff, true), "ff ");
}

#[test]
fn forced_colour_is_not_used_without_the_flag() {
    set_override(true);
    assert_eq!(format_token(0x20, false), "20 ");
    assert_eq!(render_rows(b"A B", 2, false), vec!["00000000: 41 20   A\u{2022}", "00000002: 42       B"]);
}

#[test]
fn forced_colour_highlights_only_the_tokens_that_stand_out() {
    set_override(true);
    let rows = render_rows(b"A B", 2, true);
    assert_eq!(
        rows,
        vec!["00000000: 41 \u{1b}[31m20 \u{1b}[0m  A\u{2022}", "00000002: 42       B"]
    );
}

#[test]
fn forced_colour_keeps_label_padding_gap_and_text_free_of_markup() {
    set_override(true);
    let row = format_row(0x10, b"\n", 3, true);
    assert_eq!(row, "00000010: \u{1b}[31m0a \u{1b}[0m        \u{2022}");
}
