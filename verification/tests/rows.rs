use hexdump::dump::render_rows;
use hexdump::row::{assemble_row, format_row, push_spaces, SPACE_BEFORE_TEXT};

fn tokens(parts: &[&str]) -> Vec<String> {
    parts.iter().map(|part| part.to_string()).collect()
}

/// The bytes that the hex column of a plain row shows.
fn bytes_shown(row: &str, len: usize) -> Vec<u8> {
    let column = &row[10..10 + 3 * len];
    column
        .split(' ')
        .filter(|token| !token.is_empty())
        .map(|token| u8::from_str_radix(token, 16).unwrap())
        .collect()
}

/// The number of characters in front of the text column of a row.
fn text_column(row: &str, text_len: usize) -> usize {
    row.chars().count() - text_len
}

#[test]
fn two_bytes_in_a_row_of_four() {
    let rows = render_rows(b"AB", 4, false);
    assert_eq!(rows, vec!["00000000: 41 42         AB"]);
    assert_eq!(rows[0], format!("00000000: 41 42 {}{}AB", " ".repeat(6), " ".repeat(2)));
}

#[test]
fn empty_buffer_has_no_rows() {
    for stride in [1usize, 2, 4, 16, 1000] {
        assert!(render_rows(b"", stride, false).is_empty());
        assert!(render_rows(b"", stride, true).is_empty());
    }
}

#[test]
fn three_bytes_in_rows_of_two() {
    let rows = render_rows(b"A B", 2, false);
    assert_eq!(rows, vec!["00000000: 41 20   A\u{2022}", "00000002: 42       B"]);
}

#[test]
fn four_bytes_in_rows_of_two() {
    let rows = render_rows(b"A B ", 2, false);
    assert_eq!(rows, vec!["00000000: 41 20   A\u{2022}", "00000002: 42 20   B\u{2022}"]);
}

#[test]
fn full_row_has_no_padding() {
    assert_eq!(format_row(0, b"ABCD", 4, false), "00000000: 41 42 43 44   ABCD");
}

#[test]
fn short_row_is_padded_by_two_spaces_and_two_for_each_missing_byte() {
    assert_eq!(format_row(4, b"E", 4, false), format!("00000004: 45 {}  E", " ".repeat(2 + 2 * 3)));
    assert_eq!(format_row(4, b"EF", 4, false), format!("00000004: 45 46 {}  EF", " ".repeat(6)));
    assert_eq!(
        format_row(4, b"EFG", 4, false),
        format!("00000004: 45 46 47 {}  EFG", " ".repeat(4))
    );
}

#[test]
fn row_of_an_empty_chunk_is_label_padding_and_gap() {
    assert_eq!(format_row(0x20, b"", 2, false), format!("00000020: {}", " ".repeat(6 + 2)));
}

#[test]
fn chunk_longer_than_the_stride_is_shown_whole() {
    assert_eq!(format_row(0, b"ABC", 2, false), "00000000: 41 42 43   ABC");
}

#[test]
fn rows_are_labelled_with_their_offsets() {
    let buffer: Vec<u8> = (0..40u8).map(|k| b'a' + k % 26).collect();
    let rows = render_rows(&buffer, 16, false);
    assert_eq!(rows.len(), 3);
    assert!(rows[0].starts_with("00000000: 61 62 63 "));
    assert!(rows[1].starts_with("00000010: 71 72 73 "));
    assert!(rows[2].starts_with("00000020: 67 68 69 "));
    assert!(rows[2].ends_with("  ghijklmn"));
}

#[test]
fn number_of_rows_is_the_length_over_the_stride_rounded_up() {
    let buffer: Vec<u8> = (0..=255u8).collect();
    for len in 0..buffer.len() {
        for stride in [1usize, 2, 3, 4, 7, 16, 255, 256, 300] {
            let rows = render_rows(&buffer[..len], stride, false);
            assert_eq!(rows.len(), (len + stride - 1) / stride);
        }
    }
}

#[test]
fn rows_show_every_byte_once_and_in_order() {
    let buffer: Vec<u8> = (0..=255u8).rev().collect();
    for stride in [1usize, 2, 3, 5, 16, 100, 256, 1000] {
        let rows = render_rows(&buffer, stride, false);
        let mut shown: Vec<u8> = Vec::new();
        for (i, row) in rows.iter().enumerate() {
            let len = if (i + 1) * stride <= buffer.len() { stride } else { buffer.len() - i * stride };
            assert_eq!(&row[..10], format!("{:08x}: ", i * stride));
            shown.extend(bytes_shown(row, len));
        }
        assert_eq!(shown, buffer);
    }
}

#[test]
fn text_column_lines_up_when_the_last_row_is_full_or_two_bytes_short() {
    let rows = render_rows(b"ABCDEFGH", 4, false);
    assert_eq!(text_column(&rows[0], 4), 24);
    assert_eq!(text_column(&rows[1], 4), 24);
    let rows = render_rows(b"ABCDEF", 4, false);
    assert_eq!(rows, vec!["00000000: 41 42 43 44   ABCD", "00000004: 45 46         EF"]);
    assert_eq!(text_column(&rows[0], 4), 24);
    assert_eq!(text_column(&rows[1], 2), 24);
}

#[test]
fn text_column_moves_when_the_last_row_is_short_by_another_number() {
    let rows = render_rows(b"ABCDE", 4, false);
    assert_eq!(rows, vec!["00000000: 41 42 43 44   ABCD", "00000004: 45           E"]);
    assert_eq!(text_column(&rows[0], 4), 24);
    assert_eq!(text_column(&rows[1], 1), 23);
    let rows = render_rows(b"ABCDEFG", 4, false);
    assert_eq!(text_column(&rows[1], 3), 25);
}

#[test]
fn text_column_shows_the_marker_for_blank_characters_only() {
    let rows = render_rows(b"a b\nc\rd\te", 16, false);
    assert_eq!(rows.len(), 1);
    assert!(rows[0].ends_with("  a\u{2022}b\u{2022}c\u{2022}d\te"));
}

#[test]
fn split_characters_are_shown_as_replacement_characters() {
    let rows = render_rows("é".as_bytes(), 1, false);
    assert_eq!(rows, vec!["00000000: c3   \u{fffd}", "00000001: a9   \u{fffd}"]);
    let rows = render_rows("é".as_bytes(), 2, false);
    assert_eq!(rows, vec!["00000000: c3 a9   é"]);
}

#[test]
fn plain_rows_hold_no_escape_in_front_of_the_text() {
    let buffer: Vec<u8> = (0..=255u8).collect();
    for row in render_rows(&buffer, 16, false) {
        let lead: String = row.chars().take(10 + 3 * 16 + 2).collect();
        assert!(lead.chars().all(|c| c.is_ascii_hexdigit() || c == ':' || c == ' '), "{:?}", lead);
    }
}

#[test]
fn with_colour_on_rows_without_bytes_that_stand_out_are_plain() {
    assert_eq!(render_rows(b"ABCDEF", 4, true), render_rows(b"ABCDEF", 4, false));
    assert_eq!(format_row(0, b"\xff\x80~!", 4, true), "00000000: ff 80 7e 21   \u{fffd}\u{fffd}~!");
}

#[test]
fn assemble_row_joins_label_tokens_padding_gap_and_text() {
    let row = assemble_row(0, &tokens(&["41 ", "42 "]), 4, "AB");
    assert_eq!(row, "00000000: 41 42         AB");
    let row = assemble_row(0x2a, &tokens(&["<20> ", "41 "]), 2, " A");
    assert_eq!(row, "0000002a: <20> 41   \u{2022}A");
    let row = assemble_row(7, &tokens(&[]), 1, "");
    assert_eq!(row, "00000007:       ");
}

#[test]
fn gap_is_two_spaces() {
    assert_eq!(SPACE_BEFORE_TEXT, 2);
    let mut out = String::from("|");
    push_spaces(&mut out, SPACE_BEFORE_TEXT);
    assert_eq!(out, "|  ");
    push_spaces(&mut out, 0);
    assert_eq!(out, "|  ");
}
