//! Lowercase hexadecimal numerals: the offset label and the byte tokens of a
//! row.

use vstd::prelude::*;

verus! {

/// The sixteen hexadecimal digits, lowercase, by value.
pub open spec fn hex_digits() -> Seq<char> {
    seq!['0', '1', '2', '3', '4', '5', '6', '7', '8', '9', 'a', 'b', 'c', 'd', 'e', 'f']
}

/// The digit for a value below sixteen.
pub open spec fn hex_char(digit: int) -> char
    recommends
        0 <= digit < 16,
{
    hex_digits()[digit]
}

/// `value` in lowercase hexadecimal, padded on the left with zeros to at
/// least `width` digits.
pub open spec fn hex_padded(value: nat, width: nat) -> Seq<char>
    decreases value, width,
{
    if value < 16 && width <= 1 {
        seq![hex_char(value as int)]
    } else {
        hex_padded(
            value / 16,
            if width > 0 {
                (width - 1) as nat
            } else {
                0
            },
        ) + seq![hex_char((value % 16) as int)]
    }
}

/// The label in front of a row: the offset in at least eight hexadecimal
/// digits, a colon and a space.
pub open spec fn offset_label(offset: nat) -> Seq<char> {
    hex_padded(offset, 8) + seq![':', ' ']
}

/// The token of one byte in the hex column: two hexadecimal digits and a
/// space.
pub open spec fn byte_token(byte: u8) -> Seq<char> {
    hex_padded(byte as nat, 2) + seq![' ']
}

/// A character that a plain label or token can hold: a lowercase
/// hexadecimal digit, a colon or a space.
pub open spec fn is_plain_char(c: char) -> bool {
    ||| '0' <= c <= '9'
    ||| 'a' <= c <= 'f'
    ||| c == ':'
    ||| c == ' '
}

/// Sixteen to the power of `digits`.
pub open spec fn sixteen_to(digits: nat) -> nat
    decreases digits,
{
    if digits == 0 {
        1
    } else {
        16 * sixteen_to((digits - 1) as nat)
    }
}

/// A padded numeral has at least `width` digits, and exactly `width` digits
/// if and only if the value fits in them; all its characters are
/// hexadecimal digits.
pub proof fn lemma_hex_padded_shape(value: nat, width: nat)
    ensures
        hex_padded(value, width).len() >= 1,
        hex_padded(value, width).len() >= width,
        width >= 1 ==> (hex_padded(value, width).len() == width <==> value < sixteen_to(width)),
        forall|k: int|
            0 <= k < hex_padded(value, width).len() ==> {
                let c = #[trigger] hex_padded(value, width)[k];
                '0' <= c <= '9' || 'a' <= c <= 'f'
            },
    decreases value, width,
{
    assert(sixteen_to(1) == 16) by {
        reveal_with_fuel(sixteen_to, 2);
    }
    if value < 16 && width <= 1 {
        lemma_hex_char_is_digit(value as int);
    } else {
        // the numeral is that of `value / 16`, one narrower, and one more digit
        let rest_width: nat = if width > 0 {
            (width - 1) as nat
        } else {
            0
        };
        lemma_hex_padded_shape(value / 16, rest_width);
        lemma_hex_char_is_digit((value % 16) as int);
    }
}

/// Every hexadecimal digit is one of `0` to `9` and `a` to `f`.
pub proof fn lemma_hex_char_is_digit(digit: int)
    requires
        0 <= digit < 16,
    ensures
        '0' <= hex_char(digit) <= '9' || 'a' <= hex_char(digit) <= 'f',
        is_plain_char(hex_char(digit)),
{
}

/// A byte token is three characters: the digit of the high half, the digit
/// of the low half, and a space.
pub proof fn lemma_byte_token_shape(byte: u8)
    ensures
        byte_token(byte) == seq![hex_char(byte as int / 16), hex_char(byte as int % 16), ' '],
        byte_token(byte).len() == 3,
{
    reveal_with_fuel(hex_padded, 2);
}

/// An offset label is the numeral, eight digits wide for offsets below
/// 2^32 and wider above, and two more characters; none of them is anything
/// but a digit, a colon or a space.
pub proof fn lemma_offset_label_shape(offset: nat)
    ensures
        offset_label(offset).len() >= 10,
        offset_label(offset).len() == 10 <==> offset < 0x1_0000_0000,
        forall|k: int|
            0 <= k < offset_label(offset).len() ==> is_plain_char(#[trigger] offset_label(offset)[k]),
{
    lemma_hex_padded_shape(offset, 8);
    assert(sixteen_to(8) == 0x1_0000_0000) by {
        reveal_with_fuel(sixteen_to, 9);
    }
    let numeral = hex_padded(offset, 8);
    assert forall|k: int| 0 <= k < offset_label(offset).len() implies is_plain_char(
        #[trigger] offset_label(offset)[k],
    ) by {
        if k < numeral.len() {
            assert(offset_label(offset)[k] == numeral[k]);
        }
    }
}

/// The digit for the low four bits of `value`.
pub fn hex_digit(value: u8) -> (c: char)
    ensures
        c == hex_char(value as int % 16),
{
    match value % 16 {
        0 => '0',
        1 => '1',
        2 => '2',
        3 => '3',
        4 => '4',
        5 => '5',
        6 => '6',
        7 => '7',
        8 => '8',
        9 => '9',
        10 => 'a',
        11 => 'b',
        12 => 'c',
        13 => 'd',
        14 => 'e',
        _ => 'f',
    }
}

/// Appends `value` to `out` in lowercase hexadecimal, padded on the left
/// with zeros to at least `width` digits.
pub fn push_hex(out: &mut String, value: usize, width: usize)
    ensures
        final(out)@ == old(out)@ + hex_padded(value as nat, width as nat),
{
    // The digits come out lowest first; they are written highest first.
    let mut lowest_first: Vec<char> = Vec::new();
    let mut rest: usize = value;
    let mut rest_width: usize = width;
    while rest >= 16 || rest_width > 1
        invariant
            hex_padded(value as nat, width as nat) == hex_padded(rest as nat, rest_width as nat)
                + lowest_first@.reverse(),
        decreases rest, rest_width,
    {
        let digit: char = hex_digit((rest % 16) as u8);
        lowest_first.push(digit);
        rest = rest / 16;
        if rest_width > 0 {
            rest_width = rest_width - 1;
        }
    }
    let digit: char = hex_digit(rest as u8);
    lowest_first.push(digit);
    let mut left: usize = lowest_first.len();
    while left > 0
        invariant
            left <= lowest_first.len(),
            out@ == old(out)@ + lowest_first@.reverse().subrange(
                0,
                lowest_first.len() - left,
            ),
        decreases left,
    {
        left = left - 1;
        out.push(lowest_first[left]);
    }
}

/// The label in front of the row that starts at `offset`.
pub fn format_offset(offset: usize) -> (label: String)
    ensures
        label@ == offset_label(offset as nat),
{
    let mut label = String::new();
    push_hex(&mut label, offset, 8);
    label.push(':');
    label.push(' ');
    label
}

/// The token of `byte` in the hex column.
pub fn format_byte(byte: u8) -> (token: String)
    ensures
        token@ == byte_token(byte),
{
    let mut token = String::new();
    push_hex(&mut token, byte as usize, 2);
    token.push(' ');
    token
}

} // verus!
