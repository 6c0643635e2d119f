//! Placing things on the terminal by its size.

use vstd::prelude::*;
use crate::screen::{TextAt, byte_len, plain_text};
pub use crate::screen::repeat_str;

verus! {

/// Something of the given size can be centred on a terminal of the given
/// size: its half is no larger than the terminal's half, each way.
pub open spec fn can_centre(size: (u16, u16), term_size: (u16, u16)) -> bool {
    size.0 / 2 <= term_size.0 / 2 && size.1 / 2 <= term_size.1 / 2
}

/// The column and row at which something of the given size begins when it
/// stands centred on a terminal of the given size.
pub open spec fn centred(size: (u16, u16), term_size: (u16, u16)) -> (int, int) {
    (term_size.0 / 2 - size.0 / 2, term_size.1 / 2 - size.1 / 2)
}

/// Whether something of the given size can be centred on the terminal.
pub fn can_be_centred(size: (u16, u16), term_size: (u16, u16)) -> (fits: bool)
    ensures
        fits == can_centre(size, term_size),
{
    size.0 / 2 <= term_size.0 / 2 && size.1 / 2 <= term_size.1 / 2
}

/// Two more than `v`, as far as sixteen bits go.
pub open spec fn add2(v: u16) -> u16 {
    (v + 2) as u16
}

/// Computes `centred`.
pub fn get_centered_coords(size: (u16, u16), term_size: (u16, u16)) -> (coords: (u16, u16))
    requires
        can_centre(size, term_size),
    ensures
        (coords.0 as int, coords.1 as int) == centred(size, term_size),
{
    let (w, h) = term_size;
    (w / 2 - size.0 / 2, h / 2 - size.1 / 2)
}

/// The rows that a terminal of the given height is cleared on: all but the
/// last, from the top down.
pub fn rows_to_clear(term_height: u16) -> (rows: Vec<u16>)
    requires
        term_height >= 1,
    ensures
        rows@.len() == term_height - 1,
        forall|k: int| 0 <= k < rows@.len() ==> #[trigger] rows@[k] == k + 1,
{
    let mut rows: Vec<u16> = Vec::new();
    let mut row: u16 = 1;
    while row < term_height
        invariant
            1 <= row <= term_height,
            rows@.len() == row - 1,
            forall|k: int| 0 <= k < rows@.len() ==> #[trigger] rows@[k] == k + 1,
        decreases term_height - row,
    {
        rows.push(row);
        row += 1;
    }
    rows
}

/// The digit `d` as text.
pub open spec fn digit_text(d: int) -> Seq<char> {
    if d == 0 {
        "0"@
    } else if d == 1 {
        "1"@
    } else if d == 2 {
        "2"@
    } else if d == 3 {
        "3"@
    } else if d == 4 {
        "4"@
    } else if d == 5 {
        "5"@
    } else if d == 6 {
        "6"@
    } else if d == 7 {
        "7"@
    } else if d == 8 {
        "8"@
    } else {
        "9"@
    }
}

/// The number `n` written in decimal digits, without leading zeros.
pub open spec fn decimal(n: nat) -> Seq<char>
    decreases n,
{
    if n < 10 {
        digit_text(n as int)
    } else {
        decimal(n / 10) + digit_text((n % 10) as int)
    }
}

/// Computes `digit_text`.
fn digit_str(d: u32) -> (text: &'static str)
    requires
        d < 10,
    ensures
        text@ == digit_text(d as int),
{
    if d == 0 {
        "0"
    } else if d == 1 {
        "1"
    } else if d == 2 {
        "2"
    } else if d == 3 {
        "3"
    } else if d == 4 {
        "4"
    } else if d == 5 {
        "5"
    } else if d == 6 {
        "6"
    } else if d == 7 {
        "7"
    } else if d == 8 {
        "8"
    } else {
        "9"
    }
}

/// Writes `n` in decimal digits.
pub fn decimal_text(n: u32) -> (text: String)
    ensures
        text@ == decimal(n as nat),
    decreases n,
{
    if n < 10 {
        digit_str(n).to_owned()
    } else {
        let mut text = decimal_text(n / 10);
        text.push_str(digit_str(n % 10));
        text
    }
}

/// A caption of `len` bytes can be centred `drop` rows below a field of size
/// `bounds` that begins at `offset`: it does not begin left of column zero,
/// and column and row stay within sixteen bits.
pub open spec fn caption_fits(len: int, offset: (u16, u16), bounds: (u16, u16), drop: u16) -> bool {
    &&& offset.0 + bounds.0 / 2 <= u16::MAX
    &&& len / 2 <= offset.0 + bounds.0 / 2
    &&& offset.1 + bounds.1 + drop <= u16::MAX
}

/// The column and row of such a caption.
pub open spec fn caption_position(len: int, offset: (u16, u16), bounds: (u16, u16), drop: u16) -> (
    int,
    int,
) {
    (offset.0 + bounds.0 / 2 - len / 2, offset.1 + bounds.1 + drop)
}

/// The caption `text` centred `drop` rows below a field of size `bounds`
/// that begins at `offset`, or nothing where it does not fit.
pub fn caption_below(text: &str, offset: (u16, u16), bounds: (u16, u16), drop: u16) -> (placed:
    Option<TextAt>)
    ensures
        placed is Some <==> caption_fits(byte_len(text) as int, offset, bounds, drop),
        placed matches Some(caption) ==> caption@ == plain_text(
            caption_position(byte_len(text) as int, offset, bounds, drop),
            text@,
        ),
{
    let middle: u32 = offset.0 as u32 + (bounds.0 / 2) as u32;
    let row: u32 = offset.1 as u32 + bounds.1 as u32 + drop as u32;
    let half = text.len() / 2;
    if middle > 65535 || row > 65535 || half > middle as usize {
        return None;
    }
    Some(TextAt::new(text, ((middle - half as u32) as u16, row as u16)))
}

} // verus!
