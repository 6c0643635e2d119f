//! Text placed on the terminal relative to a frame that is centred on it.
//!
//! Nothing here writes to the terminal. The functions say what is to be
//! written and where, as a list of `TextAt`, and leave the writing to the
//! caller.

use vstd::prelude::*;
use crate::outside::{bold_code, style_reset_code};

pub mod boxes;
pub mod menu;
pub mod text;
pub mod util;

verus! {

/// The sixteen named colours of a terminal.
#[derive(Debug, Clone, Copy, PartialEq, Eq)]
pub enum Color {
    Black,
    Red,
    Green,
    Yellow,
    Blue,
    Magenta,
    Cyan,
    White,
    LightBlack,
    LightRed,
    LightGreen,
    LightYellow,
    LightBlue,
    LightMagenta,
    LightCyan,
    LightWhite,
}

/// A piece of text to be written with the cursor at column `x` and row `y`,
/// both counted from one, on the given background and in the given
/// foreground colour where one is set.
#[derive(Debug, Clone, PartialEq, Eq)]
pub struct TextAt {
    pub x: u16,
    pub y: u16,
    pub text: String,
    pub bg: Option<Color>,
    pub fg: Option<Color>,
}

/// A `TextAt` with its text as a sequence of characters.
pub struct TextAtView {
    pub x: u16,
    pub y: u16,
    pub text: Seq<char>,
    pub bg: Option<Color>,
    pub fg: Option<Color>,
}

impl View for TextAt {
    type V = TextAtView;

    open spec fn view(&self) -> TextAtView {
        TextAtView { x: self.x, y: self.y, text: self.text@, bg: self.bg, fg: self.fg }
    }
}

/// The views of a list of texts.
pub open spec fn texts_view(texts: Seq<TextAt>) -> Seq<TextAtView> {
    Seq::new(texts.len(), |i: int| texts[i]@)
}

/// Uncoloured text at a position.
pub open spec fn plain_text(position: (int, int), text: Seq<char>) -> TextAtView {
    TextAtView { x: position.0 as u16, y: position.1 as u16, text, bg: None, fg: None }
}

/// `s` written `n` times in a row.
pub open spec fn repeated(s: Seq<char>, n: nat) -> Seq<char>
    decreases n,
{
    if n == 0 {
        Seq::empty()
    } else {
        repeated(s, (n - 1) as nat) + s
    }
}

/// The string made of `num` copies of `piece`.
pub fn repeat_str(piece: &str, num: u16) -> (new_str: String)
    ensures
        new_str@ == repeated(piece@, num as nat),
{
    let mut new_str = String::new();
    let mut written: u16 = 0;
    while written < num
        invariant
            written <= num,
            new_str@ == repeated(piece@, written as nat),
        decreases num - written,
    {
        new_str.push_str(piece);
        written += 1;
    }
    new_str
}

/// A frame of the given inner size leaves room on a terminal of the given
/// size: it is no wider than the terminal and at least two rows lower.
pub open spec fn frame_fits(bounds: (u16, u16), term_size: (u16, u16)) -> bool {
    bounds.0 <= term_size.0 && bounds.1 + 2 <= term_size.1
}

/// What is added to a column and a row of the frame to centre the frame on
/// the terminal.
pub open spec fn frame_offset(bounds: (u16, u16), term_size: (u16, u16)) -> (int, int) {
    ((term_size.0 - bounds.0) / 2, (term_size.1 - bounds.1) / 2 - 1)
}

/// `v`, but no less than one.
pub open spec fn at_least_one(v: int) -> int {
    if v < 1 {
        1
    } else {
        v
    }
}

/// The frame fits and the shifted coordinates stay within sixteen signed bits.
pub open spec fn can_place(coords: (int, int), bounds: (u16, u16), term_size: (u16, u16)) -> bool {
    &&& frame_fits(bounds, term_size)
    &&& i16::MIN <= coords.0 && coords.0 + frame_offset(bounds, term_size).0 <= i16::MAX
    &&& i16::MIN <= coords.1 && coords.1 + frame_offset(bounds, term_size).1 <= i16::MAX
}

/// The place on the terminal of the frame coordinates `coords`: shifted by
/// the frame's offset, and moved into the terminal where that falls before
/// its first column or row.
pub open spec fn screen_position(
    coords: (int, int),
    bounds: (u16, u16),
    term_size: (u16, u16),
) -> (int, int) {
    (
        at_least_one(coords.0 + frame_offset(bounds, term_size).0),
        at_least_one(coords.1 + frame_offset(bounds, term_size).1),
    )
}

/// Computes `screen_position`.
fn position_on_screen(coords: (i16, i16), bounds: (u16, u16), term_size: (u16, u16)) -> (position:
    (u16, u16))
    requires
        can_place((coords.0 as int, coords.1 as int), bounds, term_size),
    ensures
        (position.0 as int, position.1 as int) == screen_position(
            (coords.0 as int, coords.1 as int),
            bounds,
            term_size,
        ),
{
    let offset_x: u16 = (term_size.0 - bounds.0) / 2;
    let offset_y: u16 = (term_size.1 - bounds.1) / 2 - 1;
    let shifted_x: i16 = coords.0 + offset_x as i16;
    let shifted_y: i16 = coords.1 + offset_y as i16;
    let x: u16 = if shifted_x < 1 {
        1
    } else {
        shifted_x as u16
    };
    let y: u16 = if shifted_y < 1 {
        1
    } else {
        shifted_y as u16
    };
    (x, y)
}

/// The text at the frame coordinates `coords` of a frame of inner size
/// `bounds`, centred on a terminal of size `term_size`.
pub fn text_at(text: &str, coords: (i16, i16), bounds: (u16, u16), term_size: (u16, u16)) -> (placed:
    TextAt)
    requires
        can_place((coords.0 as int, coords.1 as int), bounds, term_size),
    ensures
        placed@ == plain_text(
            screen_position((coords.0 as int, coords.1 as int), bounds, term_size),
            text@,
        ),
{
    let (x, y) = position_on_screen(coords, bounds, term_size);
    TextAt { x, y, text: text.to_owned(), bg: None, fg: None }
}

/// As `text_at`, in the foreground colour `color`.
pub fn text_at_with_color(
    text: &str,
    coords: (i16, i16),
    color: Color,
    bounds: (u16, u16),
    term_size: (u16, u16),
) -> (placed: TextAt)
    requires
        can_place((coords.0 as int, coords.1 as int), bounds, term_size),
    ensures
        placed@ == (TextAtView {
            fg: Some(color),
            ..plain_text(
                screen_position((coords.0 as int, coords.1 as int), bounds, term_size),
                text@,
            )
        }),
{
    let (x, y) = position_on_screen(coords, bounds, term_size);
    TextAt { x, y, text: text.to_owned(), bg: None, fg: Some(color) }
}

/// As `text_at`, on the background colour `color`.
pub fn text_at_with_bg_color(
    text: &str,
    coords: (i16, i16),
    color: Color,
    bounds: (u16, u16),
    term_size: (u16, u16),
) -> (placed: TextAt)
    requires
        can_place((coords.0 as int, coords.1 as int), bounds, term_size),
    ensures
        placed@ == (TextAtView {
            bg: Some(color),
            ..plain_text(
                screen_position((coords.0 as int, coords.1 as int), bounds, term_size),
                text@,
            )
        }),
{
    let (x, y) = position_on_screen(coords, bounds, term_size);
    TextAt { x, y, text: text.to_owned(), bg: Some(color), fg: None }
}

/// The number of bytes that the characters take in a string.
pub open spec fn utf8_len(chars: Seq<char>) -> usize {
    vstd::utf8::encode_utf8(chars).len() as usize
}

/// The number of bytes of a string, as `str::len` gives it.
pub open spec fn byte_len(text: &str) -> usize {
    utf8_len(text@)
}

/// Where a line of `byte_len` bytes goes to stand centred three rows below
/// the top of a frame of inner size `bounds`, in frame coordinates.
pub open spec fn caption_coords(byte_len: int, bounds: (u16, u16)) -> (int, int) {
    (bounds.0 / 2 - byte_len / 2 + 1, bounds.1 + 3)
}

/// The caption `text` of a frame: the text, centred below the frame.
pub fn write_text(text: &str, bounds: (u16, u16), term_size: (u16, u16)) -> (placed: TextAt)
    requires
        bounds.0 <= i16::MAX,
        bounds.1 + 3 <= i16::MAX,
        byte_len(text) <= i16::MAX,
        can_place(caption_coords(byte_len(text) as int, bounds), bounds, term_size),
    ensures
        placed@ == plain_text(
            screen_position(
                caption_coords(byte_len(text) as int, bounds),
                bounds,
                term_size,
            ),
            text@,
        ),
{
    let coords: (i16, i16) = (
        bounds.0 as i16 / 2 - (text.len() as i16 / 2) + 1,
        bounds.1 as i16 + 3,
    );
    text_at(text, coords, bounds, term_size)
}

/// The number of pieces that the border of a frame is drawn in.
pub open spec fn border_len(bounds: (u16, u16)) -> int {
    6 + 2 * bounds.1
}

/// The text of piece `k` of the border of a frame: the four corners, the top
/// and the bottom line, then the left and the right bar of each row.
pub open spec fn border_text(k: int, bounds: (u16, u16)) -> Seq<char> {
    if k == 0 {
        "┌"@
    } else if k == 1 {
        "┐"@
    } else if k == 2 {
        "└"@
    } else if k == 3 {
        "┘"@
    } else if k == 4 || k == 5 {
        repeated("─"@, bounds.0 as nat)
    } else {
        "│"@
    }
}

/// Where piece `k` of the border of a frame goes, in frame coordinates.
pub open spec fn border_coords(k: int, bounds: (u16, u16)) -> (int, int) {
    let right = bounds.0 + 2;
    let bottom = bounds.1 + 2;
    if k == 0 {
        (1, 1)
    } else if k == 1 {
        (right, 1)
    } else if k == 2 {
        (1, bottom)
    } else if k == 3 {
        (right, bottom)
    } else if k == 4 {
        (2, 1)
    } else if k == 5 {
        (2, bottom)
    } else if (k - 6) % 2 == 0 {
        (1, 2 + (k - 6) / 2)
    } else {
        (right, 2 + (k - 6) / 2)
    }
}

/// The border of a frame of inner size `bounds`: a box of line-drawing
/// characters around it, one column and one row outside the frame.
pub fn draw_border(bounds: (u16, u16), term_size: (u16, u16)) -> (pieces: Vec<TextAt>)
    requires
        can_place((bounds.0 + 2, bounds.1 + 2), bounds, term_size),
    ensures
        pieces@.len() == border_len(bounds),
        forall|k: int|
            0 <= k < pieces@.len() ==> (#[trigger] pieces@[k])@ == plain_text(
                screen_position(border_coords(k, bounds), bounds, term_size),
                border_text(k, bounds),
            ),
{
    let (w, h) = bounds;
    let right: i16 = (w + 2) as i16;
    let bottom: i16 = (h + 2) as i16;
    let mut pieces: Vec<TextAt> = Vec::new();
    pieces.push(text_at("┌", (1, 1), bounds, term_size));
    pieces.push(text_at("┐", (right, 1), bounds, term_size));
    pieces.push(text_at("└", (1, bottom), bounds, term_size));
    pieces.push(text_at("┘", (right, bottom), bounds, term_size));
    let line = repeat_str("─", w);
    pieces.push(text_at(line.as_str(), (2, 1), bounds, term_size));
    pieces.push(text_at(line.as_str(), (2, bottom), bounds, term_size));
    let mut row: u16 = 2;
    while row <= h + 1
        invariant
            (w, h) == bounds,
            right == w + 2,
            bottom == h + 2,
            can_place((bounds.0 + 2, bounds.1 + 2), bounds, term_size),
            2 <= row <= h + 2,
            pieces@.len() == 6 + 2 * (row - 2),
            forall|k: int|
                0 <= k < pieces@.len() ==> (#[trigger] pieces@[k])@ == plain_text(
                    screen_position(border_coords(k, bounds), bounds, term_size),
                    border_text(k, bounds),
                ),
        decreases h + 2 - row,
    {
        pieces.push(text_at("│", (1, row as i16), bounds, term_size));
        pieces.push(text_at("│", (right, row as i16), bounds, term_size));
        row += 1;
    }
    pieces
}

/// The filled box of a frame: each row of the frame as a run of full
/// blocks in the given colour.
pub fn draw_filled_box(size: (u16, u16), color: Color, term_size: (u16, u16)) -> (rows: Vec<TextAt>)
    requires
        can_place((1, size.1 as int), size, term_size),
    ensures
        rows@.len() == size.1,
        forall|k: int|
            0 <= k < rows@.len() ==> (#[trigger] rows@[k])@ == (TextAtView {
                fg: Some(color),
                ..plain_text(
                    screen_position((1, k + 1), size, term_size),
                    repeated("█"@, size.0 as nat),
                )
            }),
{
    let mut rows: Vec<TextAt> = Vec::new();
    let line = repeat_str("█", size.0);
    let mut y: u16 = 1;
    while y <= size.1
        invariant
            can_place((1, size.1 as int), size, term_size),
            line@ == repeated("█"@, size.0 as nat),
            1 <= y <= size.1 + 1,
            rows@.len() == y - 1,
            forall|k: int|
                0 <= k < rows@.len() ==> (#[trigger] rows@[k])@ == (TextAtView {
                    fg: Some(color),
                    ..plain_text(
                        screen_position((1, k + 1), size, term_size),
                        repeated("█"@, size.0 as nat),
                    )
                }),
        decreases size.1 + 1 - y,
    {
        rows.push(text_at_with_color(line.as_str(), (1, y as i16), color, size, term_size));
        y += 1;
    }
    rows
}

impl TextAt {
    /// `text` at the given column and row, uncoloured.
    pub fn new(text: &str, coords: (u16, u16)) -> (placed: TextAt)
        ensures
            placed@ == plain_text((coords.0 as int, coords.1 as int), text@),
    {
        TextAt { x: coords.0, y: coords.1, text: text.to_owned(), bg: None, fg: None }
    }

    /// `text` at the given column and row, on the background `bg` and in the
    /// foreground `fg`.
    pub fn with_cols(text: &str, coords: (u16, u16), bg: Option<Color>, fg: Option<Color>) -> (placed:
        TextAt)
        ensures
            placed@ == (TextAtView {
                bg,
                fg,
                ..plain_text((coords.0 as int, coords.1 as int), text@)
            }),
    {
        TextAt { x: coords.0, y: coords.1, text: text.to_owned(), bg, fg }
    }
}

/// Whether `text_at` can place text at `coords`.
pub fn fits_frame(coords: (i16, i16), bounds: (u16, u16), term_size: (u16, u16)) -> (fits: bool)
    ensures
        fits == can_place((coords.0 as int, coords.1 as int), bounds, term_size),
{
    if bounds.0 > term_size.0 || term_size.1 < 2 || bounds.1 > term_size.1 - 2 {
        return false;
    }
    let offset_x: u16 = (term_size.0 - bounds.0) / 2;
    let offset_y: u16 = (term_size.1 - bounds.1) / 2 - 1;
    coords.0 as i32 + offset_x as i32 <= i16::MAX as i32 && coords.1 as i32 + offset_y as i32
        <= i16::MAX as i32
}

/// One entry of a menu: what is shown and what is handed back when the entry
/// is chosen.
#[derive(Debug, Clone, Copy, PartialEq, Eq)]
pub struct MenuItem<'a> {
    label: &'a str,
    value: &'a str,
}

impl<'a> MenuItem<'a> {
    /// The label as characters.
    pub closed spec fn label_text(&self) -> Seq<char> {
        self.label@
    }

    /// The number of bytes of the label.
    pub closed spec fn label_len(&self) -> usize {
        byte_len(self.label)
    }

    /// The value as characters.
    pub closed spec fn value_text(&self) -> Seq<char> {
        self.value@
    }

    /// The entry with the given label and value.
    pub fn new(label: &'a str, value: &'a str) -> (item: MenuItem<'a>)
        ensures
            item.label_text() == label@,
            item.label_len() == byte_len(label),
            item.value_text() == value@,
    {
        MenuItem { label, value }
    }

    /// What the entry shows.
    pub fn label(&self) -> (label: &'a str)
        ensures
            label@ == self.label_text(),
            byte_len(label) == self.label_len(),
    {
        self.label
    }

    /// What the entry stands for.
    pub fn value(&self) -> (value: &'a str)
        ensures
            value@ == self.value_text(),
    {
        self.value
    }
}

/// The greatest byte length among the labels of the first `n` items.
pub open spec fn longest_label(items: Seq<MenuItem>, n: nat) -> usize
    decreases n,
{
    if n == 0 {
        0
    } else if items[n - 1].label_len() > longest_label(items, (n - 1) as nat) {
        items[n - 1].label_len()
    } else {
        longest_label(items, (n - 1) as nat)
    }
}

/// Computes `longest_label` over all items.
pub fn longest_label_len(items: &Vec<MenuItem>) -> (longest: usize)
    ensures
        longest == longest_label(items@, items@.len()),
{
    let mut longest: usize = 0;
    let mut i: usize = 0;
    while i < items.len()
        invariant
            i <= items@.len(),
            longest == longest_label(items@, i as nat),
        decreases items@.len() - i,
    {
        let len = items[i].label().len();
        if len > longest {
            longest = len;
        }
        i += 1;
    }
    longest
}

/// The line of a menu entry: the label behind two blanks, or, for the
/// selected entry, behind a mark and in bold.
pub open spec fn menu_label(label: Seq<char>, selected: bool) -> Seq<char> {
    if selected {
        "\x1B[1m"@ + ">"@ + " "@ + label + "\x1B[m"@
    } else {
        "  "@ + label
    }
}

/// Computes `menu_label`.
pub fn menu_label_text(label: &str, selected: bool) -> (line: String)
    ensures
        line@ == menu_label(label@, selected),
{
    if selected {
        let mut line = bold_code();
        line.push_str(">");
        line.push_str(" ");
        line.push_str(label);
        let reset = style_reset_code();
        line.push_str(reset.as_str());
        line
    } else {
        let mut line = String::new();
        line.push_str("  ");
        line.push_str(label);
        assert(line@ =~= "  "@ + label@);
        line
    }
}

/// The smaller of two numbers.
pub open spec fn lesser(a: int, b: int) -> int {
    if a < b {
        a
    } else {
        b
    }
}

/// The greater of two numbers.
pub open spec fn greater(a: int, b: int) -> int {
    if a > b {
        a
    } else {
        b
    }
}

/// The inner size of the frame of a menu on a terminal of size `term_size`:
/// as wide as the longest label or the title and two more, and one row per
/// entry and one more, as far as the terminal has room for that.
pub open spec fn menu_size(longest: int, title_len: int, count: int, term_size: (u16, u16)) -> (
    int,
    int,
) {
    let widest = greater(
        if count == 0 {
            5
        } else {
            longest
        },
        title_len,
    );
    (
        lesser(widest + 2, term_size.0 - 4),
        lesser(lesser(count, term_size.1 as int) + 1, term_size.1 - 4),
    )
}

/// The menu can be laid out: the terminal has at least four columns and
/// rows, and lengths and coordinates stay within sixteen bits.
pub open spec fn menu_fits(longest: int, title_len: int, count: int, term_size: (u16, u16)) -> bool {
    let size = menu_size(longest, title_len, count, term_size);
    &&& 4 <= term_size.0 <= i16::MAX
    &&& 4 <= term_size.1
    &&& longest + 2 <= u16::MAX
    &&& title_len + 2 <= u16::MAX
    &&& count + term_size.1 <= i16::MAX
    &&& size.1 + (term_size.0 - size.0) / 2 <= i16::MAX
}

/// Whether a menu can be laid out.
pub fn menu_fits_on(items: &Vec<MenuItem>, title: &str, term_size: (u16, u16)) -> (fits: bool)
    ensures
        fits == menu_fits(
            longest_label(items@, items@.len()) as int,
            byte_len(title) as int,
            items@.len() as int,
            term_size,
        ),
{
    let longest = longest_label_len(items);
    let title_len = title.len();
    let count = items.len();
    if term_size.0 < 4 || term_size.0 > 32767 || term_size.1 < 4 || longest > 65533 || title_len
        > 65533 || count > 32767 || term_size.1 > 32767 || count + term_size.1 as usize > 32767 {
        return false;
    }
    let widest: usize = if count == 0 {
        if title_len > 5 {
            title_len
        } else {
            5
        }
    } else if title_len > longest {
        title_len
    } else {
        longest
    };
    let room_x: usize = (term_size.0 - 4) as usize;
    let room_y: usize = (term_size.1 - 4) as usize;
    let width: usize = if widest + 2 < room_x {
        widest + 2
    } else {
        room_x
    };
    let rows: usize = if count < term_size.1 as usize {
        count
    } else {
        term_size.1 as usize
    };
    let height: usize = if rows + 1 < room_y {
        rows + 1
    } else {
        room_y
    };
    height + (term_size.0 as usize - width) / 2 <= 32767
}

/// The number of texts that a menu is drawn in: its border, its title, and
/// one line per entry.
pub open spec fn menu_len(count: int, size: (u16, u16)) -> int {
    border_len(size) + 1 + count
}

/// A menu of the given entries under the given title, with the entry of
/// index `selected_index` marked: first the border of its frame, then the
/// title, then the entries from the top down.
pub fn draw_menu_render(
    items: &Vec<MenuItem>,
    title: &str,
    selected_index: usize,
    term_size: (u16, u16),
) -> (texts: Vec<TextAt>)
    requires
        menu_fits(
            longest_label(items@, items@.len()) as int,
            byte_len(title) as int,
            items@.len() as int,
            term_size,
        ),
    ensures
        ({
            let wide = menu_size(
                longest_label(items@, items@.len()) as int,
                byte_len(title) as int,
                items@.len() as int,
                term_size,
            );
            let size = (wide.0 as u16, wide.1 as u16);
            let border = border_len(size);
            &&& texts@.len() == menu_len(items@.len() as int, size)
            &&& forall|k: int|
                0 <= k < border ==> (#[trigger] texts@[k])@ == plain_text(
                    screen_position(border_coords(k, size), size, term_size),
                    border_text(k, size),
                )
            &&& texts@[border]@ == plain_text(
                screen_position((size.1 as int, size.1 - 1), size, term_size),
                title@,
            )
            &&& forall|i: int|
                0 <= i < items@.len() ==> (#[trigger] texts@[border + 1 + i])@ == plain_text(
                    screen_position((size.1 as int, i + size.1), size, term_size),
                    menu_label(items@[i].label_text(), i == selected_index),
                )
        }),
{
    let longest = longest_label_len(items);
    let mut max_length: u16 = if items.len() == 0 {
        5
    } else {
        longest as u16
    };
    if title.len() as u16 > max_length {
        max_length = title.len() as u16;
    }
    let wide = max_length + 2;
    let room = term_size.0 - 4;
    let count = items.len() as u16;
    let rows = if count < term_size.1 {
        count
    } else {
        term_size.1
    };
    let high = rows + 1;
    let room_below = term_size.1 - 4;
    let size: (u16, u16) = (
        if wide < room {
            wide
        } else {
            room
        },
        if high < room_below {
            high
        } else {
            room_below
        },
    );
    let mut texts = draw_border(size, term_size);
    let ghost border = border_len(size);
    texts.push(text_at(title, (size.1 as i16 - 1 + 1, size.1 as i16 - 1), size, term_size));
    let mut i: usize = 0;
    while i < items.len()
        invariant
            i <= items@.len(),
            border == border_len(size),
            items@.len() + term_size.1 <= i16::MAX,
            size.1 + 4 <= term_size.1,
            size.0 <= term_size.0,
            size.1 + (term_size.0 - size.0) / 2 <= i16::MAX,
            texts@.len() == border + 1 + i,
            forall|k: int|
                0 <= k < border ==> (#[trigger] texts@[k])@ == plain_text(
                    screen_position(border_coords(k, size), size, term_size),
                    border_text(k, size),
                ),
            texts@[border]@ == plain_text(
                screen_position((size.1 as int, size.1 - 1), size, term_size),
                title@,
            ),
            forall|j: int|
                0 <= j < i ==> (#[trigger] texts@[border + 1 + j])@ == plain_text(
                    screen_position((size.1 as int, j + size.1), size, term_size),
                    menu_label(items@[j].label_text(), j == selected_index),
                ),
        decreases items@.len() - i,
    {
        let line = menu_label_text(items[i].label(), i == selected_index);
        texts.push(
            text_at(line.as_str(), (size.1 as i16, (i as u16 + size.1) as i16), size, term_size),
        );
        i += 1;
    }
    texts
}

/// A key that a menu reacts to, or any other.
#[derive(Debug, Clone, Copy, PartialEq, Eq)]
pub enum MenuKey {
    Up,
    Down,
    Enter,
    Other,
}

/// What a menu does next.
#[derive(Debug, Clone, Copy, PartialEq, Eq)]
pub enum MenuStep {
    /// Draw the menu again with this entry selected, and read the next key.
    Show(usize),
    /// Leave the menu with this entry as the choice.
    Chosen(usize),
}

/// The step of a menu whose selection wraps round at both ends: up and down
/// move the selection by one entry, from the first entry up to the last and
/// from the last down to the first; enter chooses the selected entry; any
/// other key changes nothing.
pub fn draw_menu(selected_index: usize, key: MenuKey, item_count: usize) -> (step: MenuStep)
    requires
        0 < item_count <= i16::MAX,
        selected_index < item_count,
        selected_index - 1 + item_count <= i16::MAX,
    ensures
        step == match key {
            MenuKey::Up => MenuStep::Show(((selected_index + item_count - 1) % (item_count as int)) as usize),
            MenuKey::Down => MenuStep::Show(((selected_index + 1) % (item_count as int)) as usize),
            MenuKey::Enter => MenuStep::Chosen(selected_index),
            MenuKey::Other => MenuStep::Show(selected_index),
        },
{
    match key {
        MenuKey::Up => MenuStep::Show(
            ((selected_index as i16 - 1 + item_count as i16) % item_count as i16) as usize,
        ),
        MenuKey::Down => MenuStep::Show((selected_index + 1) % item_count),
        MenuKey::Enter => MenuStep::Chosen(selected_index),
        MenuKey::Other => MenuStep::Show(selected_index),
    }
}

/// The value of the entry that was chosen.
pub fn chosen_value(items: &Vec<MenuItem>, selected_index: usize) -> (value: String)
    requires
        selected_index < items@.len(),
    ensures
        value@ == items@[selected_index as int].value_text(),
{
    items[selected_index].value().to_owned()
}

} // verus!
