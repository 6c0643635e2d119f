//! A menu in a box, with more entries than it shows at once.

use vstd::prelude::*;
use std::ops::Range;
use crate::outside::{bold_code, underline_code};
use crate::screen::{
    MenuKey, MenuStep, TextAt, byte_len, lesser, menu_label, menu_label_text, plain_text,
};
use crate::screen::boxes::BoxPrint;
use crate::screen::text::TextPrint;
use crate::screen::util::{centred, get_centered_coords};

verus! {

/// One entry of a menu: what is shown and what is handed back when the entry
/// is chosen.
#[derive(Debug, Clone, Copy, PartialEq, Eq)]
pub struct MenuItem<'a> {
    label: &'a str,
    value: &'a str,
}

impl<'a> MenuItem<'a> {
    /// The label as characters.
    pub closed spec fn label_text(&self) -> Seq<char> {
        self.label@
    }

    /// The number of bytes of the label.
    pub closed spec fn label_len(&self) -> usize {
        byte_len(self.label)
    }

    /// The value as characters.
    pub closed spec fn value_text(&self) -> Seq<char> {
        self.value@
    }

    /// The entry with the given label and value.
    pub fn new(label: &'a str, value: &'a str) -> (item: MenuItem<'a>)
        ensures
            item.label_text() == label@,
            item.label_len() == byte_len(label),
            item.value_text() == value@,
    {
        MenuItem { label, value }
    }

    /// What the entry shows.
    pub fn label(&self) -> (label: &'a str)
        ensures
            label@ == self.label_text(),
            byte_len(label) == self.label_len(),
    {
        self.label
    }

    /// What the entry stands for.
    pub fn value(&self) -> (value: &'a str)
        ensures
            value@ == self.value_text(),
    {
        self.value
    }
}

/// The number of entries that a menu shows at once.
pub const MAX_WINDOW_ITEMS: usize = 7;

/// The index of the first entry shown of `count` entries, when the entry
/// `selected` is selected and up to `max` entries are shown: such that the
/// selected entry stands in the middle of those shown, as far as the first
/// and the last entry allow.
pub open spec fn window_start(count: int, selected: int, max: int) -> int {
    if count < max || selected < max / 2 {
        0
    } else if selected - max / 2 <= count - max {
        selected - max / 2
    } else {
        count - max
    }
}

/// The index behind the last entry shown.
pub open spec fn window_end(count: int, selected: int, max: int) -> int {
    if count < max {
        count
    } else {
        window_start(count, selected, max) + max
    }
}

/// The range of the entries that a menu shows of `items`, when the entry
/// `selected_index` is selected and up to `max_window_size` entries are
/// shown.
pub fn get_window_scroll_items_range<T>(
    items: &Vec<T>,
    selected_index: usize,
    max_window_size: usize,
) -> (shown: Range<usize>)
    requires
        max_window_size > 0,
    ensures
        shown.start == window_start(
            items@.len() as int,
            selected_index as int,
            max_window_size as int,
        ),
        shown.end == window_end(items@.len() as int, selected_index as int, max_window_size as int),
        shown.start <= shown.end <= items@.len(),
{
    let count = items.len();
    if count < max_window_size {
        return 0..count;
    }
    let selected_offset = max_window_size / 2;
    let last_start = count - max_window_size;
    let start = if selected_index < selected_offset {
        0
    } else if selected_index - selected_offset <= last_start {
        selected_index - selected_offset
    } else {
        last_start
    };
    start..(start + max_window_size)
}

/// The greatest byte length among the labels of the first `n` items.
pub open spec fn longest_label(items: Seq<MenuItem>, n: nat) -> usize
    decreases n,
{
    if n == 0 {
        0
    } else if items[n - 1].label_len() > longest_label(items, (n - 1) as nat) {
        items[n - 1].label_len()
    } else {
        longest_label(items, (n - 1) as nat)
    }
}

/// Computes `longest_label` over all items.
pub fn longest_label_len(items: &Vec<MenuItem>) -> (longest: usize)
    ensures
        longest == longest_label(items@, items@.len()),
{
    let mut longest: usize = 0;
    let mut i: usize = 0;
    while i < items.len()
        invariant
            i <= items@.len(),
            longest == longest_label(items@, i as nat),
        decreases items@.len() - i,
    {
        let len = items[i].label().len();
        if len > longest {
            longest = len;
        }
        i += 1;
    }
    longest
}

/// The size of the box of a menu on a terminal of size `term_size`: room for
/// the longest label with its mark, or for the title, and for the entries
/// shown and the title row, as far as the terminal has room for that.
pub open spec fn menu_size(longest: int, title_len: int, count: int, term_size: (u16, u16)) -> (
    int,
    int,
) {
    let labels = if count == 0 {
        5
    } else {
        longest + 4
    };
    let widest = if title_len > labels {
        title_len + 2
    } else {
        labels
    };
    (
        lesser(widest + 2, term_size.0 - 4),
        lesser(lesser(MAX_WINDOW_ITEMS as int, count) + 3, term_size.1 as int),
    )
}

/// The menu can be laid out: it has an entry, the terminal has six columns
/// and two rows at least, and the lengths of label and title stay within
/// sixteen bits.
pub open spec fn menu_fits(longest: int, title_len: int, count: int, term_size: (u16, u16)) -> bool {
    &&& count > 0
    &&& 6 <= term_size.0
    &&& 2 <= term_size.1
    &&& longest + 6 <= u16::MAX
    &&& title_len + 4 <= u16::MAX
}

/// Whether a menu can be laid out.
pub fn menu_fits_on(items: &Vec<MenuItem>, title: &str, term_size: (u16, u16)) -> (fits: bool)
    ensures
        fits == menu_fits(
            longest_label(items@, items@.len()) as int,
            byte_len(title) as int,
            items@.len() as int,
            term_size,
        ),
{
    items.len() > 0 && term_size.0 >= 6 && term_size.1 >= 2 && longest_label_len(items) <= 65529
        && title.len() <= 65531
}

/// The title of a menu as it is written: bold and underlined.
pub open spec fn title_text(title: Seq<char>) -> Seq<char> {
    "\x1B[1m"@ + "\x1B[4m"@ + title + "\x1B[m"@
}

/// The box of a menu of the given size, centred on the terminal.
pub open spec fn menu_box(size: (int, int), term_size: (u16, u16)) -> BoxPrint {
    let size = (size.0 as u16, size.1 as u16);
    BoxPrint {
        coords: (centred(size, term_size).0 as u16, centred(size, term_size).1 as u16),
        size,
        has_border: true,
        fill_col: None,
        border_col: None,
    }
}

/// A menu of the given entries under the given title, with the entry of
/// index `selected_index` marked: first its box, filling and border, then
/// the title, then the entries shown, from the top down.
pub fn draw_menu_render(
    items: &Vec<MenuItem>,
    title: &str,
    selected_index: usize,
    term_size: (u16, u16),
) -> (texts: Vec<TextAt>)
    requires
        menu_fits(
            longest_label(items@, items@.len()) as int,
            byte_len(title) as int,
            items@.len() as int,
            term_size,
        ),
    ensures
        ({
            let frame = menu_box(
                menu_size(
                    longest_label(items@, items@.len()) as int,
                    byte_len(title) as int,
                    items@.len() as int,
                    term_size,
                ),
                term_size,
            );
            let first = window_start(
                items@.len() as int,
                selected_index as int,
                MAX_WINDOW_ITEMS as int,
            );
            let behind = window_end(
                items@.len() as int,
                selected_index as int,
                MAX_WINDOW_ITEMS as int,
            );
            let boxed = frame.size.1 + frame.border_len();
            &&& texts@.len() == boxed + 1 + (behind - first)
            &&& forall|k: int|
                0 <= k < frame.size.1 ==> (#[trigger] texts@[k])@ == frame.fill_row(k)
            &&& forall|k: int|
                frame.size.1 <= k < boxed ==> (#[trigger] texts@[k])@ == frame.border_piece(
                    k - frame.size.1,
                )
            &&& texts@[boxed]@ == plain_text(
                (frame.coords.0 + 2, frame.coords.1 + 1),
                title_text(title@),
            )
            &&& forall|i: int|
                0 <= i < behind - first ==> (#[trigger] texts@[boxed + 1 + i])@ == plain_text(
                    (frame.coords.0 + 2, frame.coords.1 + 2 + i),
                    menu_label(items@[first + i].label_text(), first + i == selected_index),
                )
        }),
{
    let longest = longest_label_len(items);
    let mut max_length: u16 = if items.len() == 0 {
        5
    } else {
        longest as u16 + 4
    };
    if title.len() as u16 > max_length {
        max_length = title.len() as u16 + 2;
    }
    let wide = max_length + 2;
    let room = term_size.0 - 4;
    let rows = if MAX_WINDOW_ITEMS < items.len() {
        MAX_WINDOW_ITEMS
    } else {
        items.len()
    };
    let high = rows as u16 + 3;
    let size: (u16, u16) = (
        if wide < room {
            wide
        } else {
            room
        },
        if high < term_size.1 {
            high
        } else {
            term_size.1
        },
    );
    let shown = get_window_scroll_items_range(items, selected_index, MAX_WINDOW_ITEMS);
    let first = shown.start;
    let behind = shown.end;
    let coords = get_centered_coords(size, term_size);
    let mut box_print = BoxPrint::new(size, term_size);
    box_print.at_coords(coords);
    box_print.set_border(true);
    let ghost frame = box_print;
    let mut texts = box_print.print();
    let ghost boxed = frame.size.1 + frame.border_len();
    let mut heading = TextPrint::new(title, (coords.0 + 2, coords.1 + 1));
    let bold = bold_code();
    let underline = underline_code();
    heading.add_prefix(bold.as_str());
    heading.add_prefix(underline.as_str());
    proof {
        reveal_with_fuel(crate::screen::text::joined, 3);
        assert(heading.styled() =~= title_text(title@));
    }
    texts.push(heading.print());
    let mut i: usize = 0;
    while first + i < behind
        invariant
            first <= behind <= items@.len(),
            first + i <= behind,
            frame == box_print,
            boxed == frame.size.1 + frame.border_len(),
            frame.coords == coords,
            coords.0 <= u16::MAX / 2,
            coords.1 <= u16::MAX / 2,
            behind - first <= MAX_WINDOW_ITEMS,
            texts@.len() == boxed + 1 + i,
            forall|k: int| 0 <= k < frame.size.1 ==> (#[trigger] texts@[k])@ == frame.fill_row(k),
            forall|k: int|
                frame.size.1 <= k < boxed ==> (#[trigger] texts@[k])@ == frame.border_piece(
                    k - frame.size.1,
                ),
            texts@[boxed]@ == plain_text(
                (frame.coords.0 + 2, frame.coords.1 + 1),
                title_text(title@),
            ),
            forall|j: int|
                0 <= j < i ==> (#[trigger] texts@[boxed + 1 + j])@ == plain_text(
                    (frame.coords.0 + 2, frame.coords.1 + 2 + j),
                    menu_label(items@[first + j].label_text(), first + j == selected_index),
                ),
        decreases behind - first - i,
    {
        let item_index = i + first;
        let line = menu_label_text(items[item_index].label(), item_index == selected_index);
        texts.push(TextAt::new(line.as_str(), (coords.0 + 2, coords.1 + 2 + i as u16)));
        i += 1;
    }
    texts
}

/// The step of a menu whose selection stops at both ends: up and down move
/// the selection by one entry, but not above the first and not below the
/// last; enter chooses the selected entry; any other key changes nothing.
pub fn draw_menu(selected_index: usize, key: MenuKey, item_count: usize) -> (step: MenuStep)
    requires
        key is Down ==> item_count > 0 && selected_index < usize::MAX,
    ensures
        step == match key {
            MenuKey::Up => MenuStep::Show(
                if selected_index == 0 {
                    0usize
                } else {
                    (selected_index - 1) as usize
                },
            ),
            MenuKey::Down => MenuStep::Show(
                if selected_index == item_count - 1 {
                    selected_index
                } else {
                    (selected_index + 1) as usize
                },
            ),
            MenuKey::Enter => MenuStep::Chosen(selected_index),
            MenuKey::Other => MenuStep::Show(selected_index),
        },
{
    match key {
        MenuKey::Up => MenuStep::Show(
            if selected_index == 0 {
                0
            } else {
                selected_index - 1
            },
        ),
        MenuKey::Down => MenuStep::Show(
            if selected_index == item_count - 1 {
                selected_index
            } else {
                selected_index + 1
            },
        ),
        MenuKey::Enter => MenuStep::Chosen(selected_index),
        MenuKey::Other => MenuStep::Show(selected_index),
    }
}

/// The value of the entry that was chosen.
pub fn chosen_value(items: &Vec<MenuItem>, selected_index: usize) -> (value: String)
    requires
        selected_index < items@.len(),
    ensures
        value@ == items@[selected_index as int].value_text(),
{
    items[selected_index].value().to_owned()
}

} // verus!
