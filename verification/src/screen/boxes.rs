//! Boxes drawn at a place on the terminal.

use vstd::prelude::*;
use crate::screen::{Color, TextAt, TextAtView, plain_text, repeat_str, repeated};
use crate::screen::util::{can_centre, centred, get_centered_coords};

verus! {

/// A box: where its upper left corner stands, how many columns and rows it
/// takes, whether a border is drawn, and in which colours.
#[derive(Debug, Clone, Copy, PartialEq, Eq)]
pub struct BoxPrint {
    pub coords: (u16, u16),
    pub size: (u16, u16),
    pub has_border: bool,
    pub fill_col: Option<Color>,
    pub border_col: Option<Color>,
}

/// The smaller of two lengths.
pub open spec fn shorter(a: u16, b: u16) -> u16 {
    if a < b {
        a
    } else {
        b
    }
}

/// A piece of text in the colours of a box.
pub open spec fn box_text(
    position: (int, int),
    text: Seq<char>,
    bg: Option<Color>,
    fg: Option<Color>,
) -> TextAtView {
    TextAtView { bg, fg, ..plain_text(position, text) }
}

impl BoxPrint {
    /// The border of the box can be drawn: the box has two columns and two
    /// rows at least, and ends within the columns and rows that sixteen bits
    /// can count.
    pub open spec fn border_fits(&self) -> bool {
        &&& self.size.0 >= 2
        &&& self.size.1 >= 2
        &&& self.coords.0 + self.size.0 <= u16::MAX
        &&& self.coords.1 + self.size.1 <= u16::MAX
    }

    /// The box can be drawn: it has a column and a row at least, ends within
    /// the rows that sixteen bits can count, and so does its border if it
    /// has one.
    pub open spec fn fits(&self) -> bool {
        &&& self.size.0 >= 1
        &&& self.size.1 >= 1
        &&& self.coords.1 + self.size.1 <= u16::MAX
        &&& self.has_border ==> self.border_fits()
    }

    /// Whether the border of the box can be drawn.
    pub fn can_draw_border(&self) -> (fits: bool)
        ensures
            fits == self.border_fits(),
    {
        self.size.0 >= 2 && self.size.1 >= 2 && self.coords.0 <= u16::MAX - self.size.0
            && self.coords.1 <= u16::MAX - self.size.1
    }

    /// Whether the box can be drawn.
    pub fn can_print(&self) -> (fits: bool)
        ensures
            fits == self.fits(),
    {
        self.size.0 >= 1 && self.size.1 >= 1 && self.coords.1 <= u16::MAX - self.size.1 && (
        !self.has_border || self.can_draw_border())
    }

    /// The number of pieces of the border.
    pub open spec fn border_len(&self) -> int {
        6 + 2 * (self.size.1 - 2)
    }

    /// The text of piece `k` of the border: the four corners, the top and the
    /// bottom line, then the left and the right bar of each row in between.
    pub open spec fn border_text(&self, k: int) -> Seq<char> {
        if k == 0 {
            "┌"@
        } else if k == 1 {
            "┐"@
        } else if k == 2 {
            "└"@
        } else if k == 3 {
            "┘"@
        } else if k == 4 || k == 5 {
            repeated("─"@, (self.size.0 - 2) as nat)
        } else {
            "│"@
        }
    }

    /// The column and row of piece `k` of the border.
    pub open spec fn border_position(&self, k: int) -> (int, int) {
        let (x, y) = (self.coords.0 as int, self.coords.1 as int);
        let right = x + self.size.0 - 1;
        let bottom = y + self.size.1 - 1;
        if k == 0 {
            (x, y)
        } else if k == 1 {
            (right, y)
        } else if k == 2 {
            (x, bottom)
        } else if k == 3 {
            (right, bottom)
        } else if k == 4 {
            (x + 1, y)
        } else if k == 5 {
            (x + 1, bottom)
        } else if (k - 6) % 2 == 0 {
            (x, y + 1 + (k - 6) / 2)
        } else {
            (right, y + 1 + (k - 6) / 2)
        }
    }

    /// Piece `k` of the border, in the colours of the box.
    pub open spec fn border_piece(&self, k: int) -> TextAtView {
        box_text(self.border_position(k), self.border_text(k), self.fill_col, self.border_col)
    }

    /// Row `k` of the filling of the box.
    pub open spec fn fill_row(&self, k: int) -> TextAtView {
        box_text(
            (self.coords.0 as int, self.coords.1 + k),
            repeated(" "@, (self.size.0 - 1) as nat),
            self.fill_col,
            None,
        )
    }

    /// A bordered box without colours, of the given size as far as the
    /// terminal has room for it, placed where a box of the given size would
    /// stand centred.
    pub fn new(size: (u16, u16), term_size: (u16, u16)) -> (made: BoxPrint)
        requires
            can_centre(size, term_size),
        ensures
            (made.coords.0 as int, made.coords.1 as int) == centred(size, term_size),
            made.size == (shorter(size.0, term_size.0), shorter(size.1, term_size.1)),
            made.has_border,
            made.fill_col is None,
            made.border_col is None,
    {
        let new_size = (
            if size.0 < term_size.0 {
                size.0
            } else {
                term_size.0
            },
            if size.1 < term_size.1 {
                size.1
            } else {
                term_size.1
            },
        );
        let coords = get_centered_coords(size, term_size);
        BoxPrint { coords, size: new_size, has_border: true, fill_col: None, border_col: None }
    }

    /// Moves the box.
    pub fn at_coords(&mut self, coords: (u16, u16)) -> (this: &mut Self)
        ensures
            *this == (BoxPrint { coords, ..*old(self) }),
            *final(self) == *final(this),
    {
        self.coords = coords;
        self
    }

    /// Says whether the box has a border.
    pub fn set_border(&mut self, has_border: bool) -> (this: &mut Self)
        ensures
            *this == (BoxPrint { has_border, ..*old(self) }),
            *final(self) == *final(this),
    {
        self.has_border = has_border;
        self
    }

    /// Sets the colour that the box is filled with.
    pub fn set_fill(&mut self, fill: Color) -> (this: &mut Self)
        ensures
            *this == (BoxPrint { fill_col: Some(fill), ..*old(self) }),
            *final(self) == *final(this),
    {
        self.fill_col = Some(fill);
        self
    }

    /// Sets the colour of the border.
    pub fn set_border_col(&mut self, col: Color) -> (this: &mut Self)
        ensures
            *this == (BoxPrint { border_col: Some(col), ..*old(self) }),
            *final(self) == *final(this),
    {
        self.border_col = Some(col);
        self
    }

    /// Takes the filling colour away.
    pub fn remove_fill(&mut self) -> (this: &mut Self)
        ensures
            *this == (BoxPrint { fill_col: None, ..*old(self) }),
            *final(self) == *final(this),
    {
        self.fill_col = None;
        self
    }

    /// The border of the box: line-drawing characters along its outermost
    /// columns and rows.
    pub fn draw_border(&self) -> (pieces: Vec<TextAt>)
        requires
            self.border_fits(),
        ensures
            pieces@.len() == self.border_len(),
            forall|k: int|
                0 <= k < pieces@.len() ==> (#[trigger] pieces@[k])@ == self.border_piece(k),
    {
        let (w, h) = self.size;
        let (x, y) = self.coords;
        let bg = self.fill_col;
        let fg = self.border_col;
        let mut pieces: Vec<TextAt> = Vec::new();
        pieces.push(TextAt::with_cols("┌", (x, y), bg, fg));
        pieces.push(TextAt::with_cols("┐", (x + w - 1, y), bg, fg));
        pieces.push(TextAt::with_cols("└", (x, y + h - 1), bg, fg));
        pieces.push(TextAt::with_cols("┘", (x + w - 1, y + h - 1), bg, fg));
        let line = repeat_str("─", w - 2);
        pieces.push(TextAt::with_cols(line.as_str(), (x + 1, y), bg, fg));
        pieces.push(TextAt::with_cols(line.as_str(), (x + 1, y + h - 1), bg, fg));
        let mut i: u16 = 1;
        while i <= h - 2
            invariant
                (w, h) == self.size,
                (x, y) == self.coords,
                bg == self.fill_col,
                fg == self.border_col,
                self.border_fits(),
                1 <= i <= h - 1,
                pieces@.len() == 6 + 2 * (i - 1),
                forall|k: int|
                    0 <= k < pieces@.len() ==> (#[trigger] pieces@[k])@ == self.border_piece(k),
            decreases h - i,
        {
            pieces.push(TextAt::with_cols("│", (x, y + i), bg, fg));
            pieces.push(TextAt::with_cols("│", (x + w - 1, y + i), bg, fg));
            i += 1;
        }
        pieces
    }

    /// The box: each of its rows as a run of blanks on the filling colour,
    /// one column short of the box, and then its border if it has one.
    pub fn print(&self) -> (texts: Vec<TextAt>)
        requires
            self.fits(),
        ensures
            texts@.len() == self.size.1 + if self.has_border {
                self.border_len()
            } else {
                0
            },
            forall|k: int| 0 <= k < self.size.1 ==> (#[trigger] texts@[k])@ == self.fill_row(k),
            forall|k: int|
                self.size.1 <= k < texts@.len() ==> (#[trigger] texts@[k])@ == self.border_piece(
                    k - self.size.1,
                ),
    {
        let (w, h) = self.size;
        let (x, y) = self.coords;
        let blanks = repeat_str(" ", w - 1);
        let mut texts: Vec<TextAt> = Vec::new();
        let mut i: u16 = 0;
        while i < h
            invariant
                (w, h) == self.size,
                (x, y) == self.coords,
                self.fits(),
                blanks@ == repeated(" "@, (w - 1) as nat),
                i <= h,
                texts@.len() == i,
                forall|k: int| 0 <= k < i ==> (#[trigger] texts@[k])@ == self.fill_row(k),
            decreases h - i,
        {
            texts.push(TextAt::with_cols(blanks.as_str(), (x, y + i), self.fill_col, None));
            i += 1;
        }
        if self.has_border {
            let mut border = self.draw_border();
            let ghost rows = texts@;
            let ghost pieces = border@;
            texts.append(&mut border);
            assert(texts@ =~= rows + pieces);
        }
        texts
    }
}

} // verus!
