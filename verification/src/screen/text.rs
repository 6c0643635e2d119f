//! Styled text at a place on the terminal.

use vstd::prelude::*;
use crate::outside::style_reset_code;
use crate::screen::{Color, TextAt, TextAtView, plain_text};

verus! {

/// A piece of text, where it goes, what is written before it to style it, and
/// its colours.
#[derive(Debug, PartialEq, Eq)]
pub struct TextPrint<'a> {
    pub text: &'a str,
    pub coords: (u16, u16),
    pub prefixes: Vec<String>,
    pub fg_col: Option<Color>,
    pub bg_col: Option<Color>,
}

/// The first `n` of the strings, one after the other.
pub open spec fn joined(parts: Seq<String>, n: nat) -> Seq<char>
    decreases n,
{
    if n == 0 {
        Seq::empty()
    } else {
        joined(parts, (n - 1) as nat) + parts[n - 1]@
    }
}

impl<'a> TextPrint<'a> {
    /// What is written for the text: its prefixes in the order in which they
    /// were added, the text, and the sequence that ends all styles.
    pub open spec fn styled(&self) -> Seq<char> {
        joined(self.prefixes@, self.prefixes@.len()) + self.text@ + "\x1B[m"@
    }

    /// Unstyled, uncoloured text at the given column and row.
    pub fn new(text: &'a str, coords: (u16, u16)) -> (made: TextPrint<'a>)
        ensures
            made.text@ == text@,
            made.coords == coords,
            made.prefixes@.len() == 0,
            made.fg_col is None,
            made.bg_col is None,
    {
        TextPrint { text, coords, prefixes: Vec::new(), bg_col: None, fg_col: None }
    }

    /// Sets the foreground colour.
    pub fn color_fg(&mut self, col: Color) -> (this: &mut Self)
        ensures
            this.fg_col == Some(col),
            this.text@ == old(self).text@,
            this.coords == old(self).coords,
            this.prefixes == old(self).prefixes,
            this.bg_col == old(self).bg_col,
            *final(self) == *final(this),
    {
        self.fg_col = Some(col);
        self
    }

    /// Sets the background colour.
    pub fn color_bg(&mut self, col: Color) -> (this: &mut Self)
        ensures
            this.bg_col == Some(col),
            this.text@ == old(self).text@,
            this.coords == old(self).coords,
            this.prefixes == old(self).prefixes,
            this.fg_col == old(self).fg_col,
            *final(self) == *final(this),
    {
        self.bg_col = Some(col);
        self
    }

    /// Adds a prefix behind those that the text has.
    pub fn add_prefix(&mut self, prefix: &str) -> (this: &mut Self)
        ensures
            this.prefixes@.len() == old(self).prefixes@.len() + 1,
            forall|k: int|
                0 <= k < old(self).prefixes@.len() ==> this.prefixes@[k] == old(self).prefixes@[k],
            this.prefixes@[old(self).prefixes@.len() as int]@ == prefix@,
            this.text@ == old(self).text@,
            this.coords == old(self).coords,
            this.fg_col == old(self).fg_col,
            this.bg_col == old(self).bg_col,
            *final(self) == *final(this),
    {
        self.prefixes.push(prefix.to_owned());
        self
    }

    /// The styled text at its place and in its colours.
    pub fn print(&self) -> (placed: TextAt)
        ensures
            placed@ == (TextAtView {
                bg: self.bg_col,
                fg: self.fg_col,
                ..plain_text((self.coords.0 as int, self.coords.1 as int), self.styled())
            }),
    {
        let mut styled = String::new();
        let mut i: usize = 0;
        while i < self.prefixes.len()
            invariant
                i <= self.prefixes@.len(),
                styled@ == joined(self.prefixes@, i as nat),
            decreases self.prefixes@.len() - i,
        {
            styled.push_str(self.prefixes[i].as_str());
            i += 1;
        }
        styled.push_str(self.text);
        let reset = style_reset_code();
        styled.push_str(reset.as_str());
        TextAt::with_cols(styled.as_str(), self.coords, self.bg_col, self.fg_col)
    }
}

} // verus!
