//! The paddles and the score of a game of pong.
//!
//! The ball is not part of these rules: the game state carries it as the
//! caller gives it.

use vstd::prelude::*;
use crate::screen::{TextAt, TextAtView, at_least_one, lesser, plain_text, utf8_len};
use crate::screen::boxes::{BoxPrint, shorter};
use crate::screen::util::{
    add2, can_be_centred, can_centre, caption_below, caption_fits, caption_position, centred, decimal, decimal_text,
    get_centered_coords,
};

verus! {

/// A game of pong between the player and the computer.
#[derive(Debug, Clone, Copy, PartialEq, Eq)]
pub struct Pong {}

/// The number of rows that a paddle covers.
pub const PADDLE_HEIGHT: u8 = 3;

/// The score that ends the game.
pub const WINNING_SCORE: u16 = 10;

/// Where a paddle is going.
#[derive(Debug, Clone, Copy, PartialEq, Eq)]
pub enum VerticalDirection {
    Up,
    Down,
}

/// Where the ball is going.
#[derive(Debug, Clone, Copy, PartialEq, Eq)]
pub enum HorizontalDirection {
    Left,
    Right,
}

/// A paddle: the row of its upper end, counted from one, where it is
/// going, and the points of its side.
#[derive(Debug, Clone, Copy, PartialEq, Eq)]
pub struct Paddle {
    pub y: u16,
    pub direction: VerticalDirection,
    pub score: u16,
}

/// A game of pong as it stands, with a ball of type `B`.
#[derive(Debug, PartialEq)]
pub struct GameState<B> {
    pub bounds: (u16, u16),
    pub offset: (u16, u16),
    pub finished: bool,
    pub left_paddle: Paddle,
    pub right_paddle: Paddle,
    pub ball: B,
}

/// The direction of a paddle after the key `input`: `w` turns it up and `s`
/// turns it down, in either case; any other key changes nothing.
pub open spec fn steered(direction: VerticalDirection, input: char) -> VerticalDirection {
    if input == 'w' || input == 'W' {
        VerticalDirection::Up
    } else if input == 's' || input == 'S' {
        VerticalDirection::Down
    } else {
        direction
    }
}

/// The row of a paddle after one step on a field of the given height: one
/// row on in its direction, but no lower than the field allows and no
/// higher than the first row.
pub open spec fn stepped(y: u16, direction: VerticalDirection, height: u16) -> int {
    let next = match direction {
        VerticalDirection::Down => y + 1,
        VerticalDirection::Up => y - 1,
    };
    at_least_one(lesser(next, height + 1 - PADDLE_HEIGHT))
}

/// A paddle can take a step on a field of the given height.
pub open spec fn can_step(paddle: Paddle, height: u16) -> bool {
    &&& 2 <= height < u16::MAX
    &&& paddle.direction is Down ==> paddle.y < u16::MAX
    &&& paddle.direction is Up ==> paddle.y >= 1
}

/// The line under the field: the score, and once the game is over who won
/// and how to go on.
pub open spec fn game_text(finished: bool, left: u16, right: u16) -> Seq<char> {
    let score = decimal(left as nat) + " - "@ + decimal(right as nat);
    if finished {
        (if left > right {
            "You win"@
        } else {
            "Computer wins"@
        }) + ", score: "@ + score + ", press any key to continue"@
    } else {
        "Score: "@ + score
    }
}

/// The size of the field on a terminal of the given size: four columns and
/// six rows less than the terminal, but fifty by fifteen cells at most.
pub open spec fn field_bounds(term_size: (u16, u16)) -> (int, int) {
    (lesser(term_size.0 - 4, 50), lesser(term_size.1 - 6, 15))
}

impl Paddle {
    /// Whether the paddle can take a step on a field of the given height.
    pub fn is_able_to_step(&self, height: u16) -> (able: bool)
        ensures
            able == can_step(*self, height),
    {
        2 <= height && height < u16::MAX && match self.direction {
            VerticalDirection::Down => self.y < u16::MAX,
            VerticalDirection::Up => self.y >= 1,
        }
    }

    /// Moves the paddle one step on a field of the given height.
    pub fn step(&mut self, height: u16)
        requires
            can_step(*old(self), height),
        ensures
            final(self).y == stepped(old(self).y, old(self).direction, height),
            final(self).direction == old(self).direction,
            final(self).score == old(self).score,
    {
        match self.direction {
            VerticalDirection::Down => {
                self.y += 1;
            },
            VerticalDirection::Up => {
                self.y -= 1;
            },
        }
        let lowest = height + 1 - PADDLE_HEIGHT as u16;
        if self.y > lowest {
            self.y = lowest;
        }
        if self.y < 1 {
            self.y = 1;
        }
    }
}

impl<B> GameState<B> {
    /// The paddles can be drawn: the field has a column, and the paddles end
    /// within the rows that sixteen bits can count.
    pub open spec fn paddles_fit(&self) -> bool {
        &&& self.bounds.0 >= 1
        &&& self.offset.0 + self.bounds.0 - 1 <= u16::MAX
        &&& 1 <= self.offset.1 + self.left_paddle.y
        &&& self.offset.1 + self.left_paddle.y + 2 <= u16::MAX
        &&& 1 <= self.offset.1 + self.right_paddle.y
        &&& self.offset.1 + self.right_paddle.y + 2 <= u16::MAX
    }

    /// Piece `k` of the paddles: the three rows of the left paddle in the
    /// first column of the field, then those of the right paddle in its
    /// last column.
    pub open spec fn paddle_piece(&self, k: int) -> TextAtView {
        if k < 3 {
            plain_text(
                (self.offset.0 as int, self.offset.1 + self.left_paddle.y + k - 1),
                "█"@,
            )
        } else {
            plain_text(
                (
                    self.offset.0 + self.bounds.0 - 1,
                    self.offset.1 + self.right_paddle.y + (k - 3) - 1,
                ),
                "█"@,
            )
        }
    }

    /// The ball can be drawn in the cell `cell`.
    pub open spec fn ball_fits(&self, cell: (u16, u16)) -> bool {
        self.offset.0 + cell.0 <= u16::MAX && self.offset.1 + cell.1 <= u16::MAX
    }

    /// The line under the field fits two rows below it.
    pub open spec fn caption_fits(&self) -> bool {
        caption_fits(
            utf8_len(
                game_text(self.finished, self.left_paddle.score, self.right_paddle.score),
            ) as int,
            self.offset,
            self.bounds,
            2,
        )
    }

    /// The line under the field, centred two rows below it.
    pub open spec fn caption(&self) -> TextAtView {
        let text = game_text(self.finished, self.left_paddle.score, self.right_paddle.score);
        plain_text(caption_position(utf8_len(text) as int, self.offset, self.bounds, 2), text)
    }

    /// The frame of the field: a bordered box around it.
    pub open spec fn frame(&self, term_size: (u16, u16)) -> BoxPrint {
        BoxPrint {
            coords: ((self.offset.0 - 1) as u16, (self.offset.1 - 1) as u16),
            size: (
                shorter(add2(self.bounds.0), term_size.0),
                shorter(add2(self.bounds.1), term_size.1),
            ),
            has_border: true,
            fill_col: None,
            border_col: None,
        }
    }

    /// All that is drawn of the game can be drawn, with the ball in `cell`.
    pub open spec fn drawable(&self, cell: (u16, u16), term_size: (u16, u16)) -> bool {
        &&& self.bounds.0 + 2 <= u16::MAX
        &&& self.bounds.1 + 2 <= u16::MAX
        &&& can_centre((add2(self.bounds.0), add2(self.bounds.1)), term_size)
        &&& self.offset.0 >= 1
        &&& self.offset.1 >= 1
        &&& self.frame(term_size).fits()
        &&& self.ball_fits(cell)
        &&& self.paddles_fit()
    }

    /// Whether all that is drawn of the game can be drawn, with the ball in
    /// `cell`.
    pub fn is_drawable(&self, cell: (u16, u16), term_size: (u16, u16)) -> (fits: bool)
        ensures
            fits == self.drawable(cell, term_size),
    {
        if self.bounds.0 > u16::MAX - 2 || self.bounds.1 > u16::MAX - 2 || self.offset.0 < 1
            || self.offset.1 < 1 {
            return false;
        }
        let size = (self.bounds.0 + 2, self.bounds.1 + 2);
        if !can_be_centred(size, term_size) {
            return false;
        }
        let mut frame = BoxPrint::new(size, term_size);
        frame.at_coords((self.offset.0 - 1, self.offset.1 - 1));
        let ball = self.offset.0 <= u16::MAX - cell.0 && self.offset.1 <= u16::MAX - cell.1;
        let paddles = self.bounds.0 >= 1 && self.offset.0 as u32 + self.bounds.0 as u32 - 1
            <= 65535 && self.row_fits(self.left_paddle.y) && self.row_fits(self.right_paddle.y);
        frame.can_print() && ball && paddles
    }

    /// Whether a paddle at row `y` ends within the rows that can be counted.
    fn row_fits(&self, y: u16) -> (fits: bool)
        ensures
            fits == (1 <= self.offset.1 + y && self.offset.1 + y + 2 <= u16::MAX),
    {
        let row = self.offset.1 as u32 + y as u32;
        1 <= row && row + 2 <= 65535
    }

    /// The paddles, as full blocks.
    pub fn draw_paddles(&self) -> (blocks: Vec<TextAt>)
        requires
            self.paddles_fit(),
        ensures
            blocks@.len() == 6,
            forall|k: int| 0 <= k < 6 ==> (#[trigger] blocks@[k])@ == self.paddle_piece(k),
    {
        let mut blocks: Vec<TextAt> = Vec::new();
        let mut i: u8 = 0;
        while i <= PADDLE_HEIGHT - 1
            invariant
                self.paddles_fit(),
                i <= 3,
                blocks@.len() == i,
                forall|k: int| 0 <= k < i ==> (#[trigger] blocks@[k])@ == self.paddle_piece(k),
            decreases 3 - i,
        {
            blocks.push(
                TextAt::new(
                    "█",
                    (self.offset.0, self.offset.1 + self.left_paddle.y + i as u16 - 1),
                ),
            );
            i += 1;
        }
        let mut i: u8 = 0;
        while i <= PADDLE_HEIGHT - 1
            invariant
                self.paddles_fit(),
                i <= 3,
                blocks@.len() == 3 + i,
                forall|k: int| 0 <= k < 3 + i ==> (#[trigger] blocks@[k])@ == self.paddle_piece(k),
            decreases 3 - i,
        {
            let x: u16 = self.bounds.0 - 1;
            blocks.push(
                TextAt::new(
                    "█",
                    (self.offset.0 + x, self.offset.1 + self.right_paddle.y + i as u16 - 1),
                ),
            );
            i += 1;
        }
        blocks
    }

    /// The ball in the cell `cell` of the field, cells counted from zero.
    pub fn draw_ball(&self, cell: (u16, u16)) -> (ball: TextAt)
        requires
            self.ball_fits(cell),
        ensures
            ball@ == plain_text((self.offset.0 + cell.0, self.offset.1 + cell.1), "o"@),
    {
        TextAt::new("o", (self.offset.0 + cell.0, self.offset.1 + cell.1))
    }

    /// The line under the field, as text.
    pub fn game_text(&self) -> (text: String)
        ensures
            text@ == game_text(self.finished, self.left_paddle.score, self.right_paddle.score),
    {
        let left = decimal_text(self.left_paddle.score as u32);
        let right = decimal_text(self.right_paddle.score as u32);
        let mut text = String::new();
        if self.finished {
            let win_text = if self.left_paddle.score > self.right_paddle.score {
                "You win"
            } else {
                "Computer wins"
            };
            text.push_str(win_text);
            text.push_str(", score: ");
            text.push_str(left.as_str());
            text.push_str(" - ");
            text.push_str(right.as_str());
            text.push_str(", press any key to continue");
        } else {
            text.push_str("Score: ");
            text.push_str(left.as_str());
            text.push_str(" - ");
            text.push_str(right.as_str());
        }
        assert(text@ =~= game_text(
            self.finished,
            self.left_paddle.score,
            self.right_paddle.score,
        ));
        text
    }

    /// The line under the field, centred two rows below it, or nothing where
    /// it does not fit.
    pub fn write_game_text(&self) -> (placed: Option<TextAt>)
        ensures
            placed is Some <==> self.caption_fits(),
            placed matches Some(caption) ==> caption@ == self.caption(),
    {
        let text = self.game_text();
        caption_below(text.as_str(), self.offset, self.bounds, 2)
    }

    /// All that is drawn of the game, with the ball in `cell`: the frame of
    /// the field, the ball, the paddles and the line under the field, in
    /// that order. Nothing where the line under the field does not fit.
    pub fn write_screen(&self, cell: (u16, u16), term_size: (u16, u16)) -> (texts: Option<
        Vec<TextAt>,
    >)
        requires
            self.drawable(cell, term_size),
        ensures
            texts is Some <==> self.caption_fits(),
            texts matches Some(drawn) ==> {
                let frame = self.frame(term_size);
                let framed = frame.size.1 + frame.border_len();
                &&& drawn@.len() == framed + 8
                &&& forall|k: int|
                    0 <= k < frame.size.1 ==> (#[trigger] drawn@[k])@ == frame.fill_row(k)
                &&& forall|k: int|
                    frame.size.1 <= k < framed ==> (#[trigger] drawn@[k])@ == frame.border_piece(
                        k - frame.size.1,
                    )
                &&& drawn@[framed]@ == plain_text(
                    (self.offset.0 + cell.0, self.offset.1 + cell.1),
                    "o"@,
                )
                &&& forall|k: int|
                    0 <= k < 6 ==> (#[trigger] drawn@[framed + 1 + k])@ == self.paddle_piece(k)
                &&& drawn@[framed + 7]@ == self.caption()
            },
    {
        let mut frame = BoxPrint::new((self.bounds.0 + 2, self.bounds.1 + 2), term_size);
        frame.at_coords((self.offset.0 - 1, self.offset.1 - 1));
        let mut texts = frame.print();
        let ghost framed = texts@;
        let ball = self.draw_ball(cell);
        texts.push(ball);
        let mut paddles = self.draw_paddles();
        let ghost blocks = paddles@;
        texts.append(&mut paddles);
        match self.write_game_text() {
            Some(caption) => {
                texts.push(caption);
                assert(texts@ =~= (framed.push(ball) + blocks).push(caption));
                Some(texts)
            },
            None => None,
        }
    }

    /// Moves both paddles one step.
    pub fn update_paddles(&mut self)
        requires
            can_step(old(self).left_paddle, old(self).bounds.1),
            can_step(old(self).right_paddle, old(self).bounds.1),
        ensures
            final(self).left_paddle == (Paddle {
                y: stepped(
                    old(self).left_paddle.y,
                    old(self).left_paddle.direction,
                    old(self).bounds.1,
                ) as u16,
                ..old(self).left_paddle
            }),
            final(self).right_paddle == (Paddle {
                y: stepped(
                    old(self).right_paddle.y,
                    old(self).right_paddle.direction,
                    old(self).bounds.1,
                ) as u16,
                ..old(self).right_paddle
            }),
            final(self).bounds == old(self).bounds,
            final(self).offset == old(self).offset,
            final(self).finished == old(self).finished,
            final(self).ball == old(self).ball,
    {
        let height = self.bounds.1;
        self.left_paddle.step(height);
        self.right_paddle.step(height);
    }

    /// Steers the left paddle by the key `input`.
    pub fn handle_input(&mut self, input: char)
        ensures
            final(self).left_paddle == (Paddle {
                direction: steered(old(self).left_paddle.direction, input),
                ..old(self).left_paddle
            }),
            final(self).right_paddle == old(self).right_paddle,
            final(self).bounds == old(self).bounds,
            final(self).offset == old(self).offset,
            final(self).finished == old(self).finished,
            final(self).ball == old(self).ball,
    {
        if input == 'w' || input == 'W' {
            self.left_paddle.direction = VerticalDirection::Up;
        } else if input == 's' || input == 'S' {
            self.left_paddle.direction = VerticalDirection::Down;
        }
    }

    /// Whether the game is over: one side has ten points.
    pub fn is_over(&self) -> (over: bool)
        ensures
            over == (self.left_paddle.score == WINNING_SCORE || self.right_paddle.score
                == WINNING_SCORE),
    {
        self.left_paddle.score == WINNING_SCORE || self.right_paddle.score == WINNING_SCORE
    }
}

/// The game at its start on a terminal of the given size, with the given
/// ball: both paddles in the first row, going down, no points, and the
/// field centred on the terminal.
pub fn get_initial_state<B>(term_size: (u16, u16), ball: B) -> (state: GameState<B>)
    requires
        term_size.0 >= 4,
        term_size.1 >= 6,
    ensures
        (state.bounds.0 as int, state.bounds.1 as int) == field_bounds(term_size),
        (state.offset.0 as int, state.offset.1 as int) == centred(state.bounds, term_size),
        !state.finished,
        state.left_paddle == (Paddle { y: 1, direction: VerticalDirection::Down, score: 0 }),
        state.right_paddle == (Paddle { y: 1, direction: VerticalDirection::Down, score: 0 }),
        state.ball == ball,
{
    let (w, h) = term_size;
    let bounds: (u16, u16) = (
        if w - 4 < 50 {
            w - 4
        } else {
            50
        },
        if h - 6 < 15 {
            h - 6
        } else {
            15
        },
    );
    GameState {
        bounds,
        finished: false,
        left_paddle: Paddle { direction: VerticalDirection::Down, y: 1, score: 0 },
        right_paddle: Paddle { direction: VerticalDirection::Down, y: 1, score: 0 },
        ball,
        offset: get_centered_coords(bounds, term_size),
    }
}

} // verus!
