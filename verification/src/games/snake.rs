//! The rules of a game of snake on a field of cells.
//!
//! Cells are counted from one, column first. The snake is a list of cells
//! from its tail to its head.

use vstd::prelude::*;
use crate::outside::random_in_range;
use crate::screen::{Color, TextAt, TextAtView, plain_text};
use crate::screen::boxes::BoxPrint;
use crate::screen::util::{
    add2, can_be_centred, can_centre, caption_below, caption_fits, caption_position, centred, decimal, decimal_text,
    get_centered_coords,
};
use crate::screen::utf8_len;

verus! {

/// A game of snake.
#[derive(Debug, Clone, Copy, PartialEq, Eq)]
pub struct Snake {}

/// Where the head of the snake is going.
#[derive(Debug, Clone, Copy, PartialEq, Eq)]
pub enum Direction {
    Left,
    Right,
    Up,
    Down,
}

/// A game of snake as it stands.
#[derive(Debug, PartialEq, Eq)]
pub struct GameState {
    pub head_direction: Direction,
    pub bodies: Vec<(u16, u16)>,
    pub food_locations: Vec<(u16, u16)>,
    pub bounds: (u16, u16),
    pub offset: (u16, u16),
    pub finished: bool,
    pub score: u32,
    pub inputs_to_handle: Vec<char>,
}

/// The cell can be drawn on a field that begins at `offset`: its column and
/// row on the terminal are not negative and stay within sixteen bits.
pub open spec fn cell_on_screen(offset: (u16, u16), cell: (u16, u16)) -> bool {
    1 <= offset.0 + cell.0 <= u16::MAX && 1 <= offset.1 + cell.1 <= u16::MAX
}

/// The column and row of a cell on the terminal.
pub open spec fn cell_position(offset: (u16, u16), cell: (u16, u16)) -> (int, int) {
    (offset.0 + cell.0 - 1, offset.1 + cell.1 - 1)
}

/// A full block at the place of a cell, on the background `bg`.
pub open spec fn block_at(offset: (u16, u16), cell: (u16, u16), bg: Option<Color>) -> TextAtView {
    TextAtView { bg, ..plain_text(cell_position(offset, cell), "█"@) }
}

/// Whether all the cells can be drawn.
fn cells_on_screen(cells: &Vec<(u16, u16)>, offset: (u16, u16)) -> (fit: bool)
    ensures
        fit == forall|k: int| 0 <= k < cells@.len() ==> cell_on_screen(offset, #[trigger] cells@[k]),
{
    let mut n: usize = 0;
    while n < cells.len()
        invariant
            n <= cells@.len(),
            forall|k: int| 0 <= k < n ==> cell_on_screen(offset, #[trigger] cells@[k]),
        decreases cells@.len() - n,
    {
        let (x, y) = cells[n];
        let column = offset.0 as u32 + x as u32;
        let row = offset.1 as u32 + y as u32;
        if column < 1 || column > 65535 || row < 1 || row > 65535 {
            assert(!cell_on_screen(offset, cells@[n as int]));
            return false;
        }
        n += 1;
    }
    true
}

/// One full block per cell, in the order of the cells.
fn draw_cells(cells: &Vec<(u16, u16)>, offset: (u16, u16), bg: Option<Color>) -> (blocks: Vec<
    TextAt,
>)
    requires
        forall|k: int| 0 <= k < cells@.len() ==> cell_on_screen(offset, #[trigger] cells@[k]),
    ensures
        blocks@.len() == cells@.len(),
        forall|k: int|
            0 <= k < cells@.len() ==> (#[trigger] blocks@[k])@ == block_at(offset, cells@[k], bg),
{
    let mut blocks: Vec<TextAt> = Vec::new();
    let mut n: usize = 0;
    while n < cells.len()
        invariant
            n <= cells@.len(),
            forall|k: int| 0 <= k < cells@.len() ==> cell_on_screen(offset, #[trigger] cells@[k]),
            blocks@.len() == n,
            forall|k: int|
                0 <= k < n ==> (#[trigger] blocks@[k])@ == block_at(offset, cells@[k], bg),
        decreases cells@.len() - n,
    {
        let (x, y) = cells[n];
        blocks.push(TextAt::with_cols("█", (offset.0 + x - 1, offset.1 + y - 1), bg, None));
        n += 1;
    }
    blocks
}

/// The direction after the key `input`: `w`, `a`, `s` and `d`, in either
/// case, turn the head up, left, down and right, but never straight back;
/// any other key changes nothing.
pub open spec fn steered(direction: Direction, input: char) -> Direction {
    if input == 'w' || input == 'W' {
        if direction is Down {
            direction
        } else {
            Direction::Up
        }
    } else if input == 'a' || input == 'A' {
        if direction is Right {
            direction
        } else {
            Direction::Left
        }
    } else if input == 's' || input == 'S' {
        if direction is Up {
            direction
        } else {
            Direction::Down
        }
    } else if input == 'd' || input == 'D' {
        if direction is Left {
            direction
        } else {
            Direction::Right
        }
    } else {
        direction
    }
}

/// The cell one step from `cell` in the given direction.
pub open spec fn moved(cell: (u16, u16), direction: Direction) -> (int, int) {
    match direction {
        Direction::Left => (cell.0 - 1, cell.1 as int),
        Direction::Right => (cell.0 + 1, cell.1 as int),
        Direction::Down => (cell.0 as int, cell.1 + 1),
        Direction::Up => (cell.0 as int, cell.1 - 1),
    }
}

/// The line under the field: the score, and how to go on once the game is
/// over.
pub open spec fn game_text(finished: bool, score: u32) -> Seq<char> {
    if finished {
        "Game over, score: "@ + decimal(score as nat) + ", press any key to continue"@
    } else {
        "Score: "@ + decimal(score as nat)
    }
}

/// The cell `location` is none of the cells `taken`.
pub open spec fn is_free_of(location: (u16, u16), taken: Seq<(u16, u16)>) -> bool {
    !taken.contains(location)
}

/// Whether `location` is none of the cells `ignore_locations`.
pub fn is_free(location: (u16, u16), ignore_locations: &Vec<(u16, u16)>) -> (free: bool)
    ensures
        free == is_free_of(location, ignore_locations@),
{
    let mut i: usize = 0;
    while i < ignore_locations.len()
        invariant
            i <= ignore_locations@.len(),
            forall|k: int| 0 <= k < i ==> ignore_locations@[k] != location,
        decreases ignore_locations@.len() - i,
    {
        if ignore_locations[i].0 == location.0 && ignore_locations[i].1 == location.1 {
            return false;
        }
        i += 1;
    }
    true
}

/// Draws cells of the field at random, up to `attempts` times, until one is
/// none of `ignore_locations`, and gives that cell; nothing when no draw was
/// free. Where no cell of the field is among those, the first draw is free.
pub fn generate_new_food(
    bounds: (u16, u16),
    ignore_locations: &Vec<(u16, u16)>,
    attempts: usize,
) -> (food: Option<(u16, u16)>)
    requires
        bounds.0 >= 1,
        bounds.1 >= 1,
    ensures
        food matches Some(cell) ==> {
            &&& 1 <= cell.0 <= bounds.0
            &&& 1 <= cell.1 <= bounds.1
            &&& is_free_of(cell, ignore_locations@)
        },
        attempts == 0 ==> food is None,
        attempts > 0 && field_is_free(bounds, ignore_locations@) ==> food is Some,
{
    let (w, h) = bounds;
    let mut left = attempts;
    while left > 0
        invariant
            (w, h) == bounds,
            w >= 1,
            h >= 1,
            left <= attempts,
            left < attempts ==> !field_is_free(bounds, ignore_locations@),
        decreases left,
    {
        let x = random_in_range(1, w);
        let y = random_in_range(1, h);
        if is_free((x, y), ignore_locations) {
            return Some((x, y));
        }
        assert(!is_free_of((x, y), ignore_locations@));
        left -= 1;
    }
    None
}

/// No cell of a field of size `bounds` is among the cells `taken`.
pub open spec fn field_is_free(bounds: (u16, u16), taken: Seq<(u16, u16)>) -> bool {
    forall|x: u16, y: u16|
        1 <= x <= bounds.0 && 1 <= y <= bounds.1 ==> #[trigger] is_free_of((x, y), taken)
}

/// How long the game waits between two steps, in milliseconds: longer
/// while the snake goes up or down, where a step covers more of the screen.
pub fn tick_millis(direction: Direction) -> (millis: u64)
    ensures
        millis == if direction is Up || direction is Down {
            87u64
        } else {
            50u64
        },
{
    match direction {
        Direction::Up => 87,
        Direction::Down => 87,
        Direction::Left => 50,
        Direction::Right => 50,
    }
}

impl GameState {
    /// The head of the snake.
    pub open spec fn head(&self) -> (u16, u16) {
        self.bodies@.last()
    }

    /// The head stands on food.
    pub open spec fn on_food(&self) -> bool {
        self.food_locations@.contains(self.head())
    }

    /// The head can take one more step without leaving the numbers that
    /// sixteen bits can count.
    pub open spec fn can_move(&self) -> bool {
        &&& self.bodies@.len() >= 1
        &&& 0 <= moved(self.head(), self.head_direction).0 <= u16::MAX
        &&& 0 <= moved(self.head(), self.head_direction).1 <= u16::MAX
    }

    /// The head has met the body or has left the field.
    pub open spec fn over(&self) -> bool {
        let head = self.head();
        ||| exists|i: int| 0 <= i < self.bodies@.len() - 1 && self.bodies@[i] == head
        ||| head.0 > self.bounds.0
        ||| head.0 == 0
        ||| head.1 > self.bounds.1
        ||| head.1 == 0
    }

    /// The frame of the field can be drawn on a terminal of the given size.
    pub open spec fn frame_fits(&self, term_size: (u16, u16)) -> bool {
        &&& self.bounds.0 + 2 <= u16::MAX
        &&& self.bounds.1 + 2 <= u16::MAX
        &&& can_centre((add2(self.bounds.0), add2(self.bounds.1)), term_size)
        &&& self.offset.0 >= 1
        &&& self.offset.1 >= 1
        &&& self.frame(term_size).fits()
    }

    /// The frame of the field: a bordered box around it.
    pub open spec fn frame(&self, term_size: (u16, u16)) -> BoxPrint {
        let size = (add2(self.bounds.0), add2(self.bounds.1));
        BoxPrint {
            coords: ((self.offset.0 - 1) as u16, (self.offset.1 - 1) as u16),
            size: (
                crate::screen::boxes::shorter(size.0, term_size.0),
                crate::screen::boxes::shorter(size.1, term_size.1),
            ),
            has_border: true,
            fill_col: None,
            border_col: None,
        }
    }

    /// All that is drawn of the game can be drawn.
    pub open spec fn drawable(&self, term_size: (u16, u16)) -> bool {
        &&& self.frame_fits(term_size)
        &&& forall|k: int|
            0 <= k < self.bodies@.len() ==> cell_on_screen(self.offset, #[trigger] self.bodies@[k])
        &&& forall|k: int|
            0 <= k < self.food_locations@.len() ==> cell_on_screen(
                self.offset,
                #[trigger] self.food_locations@[k],
            )
    }

    /// The line under the field fits one row below it.
    pub open spec fn caption_fits(&self) -> bool {
        caption_fits(
            utf8_len(game_text(self.finished, self.score)) as int,
            self.offset,
            self.bounds,
            1,
        )
    }

    /// The line under the field, centred one row below it.
    pub open spec fn caption(&self) -> TextAtView {
        plain_text(
            caption_position(
                utf8_len(game_text(self.finished, self.score)) as int,
                self.offset,
                self.bounds,
                1,
            ),
            game_text(self.finished, self.score),
        )
    }

    /// Whether all that is drawn of the game can be drawn.
    pub fn is_drawable(&self, term_size: (u16, u16)) -> (fits: bool)
        ensures
            fits == self.drawable(term_size),
    {
        if self.bounds.0 > u16::MAX - 2 || self.bounds.1 > u16::MAX - 2 || self.offset.0 < 1
            || self.offset.1 < 1 {
            return false;
        }
        let size = (self.bounds.0 + 2, self.bounds.1 + 2);
        if !can_be_centred(size, term_size) {
            return false;
        }
        let mut frame = BoxPrint::new(size, term_size);
        frame.at_coords((self.offset.0 - 1, self.offset.1 - 1));
        frame.can_print() && cells_on_screen(&self.bodies, self.offset) && cells_on_screen(
            &self.food_locations,
            self.offset,
        )
    }

    /// Whether the head can take one more step.
    pub fn is_able_to_move(&self) -> (able: bool)
        ensures
            able == self.can_move(),
    {
        if self.bodies.len() == 0 {
            return false;
        }
        let (x, y) = self.bodies[self.bodies.len() - 1];
        match self.head_direction {
            Direction::Left => x >= 1,
            Direction::Right => x < u16::MAX,
            Direction::Down => y < u16::MAX,
            Direction::Up => y >= 1,
        }
    }

    /// The snake: a full block on each of its cells, from tail to head.
    pub fn draw_snakes(&self) -> (blocks: Vec<TextAt>)
        requires
            forall|k: int|
                0 <= k < self.bodies@.len() ==> cell_on_screen(
                    self.offset,
                    #[trigger] self.bodies@[k],
                ),
        ensures
            blocks@.len() == self.bodies@.len(),
            forall|k: int|
                0 <= k < self.bodies@.len() ==> (#[trigger] blocks@[k])@ == block_at(
                    self.offset,
                    self.bodies@[k],
                    None,
                ),
    {
        draw_cells(&self.bodies, self.offset, None)
    }

    /// The food: a full block on red on each of its cells.
    pub fn draw_food(&self) -> (blocks: Vec<TextAt>)
        requires
            forall|k: int|
                0 <= k < self.food_locations@.len() ==> cell_on_screen(
                    self.offset,
                    #[trigger] self.food_locations@[k],
                ),
        ensures
            blocks@.len() == self.food_locations@.len(),
            forall|k: int|
                0 <= k < self.food_locations@.len() ==> (#[trigger] blocks@[k])@ == block_at(
                    self.offset,
                    self.food_locations@[k],
                    Some(Color::Red),
                ),
    {
        draw_cells(&self.food_locations, self.offset, Some(Color::Red))
    }

    /// The line under the field, as text.
    pub fn game_text(&self) -> (text: String)
        ensures
            text@ == game_text(self.finished, self.score),
    {
        let number = decimal_text(self.score);
        let mut text = String::new();
        if self.finished {
            text.push_str("Game over, score: ");
            text.push_str(number.as_str());
            text.push_str(", press any key to continue");
            assert(text@ =~= game_text(self.finished, self.score));
        } else {
            text.push_str("Score: ");
            text.push_str(number.as_str());
            assert(text@ =~= game_text(self.finished, self.score));
        }
        text
    }

    /// The line under the field, centred one row below it, or nothing where
    /// it does not fit.
    pub fn write_game_text(&self) -> (placed: Option<TextAt>)
        ensures
            placed is Some <==> self.caption_fits(),
            placed matches Some(caption) ==> caption@ == self.caption(),
    {
        let text = self.game_text();
        caption_below(text.as_str(), self.offset, self.bounds, 1)
    }

    /// All that is drawn of the game: the frame of the field, the snake, the
    /// food and the line under the field, in that order. Nothing where the
    /// line under the field does not fit.
    pub fn write_screen(&self, term_size: (u16, u16)) -> (texts: Option<Vec<TextAt>>)
        requires
            self.drawable(term_size),
        ensures
            texts is Some <==> self.caption_fits(),
            texts matches Some(drawn) ==> {
                let frame = self.frame(term_size);
                let framed = frame.size.1 + frame.border_len();
                let snake = self.bodies@.len();
                let food = self.food_locations@.len();
                &&& drawn@.len() == framed + snake + food + 1
                &&& forall|k: int|
                    0 <= k < frame.size.1 ==> (#[trigger] drawn@[k])@ == frame.fill_row(k)
                &&& forall|k: int|
                    frame.size.1 <= k < framed ==> (#[trigger] drawn@[k])@ == frame.border_piece(
                        k - frame.size.1,
                    )
                &&& forall|k: int|
                    0 <= k < snake ==> (#[trigger] drawn@[framed + k])@ == block_at(
                        self.offset,
                        self.bodies@[k],
                        None,
                    )
                &&& forall|k: int|
                    0 <= k < food ==> (#[trigger] drawn@[framed + snake + k])@ == block_at(
                        self.offset,
                        self.food_locations@[k],
                        Some(Color::Red),
                    )
                &&& drawn@[framed + snake + food]@ == self.caption()
            },
    {
        let mut frame = BoxPrint::new((self.bounds.0 + 2, self.bounds.1 + 2), term_size);
        frame.at_coords((self.offset.0 - 1, self.offset.1 - 1));
        let mut texts = frame.print();
        let ghost framed = texts@;
        let mut snake = self.draw_snakes();
        let ghost snake_blocks = snake@;
        texts.append(&mut snake);
        let mut food = self.draw_food();
        let ghost food_blocks = food@;
        texts.append(&mut food);
        match self.write_game_text() {
            Some(caption) => {
                texts.push(caption);
                assert(texts@ =~= (framed + snake_blocks + food_blocks).push(caption));
                Some(texts)
            },
            None => None,
        }
    }

    /// One step of the snake: each cell of the snake takes the place of the
    /// cell before it, and the head moves one cell in its direction.
    pub fn update_state(&mut self)
        requires
            old(self).can_move(),
        ensures
            final(self).bodies@.len() == old(self).bodies@.len(),
            forall|i: int|
                0 <= i < old(self).bodies@.len() - 1 ==> final(self).bodies@[i] == old(
                    self,
                ).bodies@[i + 1],
            (final(self).head().0 as int, final(self).head().1 as int) == moved(
                old(self).head(),
                old(self).head_direction,
            ),
            final(self).head_direction == old(self).head_direction,
            final(self).food_locations == old(self).food_locations,
            final(self).bounds == old(self).bounds,
            final(self).offset == old(self).offset,
            final(self).finished == old(self).finished,
            final(self).score == old(self).score,
            final(self).inputs_to_handle == old(self).inputs_to_handle,
    {
        let last_index = self.bodies.len() - 1;
        let ghost before = self.bodies@;
        let mut i: usize = 0;
        while i < last_index
            invariant
                last_index == before.len() - 1,
                self.bodies@.len() == before.len(),
                i <= last_index,
                forall|k: int| 0 <= k < i ==> self.bodies@[k] == before[k + 1],
                forall|k: int| i <= k < before.len() ==> self.bodies@[k] == before[k],
                self.head_direction == old(self).head_direction,
                self.food_locations == old(self).food_locations,
                self.bounds == old(self).bounds,
                self.offset == old(self).offset,
                self.finished == old(self).finished,
                self.score == old(self).score,
                self.inputs_to_handle == old(self).inputs_to_handle,
            decreases last_index - i,
        {
            let next = self.bodies[i + 1];
            self.bodies[i] = next;
            i += 1;
        }
        let (x, y) = self.bodies[last_index];
        let head = match self.head_direction {
            Direction::Left => (x - 1, y),
            Direction::Right => (x + 1, y),
            Direction::Down => (x, y + 1),
            Direction::Up => (x, y - 1),
        };
        self.bodies[last_index] = head;
    }

    /// Whether the head stands on food.
    pub fn is_on_food(&self) -> (on_food: bool)
        requires
            self.bodies@.len() >= 1,
        ensures
            on_food == self.on_food(),
    {
        let head = self.bodies[self.bodies.len() - 1];
        !is_free(head, &self.food_locations)
    }

    /// Lets the snake eat: where its head stands on food, the snake grows
    /// by a copy of its tail, `new_food` takes the place of all food, and the
    /// score goes up by one. Otherwise nothing changes.
    pub fn check_on_food(&mut self, new_food: (u16, u16))
        requires
            old(self).bodies@.len() >= 1,
            old(self).score < u32::MAX,
        ensures
            old(self).on_food() ==> {
                &&& final(self).bodies@ == seq![old(self).bodies@[0]] + old(self).bodies@
                &&& final(self).food_locations@ == seq![new_food]
                &&& final(self).score == old(self).score + 1
            },
            !old(self).on_food() ==> {
                &&& final(self).bodies == old(self).bodies
                &&& final(self).food_locations == old(self).food_locations
                &&& final(self).score == old(self).score
            },
            final(self).head_direction == old(self).head_direction,
            final(self).bounds == old(self).bounds,
            final(self).offset == old(self).offset,
            final(self).finished == old(self).finished,
            final(self).inputs_to_handle == old(self).inputs_to_handle,
    {
        if self.is_on_food() {
            let tail = self.bodies[0];
            self.bodies.insert(0, tail);
            let mut food: Vec<(u16, u16)> = Vec::new();
            food.push(new_food);
            self.food_locations = food;
            self.score += 1;
            assert(self.bodies@ =~= seq![old(self).bodies@[0]] + old(self).bodies@);
            assert(self.food_locations@ =~= seq![new_food]);
        }
    }

    /// Whether the game is over: the head has met the body or has left the
    /// field.
    pub fn is_over(&self) -> (over: bool)
        requires
            self.bodies@.len() >= 1,
        ensures
            over == self.over(),
    {
        let last = self.bodies.len() - 1;
        let head = self.bodies[last];
        let mut i: usize = 0;
        while i < last
            invariant
                last == self.bodies@.len() - 1,
                head == self.bodies@[last as int],
                i <= last,
                forall|k: int| 0 <= k < i ==> self.bodies@[k] != head,
            decreases last - i,
        {
            if self.bodies[i].0 == head.0 && self.bodies[i].1 == head.1 {
                return true;
            }
            i += 1;
        }
        head.0 > self.bounds.0 || head.0 == 0 || head.1 > self.bounds.1 || head.1 == 0
    }

    /// Takes the oldest key that waits and steers by it.
    pub fn handle_input(&mut self)
        ensures
            old(self).inputs_to_handle@.len() == 0 ==> *final(self) == *old(self),
            old(self).inputs_to_handle@.len() > 0 ==> {
                &&& final(self).head_direction == steered(
                    old(self).head_direction,
                    old(self).inputs_to_handle@[0],
                )
                &&& final(self).inputs_to_handle@ == old(self).inputs_to_handle@.subrange(
                    1,
                    old(self).inputs_to_handle@.len() as int,
                )
            },
            final(self).bodies == old(self).bodies,
            final(self).food_locations == old(self).food_locations,
            final(self).bounds == old(self).bounds,
            final(self).offset == old(self).offset,
            final(self).finished == old(self).finished,
            final(self).score == old(self).score,
    {
        if self.inputs_to_handle.len() == 0 {
            return ;
        }
        let input = self.inputs_to_handle[0];
        let direction = self.head_direction;
        if input == 'w' || input == 'W' {
            match direction {
                Direction::Down => {},
                _ => {
                    self.head_direction = Direction::Up;
                },
            }
        } else if input == 'a' || input == 'A' {
            match direction {
                Direction::Right => {},
                _ => {
                    self.head_direction = Direction::Left;
                },
            }
        } else if input == 's' || input == 'S' {
            match direction {
                Direction::Up => {},
                _ => {
                    self.head_direction = Direction::Down;
                },
            }
        } else if input == 'd' || input == 'D' {
            match direction {
                Direction::Left => {},
                _ => {
                    self.head_direction = Direction::Right;
                },
            }
        }
        self.inputs_to_handle.remove(0);
    }

    /// Puts a key behind those that wait.
    pub fn add_input_to_handle(&mut self, input: char)
        ensures
            final(self).inputs_to_handle@ == old(self).inputs_to_handle@.push(input),
            final(self).head_direction == old(self).head_direction,
            final(self).bodies == old(self).bodies,
            final(self).food_locations == old(self).food_locations,
            final(self).bounds == old(self).bounds,
            final(self).offset == old(self).offset,
            final(self).finished == old(self).finished,
            final(self).score == old(self).score,
    {
        self.inputs_to_handle.push(input);
    }
}

/// The size of the field on a terminal of the given size: three columns and
/// five rows less than the terminal, but thirty by ten cells at most.
pub open spec fn field_bounds(term_size: (u16, u16)) -> (int, int) {
    (
        if term_size.0 - 3 < 30 {
            term_size.0 - 3
        } else {
            30
        },
        if term_size.1 - 5 < 10 {
            term_size.1 - 5
        } else {
            10
        },
    )
}

/// The game at its start on a terminal of the given size: a snake of one
/// cell in the first cell of the field, heading right, the given food, no
/// score, and the field centred on the terminal.
pub fn get_initial_state(term_size: (u16, u16), food: (u16, u16)) -> (state: GameState)
    requires
        term_size.0 >= 3,
        term_size.1 >= 5,
    ensures
        state.head_direction is Right,
        state.bodies@ == seq![(1u16, 1u16)],
        state.food_locations@ == seq![food],
        (state.bounds.0 as int, state.bounds.1 as int) == field_bounds(term_size),
        (state.offset.0 as int, state.offset.1 as int) == centred(state.bounds, term_size),
        !state.finished,
        state.score == 0,
        state.inputs_to_handle@.len() == 0,
{
    let (w, h) = term_size;
    let bounds: (u16, u16) = (
        if w - 3 < 30 {
            w - 3
        } else {
            30
        },
        if h - 5 < 10 {
            h - 5
        } else {
            10
        },
    );
    let mut bodies: Vec<(u16, u16)> = Vec::new();
    bodies.push((1, 1));
    let mut food_locations: Vec<(u16, u16)> = Vec::new();
    food_locations.push(food);
    assert(bodies@ =~= seq![(1u16, 1u16)]);
    assert(food_locations@ =~= seq![food]);
    GameState {
        head_direction: Direction::Right,
        bodies,
        bounds,
        offset: get_centered_coords(bounds, term_size),
        food_locations,
        finished: false,
        score: 0,
        inputs_to_handle: Vec::new(),
    }
}

} // verus!
