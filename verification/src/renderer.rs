//! Pixels of two bits per channel, shown in the sixteen colours of a
//! terminal.

use vstd::prelude::*;
use crate::outside::random_byte;
use crate::screen::Color;

verus! {

/// The number of colours of the palette.
pub const PALETTE_LEN: usize = 16;

/// The palette in the order in which it is searched.
pub open spec fn palette_color(k: int) -> Color {
    if k == 0 {
        Color::Black
    } else if k == 1 {
        Color::Blue
    } else if k == 2 {
        Color::Cyan
    } else if k == 3 {
        Color::Green
    } else if k == 4 {
        Color::Magenta
    } else if k == 5 {
        Color::Red
    } else if k == 6 {
        Color::White
    } else if k == 7 {
        Color::Yellow
    } else if k == 8 {
        Color::LightBlue
    } else if k == 9 {
        Color::LightBlack
    } else if k == 10 {
        Color::LightCyan
    } else if k == 11 {
        Color::LightGreen
    } else if k == 12 {
        Color::LightMagenta
    } else if k == 13 {
        Color::LightRed
    } else if k == 14 {
        Color::LightWhite
    } else {
        Color::LightYellow
    }
}

/// The red, green and blue of each colour of the palette, two bits each
/// from the top of a byte.
pub open spec fn palette_value(k: int) -> u8 {
    if k == 0 {
        0b00000000
    } else if k == 1 {
        0b00001100
    } else if k == 2 {
        0b00111100
    } else if k == 3 {
        0b00110000
    } else if k == 4 {
        0b11001100
    } else if k == 5 {
        0b11000000
    } else if k == 6 {
        0b11111100
    } else if k == 7 {
        0b11110000
    } else if k == 8 {
        0b10101100
    } else if k == 9 {
        0b01010100
    } else if k == 10 {
        0b10111100
    } else if k == 11 {
        0b10111000
    } else if k == 12 {
        0b11101100
    } else if k == 13 {
        0b11101100
    } else if k == 14 {
        0b11111100
    } else {
        0b11111000
    }
}

/// The red of a pixel, from zero to three.
pub open spec fn red(pixel: u8) -> u8 {
    (pixel & 0b11000000) >> 6
}

/// The green of a pixel, from zero to three.
pub open spec fn green(pixel: u8) -> u8 {
    (pixel & 0b00110000) >> 4
}

/// The blue of a pixel, from zero to three.
pub open spec fn blue(pixel: u8) -> u8 {
    (pixel & 0b00001100) >> 2
}

/// How far two numbers are apart.
pub open spec fn apart(a: u8, b: u8) -> int {
    if a > b {
        a - b
    } else {
        b - a
    }
}

/// How far two pixels are apart: channel by channel, added up.
pub open spec fn distance(a: u8, b: u8) -> int {
    apart(red(a), red(b)) + apart(green(a), green(b)) + apart(blue(a), blue(b))
}

/// The colour among the first `n >= 1` of the palette that is nearest to
/// the pixel; of several that are equally near, the first.
pub open spec fn nearest_among(pixel: u8, n: nat) -> int
    decreases n,
{
    if n <= 1 {
        0
    } else if distance(palette_value(n - 1), pixel) < distance(
        palette_value(nearest_among(pixel, (n - 1) as nat)),
        pixel,
    ) {
        n - 1
    } else {
        nearest_among(pixel, (n - 1) as nat)
    }
}

/// The colour of the palette that is nearest to the pixel.
pub open spec fn nearest(pixel: u8) -> int {
    nearest_among(pixel, PALETTE_LEN as nat)
}

/// No colour among the first `n` of the palette is nearer to the pixel than
/// `nearest_among` says, and none before it is as near.
pub proof fn lemma_nearest_among(pixel: u8, n: nat)
    requires
        n >= 1,
    ensures
        0 <= nearest_among(pixel, n) < n,
        forall|k: int|
            0 <= k < n ==> distance(palette_value(nearest_among(pixel, n)), pixel) <= distance(
                #[trigger] palette_value(k),
                pixel,
            ),
        forall|k: int|
            0 <= k < nearest_among(pixel, n) ==> distance(
                palette_value(nearest_among(pixel, n)),
                pixel,
            ) < distance(#[trigger] palette_value(k), pixel),
    decreases n,
{
    if n > 1 {
        lemma_nearest_among(pixel, (n - 1) as nat);
    }
}

/// Computes `palette_value`.
fn palette_entry(k: usize) -> (entry: (Color, u8))
    requires
        k < PALETTE_LEN,
    ensures
        entry.0 == palette_color(k as int),
        entry.1 == palette_value(k as int),
{
    if k == 0 {
        (Color::Black, 0b00000000)
    } else if k == 1 {
        (Color::Blue, 0b00001100)
    } else if k == 2 {
        (Color::Cyan, 0b00111100)
    } else if k == 3 {
        (Color::Green, 0b00110000)
    } else if k == 4 {
        (Color::Magenta, 0b11001100)
    } else if k == 5 {
        (Color::Red, 0b11000000)
    } else if k == 6 {
        (Color::White, 0b11111100)
    } else if k == 7 {
        (Color::Yellow, 0b11110000)
    } else if k == 8 {
        (Color::LightBlue, 0b10101100)
    } else if k == 9 {
        (Color::LightBlack, 0b01010100)
    } else if k == 10 {
        (Color::LightCyan, 0b10111100)
    } else if k == 11 {
        (Color::LightGreen, 0b10111000)
    } else if k == 12 {
        (Color::LightMagenta, 0b11101100)
    } else if k == 13 {
        (Color::LightRed, 0b11101100)
    } else if k == 14 {
        (Color::LightWhite, 0b11111100)
    } else {
        (Color::LightYellow, 0b11111000)
    }
}

/// Computes `apart`.
fn abs_diff(a: u8, b: u8) -> (d: u8)
    ensures
        d == apart(a, b),
{
    if a > b {
        a - b
    } else {
        b - a
    }
}

/// Computes `distance`.
fn pixel_distance(a: u8, b: u8) -> (d: u8)
    ensures
        d == distance(a, b),
        d <= 9,
{
    let ar = (a & 0b11000000) >> 6;
    let ag = (a & 0b00110000) >> 4;
    let ab = (a & 0b00001100) >> 2;
    let br = (b & 0b11000000) >> 6;
    let bg = (b & 0b00110000) >> 4;
    let bb = (b & 0b00001100) >> 2;
    assert(ar <= 3 && ag <= 3 && ab <= 3) by (bit_vector)
        requires
            ar == (a & 0b11000000) >> 6,
            ag == (a & 0b00110000) >> 4,
            ab == (a & 0b00001100) >> 2,
    ;
    assert(br <= 3 && bg <= 3 && bb <= 3) by (bit_vector)
        requires
            br == (b & 0b11000000) >> 6,
            bg == (b & 0b00110000) >> 4,
            bb == (b & 0b00001100) >> 2,
    ;
    abs_diff(ar, br) + abs_diff(ag, bg) + abs_diff(ab, bb)
}

/// The colour of the palette that is nearest to the pixel.
pub fn nearest_color(pixel: u8) -> (color: Color)
    ensures
        color == palette_color(nearest(pixel)),
        0 <= nearest(pixel) < PALETTE_LEN,
        forall|k: int|
            0 <= k < PALETTE_LEN ==> distance(palette_value(nearest(pixel)), pixel) <= distance(
                #[trigger] palette_value(k),
                pixel,
            ),
{
    proof {
        lemma_nearest_among(pixel, PALETTE_LEN as nat);
    }
    let mut color = palette_entry(0).0;
    let mut min_dist: u8 = 100;
    let mut k: usize = 0;
    while k < PALETTE_LEN
        invariant
            k <= PALETTE_LEN,
            k == 0 ==> min_dist == 100 && color == palette_color(0),
            k > 0 ==> min_dist == distance(
                palette_value(nearest_among(pixel, k as nat)),
                pixel,
            ) && color == palette_color(nearest_among(pixel, k as nat)),
        decreases PALETTE_LEN - k,
    {
        let (col, col_value) = palette_entry(k);
        let dist = pixel_distance(col_value, pixel);
        if dist < min_dist {
            min_dist = dist;
            color = col;
        }
        k += 1;
    }
    color
}

/// The colour that each of the 256 pixels is shown in.
pub fn color_map() -> (map: Vec<Color>)
    ensures
        map@.len() == 256,
        forall|pixel: u8| #[trigger] map@[pixel as int] == palette_color(nearest(pixel)),
{
    let mut map: Vec<Color> = Vec::new();
    let mut pixel: u8 = 0;
    while pixel < 255
        invariant
            map@.len() == pixel,
            forall|p: u8| p < pixel ==> #[trigger] map@[p as int] == palette_color(nearest(p)),
        decreases 255 - pixel,
    {
        map.push(nearest_color(pixel));
        pixel += 1;
    }
    map.push(nearest_color(255));
    map
}

/// An image of one byte per pixel, row by row.
#[derive(Debug, PartialEq, Eq)]
pub struct Rasterized<'a> {
    pub screen_width: u16,
    pub screen_height: u16,
    pub image_data: &'a [u8],
}

/// Shows images on a terminal of a given size.
#[derive(Debug, PartialEq, Eq)]
pub struct TerminalRenderer {
    pub screen_width: u16,
    pub screen_height: u16,
    pub color_map: Vec<Color>,
}

/// The place in the image that is written for column `x` and row `y`.
pub open spec fn written_index(x: int, y: int) -> int {
    x + x * y
}

/// Some column and row of an image of the given size is written at `index`.
pub open spec fn is_written(index: int, width: u16, height: u16) -> bool {
    exists|x: int, y: int|
        0 <= x < width && 0 <= y < height && #[trigger] written_index(x, y) == index
}

impl TerminalRenderer {
    /// The renderer for a terminal of the given size.
    pub fn new(term_size: (u16, u16)) -> (renderer: TerminalRenderer)
        ensures
            renderer.screen_width == term_size.0,
            renderer.screen_height == term_size.1,
            renderer.well_mapped(),
    {
        TerminalRenderer {
            screen_height: term_size.1,
            screen_width: term_size.0,
            color_map: color_map(),
        }
    }

    /// The colour map holds the nearest colour of the palette for each pixel.
    pub open spec fn well_mapped(&self) -> bool {
        &&& self.color_map@.len() == 256
        &&& forall|pixel: u8|
            #[trigger] self.color_map@[pixel as int] == palette_color(nearest(pixel))
    }

    /// The image can be written: its places fit sixteen bits and lie within
    /// a buffer of `len` bytes.
    pub open spec fn can_rasterize(&self, len: nat) -> bool {
        self.screen_width >= 1 && self.screen_height >= 1 ==> {
            &&& (self.screen_width - 1) * self.screen_height <= u16::MAX
            &&& (self.screen_width - 1) * self.screen_height < len
        }
    }

    /// Whether the image can be written into a buffer of `len` bytes.
    pub fn can_rasterize_into(&self, len: usize) -> (fits: bool)
        ensures
            fits == self.can_rasterize(len as nat),
    {
        if self.screen_width >= 1 && self.screen_height >= 1 {
            assert((self.screen_width - 1) * self.screen_height <= 65535 * 65535)
                by (nonlinear_arith)
                requires
                    0 <= self.screen_width - 1 <= 65535,
                    0 <= self.screen_height <= 65535,
            ;
            let last: u64 = (self.screen_width - 1) as u64 * self.screen_height as u64;
            last <= 65535 && (last as usize) < len
        } else {
            true
        }
    }

    /// A buffer of one zero byte per cell of the terminal.
    pub fn image_buffer(&self) -> (buffer: Vec<u8>)
        requires
            self.screen_width * self.screen_height <= u16::MAX,
        ensures
            buffer@.len() == self.screen_width * self.screen_height,
            forall|k: int| 0 <= k < buffer@.len() ==> #[trigger] buffer@[k] == 0,
    {
        let cells: u16 = self.screen_width * self.screen_height;
        let mut buffer: Vec<u8> = Vec::new();
        let mut k: u16 = 0;
        while k < cells
            invariant
                k <= cells,
                buffer@.len() == k,
                forall|j: int| 0 <= j < k ==> #[trigger] buffer@[j] == 0,
            decreases cells - k,
        {
            buffer.push(0u8);
            k += 1;
        }
        buffer
    }

    /// Writes a byte drawn at random into the image for each column and row
    /// of the terminal. The bytes at other places stay as they are.
    pub fn rasterize(&self, image_buffer: &mut Vec<u8>)
        requires
            self.can_rasterize(old(image_buffer)@.len()),
        ensures
            final(image_buffer)@.len() == old(image_buffer)@.len(),
            forall|index: int|
                0 <= index < old(image_buffer)@.len() && !is_written(
                    index,
                    self.screen_width,
                    self.screen_height,
                ) ==> #[trigger] final(image_buffer)@[index] == old(image_buffer)@[index],
    {
        let w = self.screen_width;
        let h = self.screen_height;
        let ghost before = image_buffer@;
        let mut x: u16 = 0;
        while x < w
            invariant
                w == self.screen_width,
                h == self.screen_height,
                self.can_rasterize(before.len()),
                x <= w,
                image_buffer@.len() == before.len(),
                forall|index: int|
                    0 <= index < before.len() && !is_written(index, w, h)
                        ==> #[trigger] image_buffer@[index] == before[index],
            decreases w - x,
        {
            let mut y: u16 = 0;
            while y < h
                invariant
                    w == self.screen_width,
                    h == self.screen_height,
                    self.can_rasterize(before.len()),
                    x < w,
                    y <= h,
                    image_buffer@.len() == before.len(),
                    forall|index: int|
                        0 <= index < before.len() && !is_written(index, w, h)
                            ==> #[trigger] image_buffer@[index] == before[index],
                decreases h - y,
            {
                proof {
                    assert(is_written(written_index(x as int, y as int), w, h));
                }
                self.write_pixel(image_buffer, x, y, random_byte());
                y += 1;
            }
            x += 1;
        }
    }

    /// Writes `value` into the image at the place of column `x` and row `y`.
    /// All other bytes stay as they are.
    pub fn write_pixel(&self, image_buffer: &mut Vec<u8>, x: u16, y: u16, value: u8)
        requires
            x < self.screen_width,
            y < self.screen_height,
            self.can_rasterize(old(image_buffer)@.len()),
        ensures
            0 <= written_index(x as int, y as int) < old(image_buffer)@.len(),
            final(image_buffer)@ == old(image_buffer)@.update(
                written_index(x as int, y as int),
                value,
            ),
    {
        let w = self.screen_width;
        let h = self.screen_height;
        proof {
            assert(x * y <= (w - 1) * (h - 1)) by (nonlinear_arith)
                requires
                    0 <= x <= w - 1,
                    0 <= y <= h - 1,
            ;
            assert((w - 1) * (h - 1) + (w - 1) == (w - 1) * h) by (nonlinear_arith);
            assert(x % w == x) by {
                vstd::arithmetic::div_mod::lemma_small_mod(x as nat, w as nat);
            }
            assert((x % w) * y == x * y);
            assert(x + x * y <= (w - 1) * h);
        }
        let data_index = (x + (x % w) * y) as usize;
        image_buffer[data_index] = value;
    }

    /// The image over the buffer, of the size of the terminal.
    pub fn rasterized<'a>(&self, image_buffer: &'a Vec<u8>) -> (image: Rasterized<'a>)
        ensures
            image.screen_width == self.screen_width,
            image.screen_height == self.screen_height,
            image.image_data@ == image_buffer@,
    {
        Rasterized {
            screen_width: self.screen_width,
            screen_height: self.screen_height,
            image_data: image_buffer.as_slice(),
        }
    }

    /// The colour in which each pixel of the image is shown, in the order
    /// of the pixels.
    pub fn render(&self, rasterized: &Rasterized) -> (colors: Vec<Color>)
        requires
            self.color_map@.len() == 256,
        ensures
            colors@.len() == rasterized.image_data@.len(),
            forall|i: int|
                0 <= i < colors@.len() ==> #[trigger] colors@[i] == self.color_map@[rasterized.image_data@[i] as int],
    {
        let mut colors: Vec<Color> = Vec::new();
        let mut i: usize = 0;
        while i < rasterized.image_data.len()
            invariant
                self.color_map@.len() == 256,
                i <= rasterized.image_data@.len(),
                colors@.len() == i,
                forall|j: int|
                    0 <= j < i ==> #[trigger] colors@[j] == self.color_map@[rasterized.image_data@[j] as int],
            decreases rasterized.image_data@.len() - i,
        {
            let val = rasterized.image_data[i];
            colors.push(self.color_map[val as usize]);
            i += 1;
        }
        colors
    }
}

} // verus!
