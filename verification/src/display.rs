//! The 64x32 monochrome display buffer.

use vstd::prelude::*;

verus! {

/// Width of the display in pixels.
pub const DISPLAY_WIDTH: usize = 64;

/// Height of the display in pixels.
pub const DISPLAY_HEIGHT: usize = 32;

/// Number of pixels on the display.
pub const DISPLAY_SIZE: usize = DISPLAY_WIDTH * DISPLAY_HEIGHT;

/// The pixel that coordinates `(x, y)` address: both wrap at the display edges,
/// and pixels are stored row by row.
pub open spec fn pixel_index(x: int, y: int) -> int {
    (y % DISPLAY_HEIGHT as int) * DISPLAY_WIDTH as int + x % DISPLAY_WIDTH as int
}

/// A display with every pixel off.
pub open spec fn blank_display() -> Seq<bool> {
    Seq::new(DISPLAY_SIZE as nat, |p: int| false)
}

/// Characters per rendered row: one per pixel and a newline.
pub open spec fn text_row_len() -> int {
    DISPLAY_WIDTH as int + 1
}

/// Character `j` of the text rendering of `pixels`: rows top to bottom, `#`
/// for a lit pixel and a space for a dark one, each row ended by a newline.
pub open spec fn frame_char(pixels: Seq<bool>, j: int) -> char {
    let x = j % text_row_len();
    let y = j / text_row_len();
    if x == DISPLAY_WIDTH as int {
        '\n'
    } else if pixels[y * DISPLAY_WIDTH as int + x] {
        '#'
    } else {
        ' '
    }
}

/// The text rendering of a whole display.
pub open spec fn frame_text(pixels: Seq<bool>) -> Seq<char> {
    Seq::new((DISPLAY_HEIGHT as int * text_row_len()) as nat, |j: int| frame_char(pixels, j))
}

/// Pixels are stored row by row: for coordinates on the display, pixel
/// `(x, y)` is at `y * DISPLAY_WIDTH + x`, and coordinates wrap at the edges.
pub proof fn lemma_pixel_index_row_major(x: int, y: int)
    requires
        0 <= x < DISPLAY_WIDTH,
        0 <= y < DISPLAY_HEIGHT,
    ensures
        pixel_index(x, y) == y * 64 + x,
        pixel_index(x + 64, y) == pixel_index(x, y),
        pixel_index(x, y + 32) == pixel_index(x, y),
{
    vstd::arithmetic::div_mod::lemma_fundamental_div_mod_converse_mod(x + 64, 64, 1, x);
    vstd::arithmetic::div_mod::lemma_fundamental_div_mod_converse_mod(y + 32, 32, 1, y);
}

/// The rendered text shows each pixel in its place: it has 32 lines of 64
/// characters and a newline each, and character `x` of line `y` is `#`
/// exactly when pixel `(x, y)` (the one `get(x, y)` reads) is lit, and a
/// space otherwise.
pub proof fn lemma_render_shows_pixels(pixels: Seq<bool>, x: int, y: int)
    requires
        pixels.len() == DISPLAY_SIZE,
        0 <= x < DISPLAY_WIDTH,
        0 <= y < DISPLAY_HEIGHT,
    ensures
        frame_text(pixels).len() == 32 * 65,
        frame_text(pixels)[y * 65 + x] == if pixels[pixel_index(x, y)] {
            '#'
        } else {
            ' '
        },
        frame_text(pixels)[y * 65 + 64] == '\n',
{
    lemma_pixel_index_row_major(x, y);
    vstd::arithmetic::div_mod::lemma_fundamental_div_mod_converse_mod(y * 65 + x, 65, y, x);
    vstd::arithmetic::div_mod::lemma_fundamental_div_mod_converse_div(y * 65 + x, 65, y, x);
    vstd::arithmetic::div_mod::lemma_fundamental_div_mod_converse_mod(y * 65 + 64, 65, y, 64);
}

#[derive(Clone)]
pub struct Display {
    pixels: [bool; DISPLAY_SIZE],
}

impl Display {
    /// The pixels, row by row: pixel `(x, y)` is at `y * DISPLAY_WIDTH + x`.
    pub closed spec fn view(&self) -> Seq<bool> {
        self.pixels@
    }

    /// Every display holds exactly `DISPLAY_SIZE` pixels.
    pub broadcast proof fn lemma_view_len(d: &Display)
        ensures
            #[trigger] d@.len() == DISPLAY_SIZE,
    {
    }

    pub fn new() -> (d: Self)
        ensures
            d@ == blank_display(),
    {
        Display { pixels: [false; DISPLAY_SIZE] }
    }

    /// Turns every pixel off.
    pub fn clear(&mut self)
        ensures
            final(self)@ == blank_display(),
    {
        self.pixels = [false; DISPLAY_SIZE];
    }

    /// Reads the pixel at `(x, y)`, wrapping both coordinates at the edges.
    pub fn get(&self, x: usize, y: usize) -> (on: bool)
        ensures
            on == self@[pixel_index(x as int, y as int)],
    {
        self.pixels[(y % DISPLAY_HEIGHT) * DISPLAY_WIDTH + (x % DISPLAY_WIDTH)]
    }

    /// XORs a single pixel with `on`, wrapping at the display edges.
    /// Returns true if this flipped a set pixel off (a collision).
    pub fn xor_pixel(&mut self, x: usize, y: usize, on: bool) -> (collision: bool)
        ensures
            final(self)@ == old(self)@.update(
                pixel_index(x as int, y as int),
                old(self)@[pixel_index(x as int, y as int)] != on,
            ),
            collision == (old(self)@[pixel_index(x as int, y as int)] && on),
    {
        let idx = (y % DISPLAY_HEIGHT) * DISPLAY_WIDTH + (x % DISPLAY_WIDTH);
        let was_set = self.pixels[idx];
        let new_val = self.pixels[idx] ^ on;
        self.pixels[idx] = new_val;
        was_set && on
    }

    /// The display as text: `#` for a lit pixel, a space for a dark one, one
    /// line per row.
    pub fn render_text(&self) -> (text: String)
        ensures
            text@ == frame_text(self@),
    {
        let mut text = String::new();
        let mut y: usize = 0;
        while y < DISPLAY_HEIGHT
            invariant
                y <= DISPLAY_HEIGHT,
                self@.len() == DISPLAY_SIZE,
                text@ == Seq::new((y * text_row_len()) as nat, |j: int| frame_char(self@, j)),
            decreases DISPLAY_HEIGHT - y,
        {
            let mut x: usize = 0;
            while x < DISPLAY_WIDTH
                invariant
                    y < DISPLAY_HEIGHT,
                    x <= DISPLAY_WIDTH,
                    self@.len() == DISPLAY_SIZE,
                    text@ == Seq::new(
                        (y * text_row_len() + x) as nat,
                        |j: int| frame_char(self@, j),
                    ),
                decreases DISPLAY_WIDTH - x,
            {
                let j = y * 65 + x;
                proof {
                    vstd::arithmetic::div_mod::lemma_fundamental_div_mod_converse_mod(
                        j as int,
                        text_row_len(),
                        y as int,
                        x as int,
                    );
                    vstd::arithmetic::div_mod::lemma_fundamental_div_mod_converse_div(
                        j as int,
                        text_row_len(),
                        y as int,
                        x as int,
                    );
                }
                assert(frame_char(self@, j as int) == if self@[y * DISPLAY_WIDTH + x] {
                    '#'
                } else {
                    ' '
                });
                if self.pixels[y * DISPLAY_WIDTH + x] {
                    proof {
                        reveal_strlit("#");
                    }
                    text.append("#");
                } else {
                    proof {
                        reveal_strlit(" ");
                    }
                    text.append(" ");
                }
                assert(text@ =~= Seq::new((j + 1) as nat, |j: int| frame_char(self@, j)));
                x += 1;
            }
            let j = y * 65 + 64;
            proof {
                vstd::arithmetic::div_mod::lemma_fundamental_div_mod_converse_mod(
                    j as int,
                    text_row_len(),
                    y as int,
                    64,
                );
            }
            assert(frame_char(self@, j as int) == '\n');
            proof {
                reveal_strlit("\n");
            }
            text.append("\n");
            assert(text@ =~= Seq::new((j + 1) as nat, |j: int| frame_char(self@, j)));
            assert(j + 1 == (y + 1) * text_row_len());
            y += 1;
        }
        text
    }

    /// All pixels, row by row.
    pub fn pixels(&self) -> (pixels: &[bool])
        ensures
            pixels@ == self@,
    {
        self.pixels.as_slice()
    }
}

impl Default for Display {
    fn default() -> (d: Self)
        ensures
            d@ == blank_display(),
    {
        Display::new()
    }
}

} // verus!
