use vstd::prelude::*;

verus! {

/// A point of the canvas, centred on its middle, with `y` growing upwards.
#[derive(Debug, Clone, Copy, PartialEq, Eq, Structural)]
pub struct Position {
    pub x: i64,
    pub y: i64,
}

/// A color with one byte per channel.
#[derive(Debug, Clone, Copy, PartialEq, Eq, Structural)]
pub struct Color {
    pub red: u8,
    pub green: u8,
    pub blue: u8,
}

impl Color {
    /// The channels in the order red, green, blue.
    pub open spec fn channels(self) -> Seq<u8> {
        seq![self.red, self.green, self.blue]
    }

    pub fn new(red: u8, green: u8, blue: u8) -> (r: Self)
        ensures
            r == (Color { red, green, blue }),
    {
        Color { red, green, blue }
    }

    pub fn to_vec(self) -> (r: Vec<u8>)
        ensures
            r@ == self.channels(),
    {
        vec![self.red, self.green, self.blue]
    }
}

/// The channels of each pixel in turn: red, green and blue of the first
/// pixel, then those of the second, and so on.
pub open spec fn rgb_bytes(pixels: Seq<Color>) -> Seq<u8>
    decreases pixels.len(),
{
    if pixels.len() == 0 {
        Seq::empty()
    } else {
        rgb_bytes(pixels.drop_last()) + pixels.last().channels()
    }
}

/// Three bytes stand for each pixel.
pub proof fn lemma_rgb_bytes_len(pixels: Seq<Color>)
    ensures
        rgb_bytes(pixels).len() == 3 * pixels.len(),
    decreases pixels.len(),
{
    if pixels.len() > 0 {
        lemma_rgb_bytes_len(pixels.drop_last());
    }
}

/// The mathematical picture behind an [`Image`]: its size and its pixels,
/// stored row by row from the top row down.
pub struct ImageView {
    pub width: nat,
    pub height: nat,
    pub pixels: Seq<Color>,
}

impl ImageView {
    /// One pixel for each cell of the grid.
    pub open spec fn wf(self) -> bool {
        self.pixels.len() == self.width * self.height
    }

    pub open spec fn half_width(self) -> int {
        self.width as int / 2
    }

    pub open spec fn half_height(self) -> int {
        self.height as int / 2
    }

    /// The pixel in row `row` (counted from the top) and column `col`.
    pub open spec fn cell(self, row: int, col: int) -> Color {
        self.pixels[row * self.width + col]
    }

    /// Where a position lies in the row-major pixel sequence.
    pub open spec fn index_of(self, pos: Position) -> int {
        (self.half_height() - pos.y) * self.width + (pos.x + self.half_width())
    }

    /// A position that `set_pixel` accepts: within half the width and half
    /// the height of the middle, and landing inside the buffer.
    pub open spec fn accepts(self, pos: Position) -> bool {
        &&& -self.half_width() <= pos.x <= self.half_width()
        &&& -self.half_height() <= pos.y <= self.half_height()
        &&& self.index_of(pos) < self.pixels.len()
    }

    /// The position that names the pixel in row `row` and column `col`.
    pub open spec fn position_of_cell(self, row: int, col: int) -> Position {
        Position { x: (col - self.half_width()) as i64, y: (self.half_height() - row) as i64 }
    }
}

/// Two different cells of a grid `width` wide sit at different row-major
/// indices.
proof fn lemma_cells_apart(width: int, r1: int, c1: int, r2: int, c2: int)
    requires
        0 <= c1 < width,
        0 <= c2 < width,
        r1 != r2 || c1 != c2,
    ensures
        r1 * width + c1 != r2 * width + c2,
{
    if r1 < r2 {
        assert(r1 * width + c1 < r2 * width + c2) by (nonlinear_arith)
            requires 0 <= c1 < width, 0 <= c2, r1 < r2;
    } else if r2 < r1 {
        assert(r2 * width + c2 < r1 * width + c1) by (nonlinear_arith)
            requires 0 <= c2 < width, 0 <= c1, r2 < r1;
    }
}

/// A cell of a grid of `height` rows lies inside its row-major sequence.
proof fn lemma_cell_inside(width: int, height: int, row: int, col: int)
    requires
        0 <= row < height,
        0 <= col < width,
    ensures
        0 <= row * width + col < height * width,
{
    assert(0 <= row * width + col < height * width) by (nonlinear_arith)
        requires 0 <= row < height, 0 <= col < width;
}

/// A picture of `width` by `height` pixels.
#[derive(Debug, Clone)]
pub struct Image {
    pixels: Vec<Color>,
    width: usize,
    height: usize,
}

impl View for Image {
    type V = ImageView;

    closed spec fn view(&self) -> ImageView {
        ImageView { width: self.width as nat, height: self.height as nat, pixels: self.pixels@ }
    }
}

impl Image {
    /// A picture of the given size with every pixel dark grey.
    pub fn new(width: usize, height: usize) -> (r: Self)
        requires
            width * height <= usize::MAX,
        ensures
            r@.wf(),
            r@.width == width,
            r@.height == height,
            forall|i: int|
                0 <= i < r@.pixels.len() ==> r@.pixels[i] == (Color { red: 30, green: 30, blue: 30 }),
    {
        let count: usize = width * height;
        let mut pixels: Vec<Color> = Vec::with_capacity(count);
        let mut i: usize = 0;
        while i < count
            invariant
                i <= count,
                pixels@.len() == i,
                forall|j: int|
                    0 <= j < i ==> pixels@[j] == (Color { red: 30, green: 30, blue: 30 }),
            decreases count - i,
        {
            pixels.push(Color::new(30, 30, 30));
            i = i + 1;
        }
        Image { pixels, width, height }
    }

    /// Where `pos` lies in the pixel vector.
    fn index_of(&self, pos: Position) -> (r: usize)
        requires
            self@.wf(),
            self@.accepts(pos),
        ensures
            r == self@.index_of(pos),
    {
        let half_width: i128 = (self.width / 2) as i128;
        let half_height: i128 = (self.height / 2) as i128;
        let x_pos: i128 = pos.x as i128 + half_width;
        let y_pos: i128 = half_height - pos.y as i128;
        let len: usize = self.pixels.len();
        proof {
            let w = self.width as int;
            let h = self.height as int;
            assert(y_pos * w <= h * w) by (nonlinear_arith)
                requires 0 <= y_pos <= h, 0 <= w;
            assert(h * w <= usize::MAX) by (nonlinear_arith)
                requires len == w * h, len <= usize::MAX;
        }
        let index: i128 = y_pos * (self.width as i128) + x_pos;
        index as usize
    }

    /// Paints the pixel at `pos`.
    pub fn set_pixel(&mut self, pos: Position, pixel: Color)
        requires
            old(self)@.wf(),
            old(self)@.accepts(pos),
        ensures
            final(self)@ == (ImageView {
                pixels: old(self)@.pixels.update(old(self)@.index_of(pos), pixel),
                ..old(self)@
            }),
    {
        let index = self.index_of(pos);
        self.pixels.set(index, pixel);
    }

    /// Paints every pixel with the color that `function` gives for its
    /// position. The canvas is walked from the bottom row up, each row from
    /// left to right. With an even number of rows the bottom row would fall
    /// below the buffer, so a non-empty canvas needs an odd one.
    pub fn set_all_pixels<F: Fn(Position) -> Color>(&mut self, function: F)
        requires
            old(self)@.wf(),
            old(self)@.pixels.len() == 0 || old(self)@.height % 2 == 1,
            old(self)@.width <= i64::MAX,
            old(self)@.height <= i64::MAX,
            forall|row: int, col: int|
                0 <= row < old(self)@.height && 0 <= col < old(self)@.width ==> function.requires(
                    (#[trigger] old(self)@.position_of_cell(row, col),),
                ),
        ensures
            final(self)@.wf(),
            final(self)@.width == old(self)@.width,
            final(self)@.height == old(self)@.height,
            forall|row: int, col: int|
                0 <= row < old(self)@.height && 0 <= col < old(self)@.width ==> function.ensures(
                    (old(self)@.position_of_cell(row, col),),
                    #[trigger] final(self)@.cell(row, col),
                ),
    {
        let ghost start = self@;
        let ghost w = self@.width as int;
        let ghost h = self@.height as int;
        let half_width: i64 = (self.width / 2) as i64;
        let half_height: i64 = (self.height / 2) as i64;
        let mut y: usize = 0;
        while y < self.height
            invariant
                self@.wf(),
                self@.width == w,
                self@.height == h,
                start.width == w,
                start.height == h,
                start.wf(),
                start.pixels.len() == 0 || h % 2 == 1,
                w <= i64::MAX,
                h <= i64::MAX,
                half_width == w / 2,
                half_height == h / 2,
                y <= h,
                forall|row: int, col: int|
                    0 <= row < h && 0 <= col < w ==> function.requires(
                        (#[trigger] start.position_of_cell(row, col),),
                    ),
                forall|row: int, col: int|
                    h - y <= row < h && 0 <= col < w ==> function.ensures(
                        (start.position_of_cell(row, col),),
                        #[trigger] self@.cell(row, col),
                    ),
            decreases h - y,
        {
            let ghost row = h - 1 - y;
            let mut x: usize = 0;
            while x < self.width
                invariant
                    self@.wf(),
                    self@.width == w,
                    self@.height == h,
                    start.width == w,
                    start.height == h,
                    start.wf(),
                    start.pixels.len() == 0 || h % 2 == 1,
                    w <= i64::MAX,
                    h <= i64::MAX,
                    half_width == w / 2,
                    half_height == h / 2,
                    y < h,
                    row == h - 1 - y,
                    x <= w,
                    forall|r: int, c: int|
                        0 <= r < h && 0 <= c < w ==> function.requires(
                            (#[trigger] start.position_of_cell(r, c),),
                        ),
                    forall|r: int, c: int|
                        (h - y <= r < h && 0 <= c < w) || (r == row && 0 <= c < x)
                            ==> function.ensures(
                            (start.position_of_cell(r, c),),
                            #[trigger] self@.cell(r, c),
                        ),
                decreases w - x,
            {
                let position = Position {
                    x: x as i64 - half_width,
                    y: y as i64 - half_height,
                };
                proof {
                    assert(w * h > 0) by (nonlinear_arith)
                        requires 0 <= x < w, 0 <= y < h;
                    assert(position == start.position_of_cell(row, x as int));
                    lemma_cell_inside(w, h, row, x as int);
                    assert(self@.index_of(position) == row * w + x);
                }
                let pixel = function(position);
                let ghost before = self@;
                self.set_pixel(position, pixel);
                proof {
                    assert forall|r: int, c: int|
                        (h - y <= r < h && 0 <= c < w) || (r == row && 0 <= c < x + 1)
                            implies function.ensures(
                            (start.position_of_cell(r, c),),
                            #[trigger] self@.cell(r, c),
                        ) by {
                        if r != row || c != x {
                            lemma_cells_apart(w, r, c, row, x as int);
                            lemma_cell_inside(w, h, r, c);
                            assert(self@.cell(r, c) == before.cell(r, c));
                        }
                    }
                }
                x = x + 1;
            }
            y = y + 1;
        }
    }

    /// The raw RGB bytes of the picture, row by row from the top.
    pub fn to_vec(&self) -> (r: Vec<u8>)
        requires
            3 * self@.pixels.len() <= usize::MAX,
        ensures
            r@ == rgb_bytes(self@.pixels),
    {
        let mut vector: Vec<u8> = Vec::with_capacity(3 * self.pixels.len());
        let mut i: usize = 0;
        while i < self.pixels.len()
            invariant
                i <= self.pixels@.len(),
                vector@ == rgb_bytes(self.pixels@.subrange(0, i as int)),
            decreases self.pixels@.len() - i,
        {
            let mut channels = self.pixels[i].to_vec();
            vector.append(&mut channels);
            proof {
                let done = self.pixels@.subrange(0, i + 1);
                assert(done.drop_last() =~= self.pixels@.subrange(0, i as int));
            }
            i = i + 1;
        }
        proof {
            assert(self.pixels@.subrange(0, i as int) =~= self.pixels@);
        }
        vector
    }

    /// The color of the pixel at `pos`.
    pub fn get_pixel(&self, pos: Position) -> (r: Color)
        requires
            self@.wf(),
            self@.accepts(pos),
        ensures
            r == self@.pixels[self@.index_of(pos)],
    {
        let index = self.index_of(pos);
        self.pixels[index]
    }

    pub fn width(&self) -> (r: usize)
        ensures
            r == self@.width,
    {
        self.width
    }

    pub fn height(&self) -> (r: usize)
        ensures
            r == self@.height,
    {
        self.height
    }
}

} // verus!
