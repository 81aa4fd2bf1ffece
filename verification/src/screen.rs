//! The display: a grid of 64 by 32 monochrome pixels on which sprites are
//! drawn by exclusive or.

use vstd::prelude::*;
use crate::io::DrawSprite;

verus! {

/// The number of columns of the display.
pub const WIDTH: usize = 64;

/// The number of rows of the display.
pub const HEIGHT: usize = 32;

/// A position on, or off, the display: column `x` and row `y`.
#[derive(Debug, Clone, Copy, PartialEq, Eq, Structural)]
pub struct Point {
    pub x: i8,
    pub y: i8,
}

/// What became of a pixel that was flipped.
#[derive(Debug, Clone, Copy, PartialEq, Eq, Structural)]
pub enum Flip {
    /// The pixel was unset and is now set.
    NoCollision,
    /// The pixel was set and is now unset.
    Collision,
}

/// Whether column `x` of row `y` lies on the display.
pub open spec fn on_grid(x: int, y: int) -> bool {
    0 <= x < WIDTH && 0 <= y < HEIGHT
}

/// Whether `grid` has the shape of the display: `HEIGHT` rows of `WIDTH`
/// pixels.
pub open spec fn grid_shaped(grid: Seq<Seq<bool>>) -> bool {
    &&& grid.len() == HEIGHT
    &&& forall|y: int| 0 <= y < HEIGHT ==> (#[trigger] grid[y]).len() == WIDTH
}

/// The display with every pixel unset.
pub open spec fn blank_grid() -> Seq<Seq<bool>> {
    Seq::new(HEIGHT as nat, |y: int| Seq::new(WIDTH as nat, |x: int| false))
}

/// Whether the pixel in column `col` of a sprite row is set. Column 0 is the
/// most significant bit of the row's byte.
pub open spec fn row_bit(row: u8, col: int) -> bool {
    0 <= col < 8 && (row >> ((7 - col) as u8)) & 1 == 1
}

/// Whether `sprite`, with its top left corner at `origin`, has a set pixel at
/// column `x`, row `y`. The sprite's pixels are placed without wrapping.
pub open spec fn covers(origin: Point, sprite: Seq<u8>, x: int, y: int) -> bool {
    let col = x - origin.x;
    let line = y - origin.y;
    0 <= line < sprite.len() && row_bit(sprite[line], col)
}

/// The grid after `sprite` was drawn onto `grid` at `origin`: every pixel of
/// the display that the sprite covers is inverted, and the parts of the
/// sprite that lie off the display are dropped.
pub open spec fn drawn(grid: Seq<Seq<bool>>, origin: Point, sprite: Seq<u8>) -> Seq<Seq<bool>> {
    Seq::new(
        HEIGHT as nat,
        |y: int| Seq::new(WIDTH as nat, |x: int| grid[y][x] != covers(origin, sprite, x, y)),
    )
}

/// Whether drawing `sprite` onto `grid` at `origin` erases a pixel, that is
/// whether the sprite covers a pixel that is set.
pub open spec fn collides(grid: Seq<Seq<bool>>, origin: Point, sprite: Seq<u8>) -> bool {
    exists|x: int, y: int| on_grid(x, y) && grid[y][x] && covers(origin, sprite, x, y)
}

/// A row of pixels as text: `#` for a pixel that is set, `.` for one that is
/// not.
pub open spec fn row_pixels(row: Seq<bool>) -> Seq<char> {
    Seq::new(row.len(), |x: int| if row[x] { '#' } else { '.' })
}

/// Rows of pixels as text, a line feed after each.
pub open spec fn rows_text(rows: Seq<Seq<bool>>) -> Seq<char>
    decreases rows.len(),
{
    if rows.len() == 0 {
        Seq::empty()
    } else {
        rows_text(rows.drop_last()) + row_pixels(rows.last()) + seq!['\n']
    }
}

/// The display as text: a line feed, then the rows from top to bottom.
pub open spec fn screen_text(grid: Seq<Seq<bool>>) -> Seq<char> {
    seq!['\n'] + rows_text(grid)
}

/// The point on the display that `p` stands for when both coordinates wrap
/// around the display's edges.
pub open spec fn wrapped(p: Point) -> Point {
    Point { x: (p.x as int % 64) as i8, y: (p.y as int % 32) as i8 }
}

/// The remainder of `v` modulo `m`, taken so that it is never negative.
fn rem_euclid(v: i16, m: i16) -> (r: i8)
    requires
        -256 <= v < 256,
        m == 32 || m == 64,
    ensures
        r == v as int % m as int,
{
    let r = (v + 256) % m;
    r as i8
}

impl From<(i8, i8)> for Point {
    fn from(pair: (i8, i8)) -> (p: Self) {
        Point { x: pair.0, y: pair.1 }
    }
}

impl vstd::std_specs::convert::FromSpecImpl<(i8, i8)> for Point {
    open spec fn obeys_from_spec() -> bool {
        true
    }

    open spec fn from_spec(pair: (i8, i8)) -> Self {
        Point { x: pair.0, y: pair.1 }
    }
}

impl core::ops::Add for Point {
    type Output = Point;

    /// The sum of two points, coordinate by coordinate.
    fn add(self, other: Point) -> (p: Point) {
        Point { x: self.x + other.x, y: self.y + other.y }
    }
}

impl vstd::std_specs::ops::AddSpecImpl for Point {
    open spec fn obeys_add_spec() -> bool {
        true
    }

    /// Both sums fit into a signed byte.
    open spec fn add_req(self, other: Point) -> bool {
        -128 <= self.x + other.x <= 127 && -128 <= self.y + other.y <= 127
    }

    open spec fn add_spec(self, other: Point) -> Point {
        Point { x: (self.x + other.x) as i8, y: (self.y + other.y) as i8 }
    }
}

impl Point {
    /// The point in column `x` and row `y`.
    pub fn new(x: i8, y: i8) -> (p: Self)
        ensures
            p == (Point { x, y }),
    {
        Point { x, y }
    }

    /// Wraps both coordinates around the edges of the display, so that the
    /// result lies on it: column -1 becomes column 63.
    #[must_use]
    pub fn wrap(self) -> (p: Self)
        ensures
            p == wrapped(self),
            on_grid(p.x as int, p.y as int),
    {
        Point { x: rem_euclid(self.x as i16, 64), y: rem_euclid(self.y as i16, 32) }
    }

    /// Whether the point lies on the display.
    pub fn in_bounds(self) -> (b: bool)
        ensures
            b == on_grid(self.x as int, self.y as int),
    {
        let x = 0 <= self.x && self.x < 64;
        let y = 0 <= self.y && self.y < 32;
        x && y
    }

    /// The sum of two points, wrapped around the edges of the display.
    pub fn wrapping_add(self, other: Self) -> (p: Self)
        ensures
            p.x == (self.x + other.x) % 64,
            p.y == (self.y + other.y) % 32,
            on_grid(p.x as int, p.y as int),
    {
        Point {
            x: rem_euclid(self.x as i16 + other.x as i16, 64),
            y: rem_euclid(self.y as i16 + other.y as i16, 32),
        }
    }
}

/// The display's pixels. A pixel is set (`true`) or unset.
#[derive(Debug, Clone)]
pub struct Screen {
    rows: [[bool; 64]; 32],
}

impl View for Screen {
    type V = Seq<Seq<bool>>;

    /// The rows from top to bottom, each from left to right.
    closed spec fn view(&self) -> Seq<Seq<bool>> {
        Seq::new(HEIGHT as nat, |y: int| self.rows@[y]@)
    }
}

impl Default for Screen {
    fn default() -> (s: Self)
        ensures
            s@ == blank_grid(),
    {
        Screen::new()
    }
}

impl Screen {
    /// Whether the pixel in column `x` of row `y` is set.
    pub open spec fn lit(&self, x: int, y: int) -> bool {
        self@[y][x]
    }

    /// A screen's view always has the display's shape.
    pub proof fn lemma_shape(&self)
        ensures
            grid_shaped(self@),
    {
    }

    /// A display with every pixel unset.
    pub fn new() -> (s: Self)
        ensures
            s@ == blank_grid(),
    {
        let s = Self { rows: [[false; 64]; 32] };
        assert(s@ =~~= blank_grid());
        s
    }

    /// Unsets every pixel.
    pub fn clear(&mut self)
        ensures
            final(self)@ == blank_grid(),
    {
        *self = Self::new();
    }

    /// Whether the pixel at `p` is set.
    pub fn get(&self, p: Point) -> (b: bool)
        requires
            on_grid(p.x as int, p.y as int),
        ensures
            b == self.lit(p.x as int, p.y as int),
    {
        self.rows[p.y as usize][p.x as usize]
    }

    /// Inverts the pixel at `p` and tells whether that erased it.
    pub fn flip(&mut self, p: Point) -> (f: Flip)
        requires
            on_grid(p.x as int, p.y as int),
        ensures
            f == if old(self).lit(p.x as int, p.y as int) {
                Flip::Collision
            } else {
                Flip::NoCollision
            },
            final(self)@ == old(self)@.update(
                p.y as int,
                old(self)@[p.y as int].update(p.x as int, !old(self).lit(p.x as int, p.y as int)),
            ),
    {
        let was_high = self.rows[p.y as usize][p.x as usize];
        self.rows[p.y as usize][p.x as usize] = !was_high;
        assert(self@ =~~= old(self)@.update(
            p.y as int,
            old(self)@[p.y as int].update(p.x as int, !old(self).lit(p.x as int, p.y as int)),
        ));
        if was_high {
            Flip::Collision
        } else {
            Flip::NoCollision
        }
    }

    /// The display as text: a line feed, then one line for each row, with
    /// `#` for a pixel that is set and `.` for one that is not.
    pub fn render(&self) -> (text: String)
        ensures
            text@ == screen_text(self@),
    {
        let mut out = String::new();
        out.push('\n');
        let mut y: usize = 0;
        assert(self@.take(0) =~= Seq::<Seq<bool>>::empty());
        assert(out@ =~= seq!['\n'] + rows_text(self@.take(0)));
        while y < 32
            invariant
                y <= 32,
                out@ == seq!['\n'] + rows_text(self@.take(y as int)),
            decreases 32 - y,
        {
            let ghost before = out@;
            let mut x: usize = 0;
            assert(out@ =~= before + row_pixels(self@[y as int]).take(0));
            while x < 64
                invariant
                    y < 32,
                    x <= 64,
                    out@ == before + row_pixels(self@[y as int]).take(x as int),
                decreases 64 - x,
            {
                let c = if self.rows[y][x] {
                    '#'
                } else {
                    '.'
                };
                out.push(c);
                x = x + 1;
                assert(out@ =~= before + row_pixels(self@[y as int]).take(x as int));
            }
            out.push('\n');
            y = y + 1;
            proof {
                let done = self@.take(y as int);
                assert(done.drop_last() =~= self@.take(y - 1));
                assert(done.last() == self@[y - 1]);
                assert(row_pixels(self@[y - 1]).take(64) =~= row_pixels(self@[y - 1]));
                assert(out@ =~= seq!['\n'] + rows_text(done));
            }
        }
        assert(self@.take(32) =~= self@);
        out
    }

    /// Draws `sprite`, one byte per row and the most significant bit
    /// leftmost, with its top left corner at `top_left`. Every set pixel of
    /// the sprite inverts the pixel of the display under it; the pixels of
    /// the sprite that fall off the display are dropped, not wrapped. Tells
    /// whether any pixel of the display went from set to unset.
    pub fn draw_sprite(&mut self, top_left: Point, sprite: &[u8]) -> (r: DrawSprite)
        ensures
            final(self)@ == drawn(old(self)@, top_left, sprite@),
            r == if collides(old(self)@, top_left, sprite@) {
                DrawSprite::Collision
            } else {
                DrawSprite::NoCollision
            },
    {
        let ghost before = self@;
        // Rows from this one on lie below the display wherever the sprite starts.
        let reach: usize = if sprite.len() < 160 { sprite.len() } else { 160 };
        let mut collision = false;
        let mut dy: usize = 0;
        while dy < reach
            invariant
                dy <= reach <= sprite@.len(),
                reach == sprite@.len() || reach == 160,
                reach <= 160,
                grid_shaped(self@),
                grid_shaped(before),
                forall|x: int, y: int|
                    on_grid(x, y) ==> #[trigger] self@[y][x] == (before[y][x] != (covers(
                        top_left,
                        sprite@,
                        x,
                        y,
                    ) && y - top_left.y < dy)),
                collision ==> collides(before, top_left, sprite@),
                !collision ==> forall|x: int, y: int|
                    on_grid(x, y) && #[trigger] covers(top_left, sprite@, x, y) && y - top_left.y
                        < dy ==> !before[y][x],
            decreases reach - dy,
        {
            let py: i16 = top_left.y as i16 + dy as i16;
            let row: u8 = sprite[dy];
            let mut dx: u8 = 0;
            while dx < 8
                invariant
                    dx <= 8,
                    dy < reach <= sprite@.len(),
                    reach <= 160,
                    py == top_left.y + dy,
                    row == sprite@[dy as int],
                    grid_shaped(self@),
                    grid_shaped(before),
                    forall|x: int, y: int|
                        on_grid(x, y) ==> #[trigger] self@[y][x] == (before[y][x] != (covers(
                            top_left,
                            sprite@,
                            x,
                            y,
                        ) && (y - top_left.y < dy || (y - top_left.y == dy && x - top_left.x
                            < dx)))),
                    collision ==> collides(before, top_left, sprite@),
                    !collision ==> forall|x: int, y: int|
                        on_grid(x, y) && #[trigger] covers(top_left, sprite@, x, y) && (y
                            - top_left.y < dy || (y - top_left.y == dy && x - top_left.x < dx))
                            ==> !before[y][x],
                decreases 8 - dx,
            {
                let px: i16 = top_left.x as i16 + dx as i16;
                if 0 <= px && px < 64 && 0 <= py && py < 32 {
                    if (row >> (7 - dx)) & 1 == 1 {
                        let pos = Point { x: px as i8, y: py as i8 };
                        assert(covers(top_left, sprite@, px as int, py as int));
                        assert(self@[py as int][px as int] == before[py as int][px as int]);
                        match self.flip(pos) {
                            Flip::Collision => {
                                assert(on_grid(px as int, py as int) && before[py as int][px as int]);
                                collision = true;
                            },
                            Flip::NoCollision => {},
                        }
                    }
                }
                dx = dx + 1;
            }
            dy = dy + 1;
        }
        assert(self@ =~~= drawn(before, top_left, sprite@));
        if collision {
            DrawSprite::Collision
        } else {
            DrawSprite::NoCollision
        }
    }
}

/// Drawing a sprite twice at the same place restores the display, and the
/// second draw erases a pixel exactly when the first draw set one.
pub proof fn lemma_draw_twice_restores(grid: Seq<Seq<bool>>, origin: Point, sprite: Seq<u8>)
    requires
        grid_shaped(grid),
    ensures
        drawn(drawn(grid, origin, sprite), origin, sprite) == grid,
        collides(drawn(grid, origin, sprite), origin, sprite) <==> exists|x: int, y: int|
            on_grid(x, y) && !grid[y][x] && drawn(grid, origin, sprite)[y][x],
{
    let once = drawn(grid, origin, sprite);
    assert(drawn(once, origin, sprite) =~~= grid);
    if collides(once, origin, sprite) {
        let (x, y) = choose|x: int, y: int|
            on_grid(x, y) && once[y][x] && covers(origin, sprite, x, y);
        assert(on_grid(x, y) && !grid[y][x] && once[y][x]);
    }
    if exists|x: int, y: int| on_grid(x, y) && !grid[y][x] && once[y][x] {
        let (x, y) = choose|x: int, y: int| on_grid(x, y) && !grid[y][x] && once[y][x];
        assert(on_grid(x, y) && once[y][x] && covers(origin, sprite, x, y));
    }
}

/// A sprite changes no pixel outside the rectangle of eight columns and as
/// many rows as it has, placed at its origin: what reaches past the right or
/// the lower edge of the display does not come back in on the other side.
pub proof fn lemma_draw_clips(
    grid: Seq<Seq<bool>>,
    origin: Point,
    sprite: Seq<u8>,
    x: int,
    y: int,
)
    requires
        grid_shaped(grid),
        on_grid(x, y),
        !(origin.x <= x < origin.x + 8 && origin.y <= y < origin.y + sprite.len()),
    ensures
        drawn(grid, origin, sprite)[y][x] == grid[y][x],
{
}

/// Drawing changes the display exactly where the sprite has a set pixel, and
/// keeps its shape.
pub proof fn lemma_drawn_pixel(
    grid: Seq<Seq<bool>>,
    origin: Point,
    sprite: Seq<u8>,
    x: int,
    y: int,
)
    requires
        on_grid(x, y),
    ensures
        grid_shaped(drawn(grid, origin, sprite)),
        drawn(grid, origin, sprite)[y][x] == (grid[y][x] != covers(origin, sprite, x, y)),
{
}

/// Points whose columns differ by a multiple of the display's width, and
/// whose rows differ by a multiple of its height, wrap to the same point; a
/// point on the display wraps to itself.
pub proof fn lemma_wrapped(p: Point, q: Point)
    ensures
        on_grid(wrapped(p).x as int, wrapped(p).y as int),
        on_grid(p.x as int, p.y as int) ==> wrapped(p) == p,
        (p.x - q.x) % 64 == 0 && (p.y - q.y) % 32 == 0 ==> wrapped(p) == wrapped(q),
{
}

} // verus!
