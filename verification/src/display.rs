use vstd::prelude::*;

verus! {

/// The mathematical framebuffer: `Display::HEIGHT` rows of
/// `Display::WIDTH` pixels each, indexed `[y][x]`, `true` meaning that the
/// pixel is lit.
pub type Grid = Seq<Seq<bool>>;

/// A grid has exactly `Display::HEIGHT` rows of exactly `Display::WIDTH`
/// pixels.
pub open spec fn grid_wf(g: Grid) -> bool {
    &&& g.len() == Display::HEIGHT
    &&& forall|y: int| 0 <= y < Display::HEIGHT ==> (#[trigger] g[y]).len() == Display::WIDTH
}

/// The grid with every pixel off.
pub open spec fn blank() -> Grid {
    Seq::new(Display::HEIGHT as nat, |y: int| Seq::new(Display::WIDTH as nat, |x: int| false))
}

/// The grid `g` after the pixel at `(x mod WIDTH, y mod HEIGHT)` has been
/// XORed with `bit`; every other pixel is as in `g`.
pub open spec fn toggled(g: Grid, x: int, y: int, bit: bool) -> Grid {
    let px = x % (Display::WIDTH as int);
    let py = y % (Display::HEIGHT as int);
    g.update(py, g[py].update(px, g[py][px] ^ bit))
}

/// Whether column `col` of a sprite row is set. Column 0 is the leftmost
/// pixel of the row and the most significant bit of the byte.
pub open spec fn bit_set(row: u8, col: int) -> bool {
    0 <= col < 8 && (row >> ((7 - col) as u8)) & 1 == 1
}

/// Whether a sprite whose top-left corner is drawn at `(vx, vy)` has a set
/// bit over the pixel `(px, py)`, coordinates wrapping at the grid's edges.
///
/// A sprite is eight columns wide and at most `HEIGHT` rows tall, so a
/// pixel lies under at most one of its bits: the one in row
/// `(py - vy) mod HEIGHT`, column `(px - vx) mod WIDTH`, if the sprite
/// reaches that far.
pub open spec fn sprite_covers(sprite: Seq<u8>, vx: int, vy: int, px: int, py: int) -> bool {
    let row = (py - vy) % (Display::HEIGHT as int);
    let col = (px - vx) % (Display::WIDTH as int);
    row < sprite.len() && bit_set(sprite[row], col)
}

/// The pixel `(px, py)` lies under row `row`, column `col` of a sprite drawn
/// at `(vx, vy)` exactly if it is where that row and column wrap to.
pub proof fn lemma_wrapped_target(vx: int, vy: int, row: int, col: int, px: int, py: int)
    requires
        0 <= row < Display::HEIGHT,
        0 <= col < Display::WIDTH,
        0 <= px < Display::WIDTH,
        0 <= py < Display::HEIGHT,
    ensures
        (py - vy) % 32 == row <==> py == (vy + row) % 32,
        (px - vx) % 64 == col <==> px == (vx + col) % 64,
{
}

/// The grid `g` after `sprite` has been XORed onto it at `(vx, vy)`.
pub open spec fn blit(g: Grid, sprite: Seq<u8>, vx: int, vy: int) -> Grid {
    Seq::new(
        Display::HEIGHT as nat,
        |py: int|
            Seq::new(
                Display::WIDTH as nat,
                |px: int| g[py][px] ^ sprite_covers(sprite, vx, vy, px, py),
            ),
    )
}

/// Whether drawing `sprite` at `(vx, vy)` turns off a pixel that is lit in
/// `g`.
pub open spec fn collides(g: Grid, sprite: Seq<u8>, vx: int, vy: int) -> bool {
    exists|px: int, py: int|
        0 <= px < Display::WIDTH && 0 <= py < Display::HEIGHT && g[py][px]
            && #[trigger] sprite_covers(sprite, vx, vy, px, py)
}

/// The framebuffer: a fixed grid of binary pixels, row-major.
pub struct Display {
    pub pixels: [[bool; 64]; 32],
}

impl View for Display {
    type V = Grid;

    open spec fn view(&self) -> Grid {
        Seq::new(Display::HEIGHT as nat, |y: int| self.pixels@[y]@)
    }
}

impl Display {
    /// Number of pixel columns.
    pub const WIDTH: usize = 64;

    /// Number of pixel rows.
    pub const HEIGHT: usize = 32;

    /// A framebuffer with every pixel off.
    pub fn new() -> (d: Self)
        ensures
            d@ == blank(),
    {
        let d = Self { pixels: [[false; 64]; 32] };
        assert(d@ =~~= blank());
        d
    }

    /// Turns every pixel off.
    pub fn clear(&mut self)
        ensures
            final(self)@ == blank(),
        no_unwind
    {
        let mut y: usize = 0;
        while y < Self::HEIGHT
            invariant
                y <= Self::HEIGHT,
                forall|j: int, i: int|
                    0 <= j < y && 0 <= i < Self::WIDTH ==> !(#[trigger] self.pixels@[j]@[i]),
            decreases Self::HEIGHT - y,
        {
            let mut x: usize = 0;
            while x < Self::WIDTH
                invariant
                    y < Self::HEIGHT,
                    x <= Self::WIDTH,
                    forall|j: int, i: int|
                        0 <= j < y && 0 <= i < Self::WIDTH ==> !(#[trigger] self.pixels@[j]@[i]),
                    forall|i: int| 0 <= i < x ==> !(#[trigger] self.pixels@[y as int]@[i]),
                decreases Self::WIDTH - x,
            {
                self.pixels[y][x] = false;
                x += 1;
            }
            y += 1;
        }
        assert(self@ =~~= blank());
    }

    /// XORs the pixel at `(x mod WIDTH, y mod HEIGHT)` with `bit` and says
    /// whether that pixel was lit before.
    pub fn toggle(&mut self, x: usize, y: usize, bit: bool) -> (was_on: bool)
        ensures
            was_on == old(self)@[y as int % 32][x as int % 64],
            final(self)@ == toggled(old(self)@, x as int, y as int, bit),
        no_unwind
    {
        let px = x % Self::WIDTH;
        let py = y % Self::HEIGHT;
        let was_on = self.pixels[py][px];
        self.pixels[py][px] = was_on ^ bit;
        assert(self@ =~~= toggled(old(self)@, x as int, y as int, bit));
        was_on
    }

    /// Reads the pixel at `(x mod WIDTH, y mod HEIGHT)`.
    pub fn pixel(&self, x: usize, y: usize) -> (on: bool)
        ensures
            on == self@[y as int % 32][x as int % 64],
    {
        self.pixels[y % Self::HEIGHT][x % Self::WIDTH]
    }

    /// The whole grid as it stands, for rendering.
    pub fn snapshot(&self) -> (rows: &[[bool; 64]; 32])
        ensures
            *rows == self.pixels,
            rows@.len() == Self::HEIGHT,
            forall|y: int| 0 <= y < Self::HEIGHT ==> (#[trigger] rows@[y])@ == self@[y],
            grid_wf(self@),
    {
        &self.pixels
    }
}

} // verus!
