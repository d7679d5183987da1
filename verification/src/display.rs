//! The 64×32 monochrome framebuffer and its XOR sprite renderer.

use vstd::prelude::*;

verus! {

/// The screen as a grid of pixels: `screen[y][x]` is the pixel in row `y`,
/// column `x`, with the origin at the top left.
pub type Screen = Seq<Seq<bool>>;

/// A screen has 32 rows of 64 pixels each.
pub open spec fn screen_wf(screen: Screen) -> bool {
    &&& screen.len() == 32
    &&& forall|y: int| 0 <= y < 32 ==> (#[trigger] screen[y]).len() == 64
}

/// The screen with every pixel off.
pub open spec fn blank_screen() -> Screen {
    Seq::new(32, |y: int| Seq::new(64, |x: int| false))
}

/// Bit `i` of a sprite row, counted from the most significant bit.
pub open spec fn sprite_bit(row: u8, i: int) -> bool {
    0 <= i < 8 && (row >> ((7 - i) as u8)) & 1 == 1
}

/// The pixel on which bit `i` of a row drawn at column `x`, row `y` lands,
/// or `None` where the bit is clipped away.
pub open spec fn landing(x: int, y: int, i: int, wrap: bool) -> Option<(int, int)> {
    if wrap {
        Some(((x + i) % 64, y % 32))
    } else if x + i >= 64 || y >= 32 {
        None
    } else {
        Some((x + i, y))
    }
}

/// Some set bit among the first `n` bits of the row lands on pixel (`px`, `py`).
pub open spec fn touched_by_first(
    x: int,
    y: int,
    row: u8,
    wrap: bool,
    n: int,
    px: int,
    py: int,
) -> bool {
    exists|i: int|
        0 <= i < n && sprite_bit(row, i) && #[trigger] landing(x, y, i, wrap) == Some((px, py))
}

/// Some set bit of the row lands on pixel (`px`, `py`).
pub open spec fn touched(x: int, y: int, row: u8, wrap: bool, px: int, py: int) -> bool {
    touched_by_first(x, y, row, wrap, 8, px, py)
}

/// Some set bit among the first `n` bits of the row lands on a lit pixel.
pub open spec fn collides_in_first(
    screen: Screen,
    x: int,
    y: int,
    row: u8,
    wrap: bool,
    n: int,
) -> bool {
    exists|i: int|
        0 <= i < n && sprite_bit(row, i) && match #[trigger] landing(x, y, i, wrap) {
            Some((tx, ty)) => screen[ty][tx],
            None => false,
        }
}

/// Drawing the row on `screen` turns at least one lit pixel off.
pub open spec fn collides(screen: Screen, x: int, y: int, row: u8, wrap: bool) -> bool {
    collides_in_first(screen, x, y, row, wrap, 8)
}

/// The screen after one 8-pixel row has been XORed onto it at column `x`,
/// row `y`: exactly the touched pixels are inverted.
pub open spec fn drawn(screen: Screen, x: int, y: int, row: u8, wrap: bool) -> Screen {
    Seq::new(
        32,
        |py: int| Seq::new(64, |px: int| screen[py][px] != touched(x, y, row, wrap, px, py)),
    )
}

/// Some set bit of a sprite lands on pixel (`px`, `py`). The sprite's rows
/// go to the rows `y`, `y + 1`, ... of the screen.
pub open spec fn sprite_touched(
    x: int,
    y: int,
    rows: Seq<u8>,
    wrap: bool,
    px: int,
    py: int,
) -> bool {
    exists|j: int| 0 <= j < rows.len() && #[trigger] touched(x, y + j, rows[j], wrap, px, py)
}

/// The screen after a sprite of at most 32 rows has been XORed onto it
/// with its top left corner at column `x`, row `y`: exactly the touched
/// pixels are inverted. (The rows of such a sprite land on different rows of
/// the screen, so that no pixel is touched twice.)
pub open spec fn sprite_drawn(screen: Screen, x: int, y: int, rows: Seq<u8>, wrap: bool) -> Screen {
    Seq::new(
        32,
        |py: int| Seq::new(64, |px: int| screen[py][px] != sprite_touched(x, y, rows, wrap, px, py)),
    )
}

/// Drawing a sprite of at most 32 rows on `screen` turns at least one lit
/// pixel off.
pub open spec fn sprite_collides(screen: Screen, x: int, y: int, rows: Seq<u8>, wrap: bool) -> bool {
    exists|j: int| 0 <= j < rows.len() && #[trigger] collides(screen, x, y + j, rows[j], wrap)
}

/// The number of lit pixels in a run of pixels.
pub open spec fn lit_in_row(row: Seq<bool>) -> nat
    decreases row.len(),
{
    if row.len() == 0 {
        0
    } else {
        lit_in_row(row.drop_last()) + if row.last() {
            1nat
        } else {
            0nat
        }
    }
}

/// The number of lit pixels on a screen.
pub open spec fn lit_count(screen: Screen) -> nat
    decreases screen.len(),
{
    if screen.len() == 0 {
        0
    } else {
        lit_count(screen.drop_last()) + lit_in_row(screen.last())
    }
}

/// The number of set bits of a sprite row.
pub open spec fn ones(row: u8) -> nat {
    lit_in_row(Seq::new(8, |i: int| sprite_bit(row, i)))
}

/// Pixel `x` of a packed row, column 0 being the most significant bit.
pub open spec fn packed_bit(row: u64, x: int) -> bool {
    (row >> ((63 - x) as u64)) & 1 == 1
}

/// XOR with the mask of column `dx` inverts that column of a packed row
/// and no other.
proof fn lemma_flip_packed_bit(row: u64, dx: u64, px: u64)
    by (bit_vector)
    requires
        dx < 64,
        px < 64,
    ensures
        ((row ^ (1u64 << ((63 - dx) as u64))) >> ((63 - px) as u64)) & 1 == 1 <==> (((row >> ((63
            - px) as u64)) & 1 == 1) != (px == dx)),
{
}

/// A packed row of 0 has no lit pixel.
proof fn lemma_zero_row(px: u64)
    by (bit_vector)
    requires
        px < 64,
    ensures
        (0u64 >> ((63 - px) as u64)) & 1 == 0,
{
}

/// One more bit touches what the bits before it touch, and where it is set
/// the pixel that it lands on.
proof fn lemma_touched_step(x: int, y: int, row: u8, wrap: bool, n: int, px: int, py: int)
    requires
        0 <= n,
    ensures
        touched_by_first(x, y, row, wrap, n + 1, px, py) == (touched_by_first(
            x,
            y,
            row,
            wrap,
            n,
            px,
            py,
        ) || (sprite_bit(row, n) && landing(x, y, n, wrap) == Some((px, py)))),
{
    if touched_by_first(x, y, row, wrap, n, px, py) {
        let i = choose|i: int|
            0 <= i < n && sprite_bit(row, i) && #[trigger] landing(x, y, i, wrap) == Some((px, py));
        assert(0 <= i < n + 1 && sprite_bit(row, i) && landing(x, y, i, wrap) == Some((px, py)));
    }
    if sprite_bit(row, n) && landing(x, y, n, wrap) == Some((px, py)) {
        assert(0 <= n < n + 1 && sprite_bit(row, n) && landing(x, y, n, wrap) == Some((px, py)));
    }
}

/// One more bit collides where the bits before it do, or where it is set
/// and lands on a lit pixel.
proof fn lemma_collides_step(screen: Screen, x: int, y: int, row: u8, wrap: bool, n: int)
    requires
        0 <= n,
    ensures
        collides_in_first(screen, x, y, row, wrap, n + 1) == (collides_in_first(
            screen,
            x,
            y,
            row,
            wrap,
            n,
        ) || (sprite_bit(row, n) && match landing(x, y, n, wrap) {
            Some((tx, ty)) => screen[ty][tx],
            None => false,
        })),
{
    if collides_in_first(screen, x, y, row, wrap, n) {
        let i = choose|i: int|
            0 <= i < n && sprite_bit(row, i) && match #[trigger] landing(x, y, i, wrap) {
                Some((tx, ty)) => screen[ty][tx],
                None => false,
            };
        assert(0 <= i < n + 1 && sprite_bit(row, i) && match landing(x, y, i, wrap) {
            Some((tx, ty)) => screen[ty][tx],
            None => false,
        });
    }
    if sprite_bit(row, n) && (match landing(x, y, n, wrap) {
        Some((tx, ty)) => screen[ty][tx],
        None => false,
    }) {
        assert(0 <= n < n + 1 && sprite_bit(row, n) && match landing(x, y, n, wrap) {
            Some((tx, ty)) => screen[ty][tx],
            None => false,
        });
    }
}

/// Two different bits of one row never land on the same pixel.
pub proof fn lemma_landing_injective(x: int, y: int, i: int, j: int, wrap: bool)
    requires
        0 <= x,
        0 <= i < 8,
        0 <= j < 8,
        i != j,
        landing(x, y, i, wrap) is Some,
    ensures
        landing(x, y, i, wrap) != landing(x, y, j, wrap),
{
}

/// An axis-aligned rectangle on the window, in window pixels.
#[derive(Clone, Copy, Debug, PartialEq, Eq, Structural)]
pub struct Rect {
    pub x: i64,
    pub y: i64,
    pub width: u64,
    pub height: u64,
}

/// How the screen is placed on a window: the side of the square that stands
/// for one pixel, and the window position of the screen's top left corner.
#[derive(Clone, Copy, Debug, PartialEq, Eq, Structural)]
pub struct Layout {
    pub block: u64,
    pub start_x: u64,
    pub start_y: u64,
}

/// What is to be painted on the window for one frame: one square per lit
/// pixel, row by row from the top left, and the outline around the screen.
pub struct Scene {
    pub blocks: Vec<Rect>,
    pub border: Rect,
}

/// The placement that centres the screen on a window of the given size at
/// the largest whole block size that fits.
pub open spec fn layout_for(window_width: u32, window_height: u32) -> Layout {
    let by_width = window_width as int / 64;
    let by_height = window_height as int / 32;
    let block = if by_width <= by_height {
        by_width
    } else {
        by_height
    };
    Layout {
        block: block as u64,
        start_x: ((window_width - 64 * block) / 2) as u64,
        start_y: ((window_height - 32 * block) / 2) as u64,
    }
}

/// The square that stands for the pixel in column `x`, row `y`.
pub open spec fn pixel_rect(layout: Layout, x: int, y: int) -> Rect {
    Rect {
        x: (layout.start_x + x * layout.block) as i64,
        y: (layout.start_y + y * layout.block) as i64,
        width: layout.block,
        height: layout.block,
    }
}

/// The outline one window pixel outside the screen area.
pub open spec fn border_rect(layout: Layout) -> Rect {
    Rect {
        x: (layout.start_x - 1) as i64,
        y: (layout.start_y - 1) as i64,
        width: (64 * layout.block + 2) as u64,
        height: (32 * layout.block + 2) as u64,
    }
}

/// The squares of the lit pixels among the first `count` pixels of the
/// screen, taken row by row.
pub open spec fn lit_rects(screen: Screen, layout: Layout, count: nat) -> Seq<Rect>
    decreases count,
{
    if count == 0 {
        Seq::empty()
    } else {
        let k = count - 1;
        let earlier = lit_rects(screen, layout, k as nat);
        if screen[k / 64][k % 64] {
            earlier.push(pixel_rect(layout, k % 64, k / 64))
        } else {
            earlier
        }
    }
}

/// The screen row that a sprite row drawn at row `y` lands on.
pub open spec fn landing_row(y: int, wrap: bool) -> int {
    if wrap {
        y % 32
    } else {
        y
    }
}

/// A row touches pixels of one screen row only, and only pixels that are
/// on the screen.
pub proof fn lemma_touched_on_screen(x: int, y: int, row: u8, wrap: bool, px: int, py: int)
    requires
        0 <= x,
        0 <= y,
        touched(x, y, row, wrap, px, py),
    ensures
        py == landing_row(y, wrap),
        0 <= px < 64,
        0 <= py < 32,
{
}

/// Drawing a sprite comes to drawing its rows one after the other, each
/// onto what the rows before it left, and the sprite collides exactly if
/// one of these rows does.
pub proof fn lemma_sprite_by_rows(screen: Screen, x: int, y: int, rows: Seq<u8>, wrap: bool)
    requires
        screen_wf(screen),
        0 <= x,
        0 <= y,
        0 < rows.len() <= 32,
    ensures
        sprite_drawn(screen, x, y, rows, wrap) == drawn(
            sprite_drawn(screen, x, y, rows.drop_last(), wrap),
            x,
            y + rows.len() - 1,
            rows.last(),
            wrap,
        ),
        sprite_collides(screen, x, y, rows, wrap) == (sprite_collides(
            screen,
            x,
            y,
            rows.drop_last(),
            wrap,
        ) || collides(
            sprite_drawn(screen, x, y, rows.drop_last(), wrap),
            x,
            y + rows.len() - 1,
            rows.last(),
            wrap,
        )),
{
    let k = rows.len() - 1;
    let earlier = rows.drop_last();
    let before = sprite_drawn(screen, x, y, earlier, wrap);
    assert forall|px: int, py: int|
        sprite_touched(x, y, rows, wrap, px, py) == (sprite_touched(x, y, earlier, wrap, px, py)
            || touched(x, y + k, rows[k], wrap, px, py)) && !(sprite_touched(
            x,
            y,
            earlier,
            wrap,
            px,
            py,
        ) && touched(x, y + k, rows[k], wrap, px, py)) by {
        if sprite_touched(x, y, rows, wrap, px, py) {
            let j = choose|j: int|
                0 <= j < rows.len() && #[trigger] touched(x, y + j, rows[j], wrap, px, py);
            if j < k {
                assert(touched(x, y + j, earlier[j], wrap, px, py));
            }
        }
        if sprite_touched(x, y, earlier, wrap, px, py) {
            let j = choose|j: int|
                0 <= j < earlier.len() && #[trigger] touched(x, y + j, earlier[j], wrap, px, py);
            assert(touched(x, y + j, rows[j], wrap, px, py));
            lemma_touched_on_screen(x, y + j, rows[j], wrap, px, py);
            if touched(x, y + k, rows[k], wrap, px, py) {
                lemma_touched_on_screen(x, y + k, rows[k], wrap, px, py);
            }
        }
        if touched(x, y + k, rows[k], wrap, px, py) {
            assert(sprite_touched(x, y, rows, wrap, px, py));
        }
    }
    assert(sprite_drawn(screen, x, y, rows, wrap) =~~= drawn(before, x, y + k, rows[k], wrap));
    assert forall|i: int| 0 <= i < 8 && sprite_bit(rows[k], i) implies match #[trigger] landing(
        x,
        y + k,
        i,
        wrap,
    ) {
        Some((tx, ty)) => before[ty][tx] == screen[ty][tx],
        None => true,
    } by {
        match landing(x, y + k, i, wrap) {
            Some((tx, ty)) => {
                assert(touched(x, y + k, rows[k], wrap, tx, ty));
                assert(!sprite_touched(x, y, earlier, wrap, tx, ty));
            },
            None => {},
        }
    }
    assert(collides(before, x, y + k, rows[k], wrap) == collides(screen, x, y + k, rows[k], wrap));
    if sprite_collides(screen, x, y, rows, wrap) {
        let j = choose|j: int|
            0 <= j < rows.len() && #[trigger] collides(screen, x, y + j, rows[j], wrap);
        if j < k {
            assert(collides(screen, x, y + j, earlier[j], wrap));
        }
    }
    if sprite_collides(screen, x, y, earlier, wrap) {
        let j = choose|j: int|
            0 <= j < earlier.len() && #[trigger] collides(screen, x, y + j, earlier[j], wrap);
        assert(collides(screen, x, y + j, rows[j], wrap));
    }
}

/// A sprite without rows changes nothing and collides with nothing.
pub proof fn lemma_sprite_without_rows(screen: Screen, x: int, y: int, wrap: bool)
    requires
        screen_wf(screen),
    ensures
        sprite_drawn(screen, x, y, Seq::<u8>::empty(), wrap) == screen,
        !sprite_collides(screen, x, y, Seq::<u8>::empty(), wrap),
{
    assert(sprite_drawn(screen, x, y, Seq::<u8>::empty(), wrap) =~~= screen);
}

/// The framebuffer: 32 rows, each packed into 64 bits.
pub struct Display {
    pixels: [u64; 32],
}

impl View for Display {
    type V = Screen;

    closed spec fn view(&self) -> Screen {
        Seq::new(32, |y: int| Seq::new(64, |x: int| packed_bit(self.pixels[y], x)))
    }
}

impl Display {
    pub const WIDTH: usize = 64;

    pub const HEIGHT: usize = 32;

    /// Colour of a lit pixel, as red, green and blue.
    pub const FOREGROUND_COLOR: (u8, u8, u8) = (60, 163, 214);

    /// Colour of everything else.
    pub const BACKGROUND_COLOR: (u8, u8, u8) = (0, 0, 0);

    /// Every framebuffer has the shape of a screen.
    pub proof fn lemma_view_wf(&self)
        ensures
            screen_wf(self@),
    {
    }

    /// A framebuffer with every pixel off.
    pub fn new() -> (display: Display)
        ensures
            display@ == blank_screen(),
    {
        let display = Display { pixels: [0u64;32] };
        proof {
            assert forall|y: int, x: int| 0 <= y < 32 && 0 <= x < 64 implies !packed_bit(
                display.pixels[y],
                x,
            ) by {
                lemma_zero_row(x as u64);
            }
            assert(display@ =~~= blank_screen());
        }
        display
    }

    /// Turns every pixel off.
    pub fn clear(&mut self)
        ensures
            final(self)@ == blank_screen(),
    {
        let mut i: usize = 0;
        while i < 32
            invariant
                i <= 32,
                forall|y: int| 0 <= y < i ==> self.pixels[y] == 0,
            decreases 32 - i,
        {
            self.pixels[i] = 0;
            i += 1;
        }
        proof {
            assert forall|y: int, x: int| 0 <= y < 32 && 0 <= x < 64 implies !packed_bit(
                self.pixels[y],
                x,
            ) by {
                lemma_zero_row(x as u64);
            }
            assert(self@ =~~= blank_screen());
        }
    }

    /// XORs one 8-pixel row onto the screen at column `x`, row `y`, most
    /// significant bit leftmost, and reports whether a lit pixel was turned
    /// off. With `wrap` the coordinates of each pixel are reduced modulo the
    /// screen size; without it, pixels beyond the right or bottom edge are
    /// dropped.
    pub fn draw(&mut self, x: u8, y: u8, sprite: u8, wrap: bool) -> (collision: bool)
        ensures
            final(self)@ == drawn(old(self)@, x as int, y as int, sprite, wrap),
            collision == collides(old(self)@, x as int, y as int, sprite, wrap),
    {
        let mut collision = false;
        let mut i: u8 = 0;
        while i < 8
            invariant
                i <= 8,
                forall|py: int, px: int|
                    0 <= py < 32 && 0 <= px < 64 ==> self@[py][px] == (old(self)@[py][px]
                        != touched_by_first(x as int, y as int, sprite, wrap, i as int, px, py)),
                collision == collides_in_first(old(self)@, x as int, y as int, sprite, wrap, i as int),
            decreases 8 - i,
        {
            let ghost before = *self;
            let mut dx: usize = x as usize + i as usize;
            let mut dy: usize = y as usize;
            if wrap {
                dx = dx % Display::WIDTH;
                dy = dy % Display::HEIGHT;
            }
            let lands = dx < Display::WIDTH && dy < Display::HEIGHT;
            proof {
                lemma_collides_step(old(self)@, x as int, y as int, sprite, wrap, i as int);
                assert(lands ==> landing(x as int, y as int, i as int, wrap) == Some(
                    (dx as int, dy as int),
                ));
                assert(!lands ==> landing(x as int, y as int, i as int, wrap) is None);
            }
            if (sprite >> (7 - i)) & 1 == 1 && lands {
                if self.is_pixel_on(dx, dy) {
                    collision = true;
                }
                self.pixels[dy] ^= 1u64 << ((63 - dx) as u64);
                proof {
                    assert forall|py: int, px: int| 0 <= py < 32 && 0 <= px < 64 implies self@[py][px]
                        == (before@[py][px] != (px == dx && py == dy)) by {
                        if py == dy {
                            lemma_flip_packed_bit(before.pixels[py], dx as u64, px as u64);
                        }
                    }
                    assert(!touched_by_first(
                        x as int,
                        y as int,
                        sprite,
                        wrap,
                        i as int,
                        dx as int,
                        dy as int,
                    )) by {
                        assert forall|j: int| 0 <= j < i implies #[trigger] landing(
                            x as int,
                            y as int,
                            j,
                            wrap,
                        ) != Some((dx as int, dy as int)) by {
                            lemma_landing_injective(x as int, y as int, i as int, j, wrap);
                        }
                    }
                }
            }
            proof {
                assert forall|py: int, px: int| 0 <= py < 32 && 0 <= px < 64 implies self@[py][px]
                    == (old(self)@[py][px] != touched_by_first(
                    x as int,
                    y as int,
                    sprite,
                    wrap,
                    i + 1,
                    px,
                    py,
                )) by {
                    lemma_touched_step(x as int, y as int, sprite, wrap, i as int, px, py);
                    assert(before@[py][px] == (old(self)@[py][px] != touched_by_first(
                        x as int,
                        y as int,
                        sprite,
                        wrap,
                        i as int,
                        px,
                        py,
                    )));
                }
            }
            i += 1;
        }
        proof {
            assert(self@ =~~= drawn(old(self)@, x as int, y as int, sprite, wrap));
        }
        collision
    }

    /// Places the screen on a window of the given size.
    pub fn layout(window_width: u32, window_height: u32) -> (layout: Layout)
        ensures
            layout == layout_for(window_width, window_height),
    {
        let by_width: u64 = window_width as u64 / 64;
        let by_height: u64 = window_height as u64 / 32;
        let block: u64 = if by_width <= by_height {
            by_width
        } else {
            by_height
        };
        Layout {
            block,
            start_x: (window_width as u64 - 64 * block) / 2,
            start_y: (window_height as u64 - 32 * block) / 2,
        }
    }

    /// Lays the current picture out for a window of the given size.
    pub fn render(&self, window_width: u32, window_height: u32) -> (scene: Scene)
        ensures
            scene.blocks@ == lit_rects(self@, layout_for(window_width, window_height), 2048),
            scene.border == border_rect(layout_for(window_width, window_height)),
    {
        let layout = Display::layout(window_width, window_height);
        let mut blocks: Vec<Rect> = Vec::new();
        let mut y: usize = 0;
        while y < Display::HEIGHT
            invariant
                y <= 32,
                layout == layout_for(window_width, window_height),
                blocks@ == lit_rects(self@, layout, (64 * y) as nat),
            decreases 32 - y,
        {
            let mut x: usize = 0;
            while x < Display::WIDTH
                invariant
                    y < 32,
                    x <= 64,
                    layout == layout_for(window_width, window_height),
                    blocks@ == lit_rects(self@, layout, (64 * y + x) as nat),
                decreases 64 - x,
            {
                assert((64 * y + x) / 64 == y && (64 * y + x) % 64 == x);
                assert(x * layout.block <= 63 * layout.block) by (nonlinear_arith)
                    requires
                        x <= 63,
                ;
                assert(y * layout.block <= 31 * layout.block) by (nonlinear_arith)
                    requires
                        y <= 31,
                ;
                if self.is_pixel_on(x, y) {
                    blocks.push(
                        Rect {
                            x: (layout.start_x + x as u64 * layout.block) as i64,
                            y: (layout.start_y + y as u64 * layout.block) as i64,
                            width: layout.block,
                            height: layout.block,
                        },
                    );
                }
                x += 1;
            }
            y += 1;
        }
        let border = Rect {
            x: layout.start_x as i64 - 1,
            y: layout.start_y as i64 - 1,
            width: 64 * layout.block + 2,
            height: 32 * layout.block + 2,
        };
        Scene { blocks, border }
    }

    /// Whether the pixel in column `x`, row `y` is lit.
    pub fn is_pixel_on(&self, x: usize, y: usize) -> (on: bool)
        requires
            x < 64,
            y < 32,
        ensures
            on == self@[y as int][x as int],
    {
        (self.pixels[y] >> ((63 - x) as u64)) & 1 == 1
    }
}

} // verus!
