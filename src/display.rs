//! The 64x32 monochrome framebuffer, packed eight pixels to a byte.

use vstd::prelude::*;

verus! {

/// Width of the screen in pixels.
pub const WINDOW_WIDTH: usize = 64;

/// Height of the screen in pixels.
pub const WINDOW_HEIGHT: usize = 32;

/// Bytes per row of pixels.
pub const ROW_BYTES: usize = 8;

/// Bytes in the framebuffer.
pub const FRAMEBUFFER_BYTES: usize = 256;

/// The most rows a sprite can have.
pub const MAX_SPRITE_ROWS: usize = 15;

/// Bit `i` of `b`, counting from the most significant bit: the `i`-th pixel
/// from the left of a byte of pixels.
pub open spec fn bit_of(b: u8, i: u8) -> bool {
    b & (0x80u8 >> i) != 0
}

/// The pixel at column `x`, row `y` of a packed framebuffer.
pub open spec fn pixel(vram: Seq<u8>, x: int, y: int) -> bool {
    bit_of(vram[y * ROW_BYTES + x / 8], (x % 8) as u8)
}

/// Whether the sprite drawn with its top-left corner at (`x`, `y`), both
/// wrapped onto the screen, has a set bit that lands on pixel (`px`, `py`).
/// Columns and rows wrap around the edges of the screen.
pub open spec fn sprite_pixel(sprite: Seq<u8>, x: int, y: int, px: int, py: int) -> bool {
    let c = (px - x % WINDOW_WIDTH as int) % WINDOW_WIDTH as int;
    let r = (py - y % WINDOW_HEIGHT as int) % WINDOW_HEIGHT as int;
    c < 8 && r < sprite.len() && bit_of(sprite[r], c as u8)
}

/// Whether drawing the sprite at (`x`, `y`) turns off a pixel that was on:
/// some set bit of the sprite lands on a pixel that is set in `vram`.
pub open spec fn collides(vram: Seq<u8>, sprite: Seq<u8>, x: int, y: int) -> bool {
    exists|px: int, py: int|
        0 <= px < WINDOW_WIDTH && 0 <= py < WINDOW_HEIGHT && #[trigger] pixel(vram, px, py)
            && sprite_pixel(sprite, x, y, px, py)
}

/// The framebuffer after drawing: each pixel flipped where the sprite has a
/// set bit.
pub open spec fn drawn(
    old_vram: Seq<u8>,
    new_vram: Seq<u8>,
    sprite: Seq<u8>,
    x: int,
    y: int,
) -> bool {
    forall|px: int, py: int|
        0 <= px < WINDOW_WIDTH && 0 <= py < WINDOW_HEIGHT ==> #[trigger] pixel(new_vram, px, py)
            == (pixel(old_vram, px, py) != sprite_pixel(sprite, x, y, px, py))
}

/// Every pixel off.
pub open spec fn blank(vram: Seq<u8>) -> bool {
    forall|k: int| 0 <= k < FRAMEBUFFER_BYTES ==> #[trigger] vram[k] == 0
}

proof fn lemma_flip_bit(b: u8, i: u8, j: u8)
    requires
        i < 8,
        j < 8,
    ensures
        bit_of(b ^ (0x80u8 >> i), j) == (bit_of(b, j) != (i == j)),
{
    assert((b ^ (0x80u8 >> i)) & (0x80u8 >> j) != 0 <==> ((b & (0x80u8 >> j) != 0) != (i == j)))
        by (bit_vector)
        requires
            i < 8,
            j < 8,
    ;
}

proof fn lemma_zero_bits(i: u8)
    ensures
        !bit_of(0u8, i),
{
    assert(0u8 & (0x80u8 >> i) == 0) by (bit_vector);
}

/// Pixels at distinct coordinates sit at distinct bits of the framebuffer.
proof fn lemma_cell(px: int, py: int, qx: int, qy: int)
    requires
        0 <= px < WINDOW_WIDTH,
        0 <= qx < WINDOW_WIDTH,
        0 <= py < WINDOW_HEIGHT,
        0 <= qy < WINDOW_HEIGHT,
    ensures
        (py * 8 + px / 8 == qy * 8 + qx / 8 && px % 8 == qx % 8) <==> (px == qx && py == qy),
        0 <= py * 8 + px / 8 < FRAMEBUFFER_BYTES,
{
    assert(px == 8 * (px / 8) + px % 8);
    assert(qx == 8 * (qx / 8) + qx % 8);
}

/// Column `k` of a sprite placed at column `o` lands on screen column `p`
/// exactly when `p` is `o + k` wrapped.
proof fn lemma_rel(p: int, o: int, k: int, m: int)
    requires
        0 <= p < m,
        0 <= o < m,
        0 <= k < m,
    ensures
        ((p - o) % m == k) <==> (p == (o + k) % m),
        0 <= (p - o) % m < m,
{
    if p >= o {
        assert((p - o) % m == p - o) by {
            vstd::arithmetic::div_mod::lemma_small_mod((p - o) as nat, m as nat);
        }
    } else {
        assert((p - o) % m == p - o + m) by {
            vstd::arithmetic::div_mod::lemma_mod_add_multiples_vanish(p - o, m);
            vstd::arithmetic::div_mod::lemma_small_mod((p - o + m) as nat, m as nat);
        }
    }
    if o + k < m {
        vstd::arithmetic::div_mod::lemma_small_mod((o + k) as nat, m as nat);
    } else {
        vstd::arithmetic::div_mod::lemma_mod_sub_multiples_vanish(o + k, m);
        vstd::arithmetic::div_mod::lemma_small_mod((o + k - m) as nat, m as nat);
    }
}

/// Flipping one bit of the framebuffer flips exactly one pixel.
proof fn lemma_xor_pixel(before: Seq<u8>, after: Seq<u8>, qx: int, qy: int)
    requires
        before.len() == FRAMEBUFFER_BYTES,
        0 <= qx < WINDOW_WIDTH,
        0 <= qy < WINDOW_HEIGHT,
        after == before.update(
            qy * ROW_BYTES + qx / 8,
            before[qy * ROW_BYTES + qx / 8] ^ (0x80u8 >> ((qx % 8) as u8)),
        ),
    ensures
        forall|px: int, py: int|
            0 <= px < WINDOW_WIDTH && 0 <= py < WINDOW_HEIGHT ==> #[trigger] pixel(after, px, py)
                == (pixel(before, px, py) != (px == qx && py == qy)),
{
    lemma_cell(qx, qy, qx, qy);
    assert forall|px: int, py: int|
        0 <= px < WINDOW_WIDTH && 0 <= py < WINDOW_HEIGHT implies #[trigger] pixel(after, px, py)
            == (pixel(before, px, py) != (px == qx && py == qy)) by {
        lemma_cell(px, py, qx, qy);
        if py * 8 + px / 8 == qy * 8 + qx / 8 {
            lemma_flip_bit(before[qy * 8 + qx / 8], (qx % 8) as u8, (px % 8) as u8);
        }
    }
}

/// The pixel under the next sprite bit has not been touched yet.
proof fn lemma_draw_step_target(
    old_vram: Seq<u8>,
    cur: Seq<u8>,
    sprite: Seq<u8>,
    x: u8,
    y: u8,
    row: int,
    bit: int,
)
    requires
        0 <= row < sprite.len() <= MAX_SPRITE_ROWS,
        0 <= bit < 8,
        drawn_upto(old_vram, cur, sprite, x as int, y as int, row, bit),
    ensures
        pixel(cur, (x % 64 + bit) % 64, (y % 32 + row) % 32) == pixel(
            old_vram,
            (x % 64 + bit) % 64,
            (y % 32 + row) % 32,
        ),
{
    let xx = (x % 64 + bit) % 64;
    let yy = (y % 32 + row) % 32;
    lemma_rel(xx, x as int % 64, bit, 64);
    lemma_rel(yy, y as int % 32, row, 32);
    assert(pixel(cur, xx, yy) == (pixel(old_vram, xx, yy) != (sprite_pixel(
        sprite,
        x as int,
        y as int,
        xx,
        yy,
    ) && visited(x as int, y as int, row, bit, xx, yy))));
}

/// Drawing the bit at row `row`, column `bit` extends what is done by one.
proof fn lemma_draw_step(
    old_vram: Seq<u8>,
    before: Seq<u8>,
    after: Seq<u8>,
    sprite: Seq<u8>,
    x: u8,
    y: u8,
    row: int,
    bit: int,
)
    requires
        0 <= row < sprite.len() <= MAX_SPRITE_ROWS,
        0 <= bit < 8,
        drawn_upto(old_vram, before, sprite, x as int, y as int, row, bit),
        forall|px: int, py: int|
            0 <= px < WINDOW_WIDTH && 0 <= py < WINDOW_HEIGHT ==> #[trigger] pixel(after, px, py)
                == (pixel(before, px, py) != (bit_of(sprite[row], bit as u8) && px == (x % 64
                + bit) % 64 && py == (y % 32 + row) % 32)),
    ensures
        drawn_upto(old_vram, after, sprite, x as int, y as int, row, bit + 1),
        collides_upto(old_vram, sprite, x as int, y as int, row, bit + 1) == (collides_upto(
            old_vram,
            sprite,
            x as int,
            y as int,
            row,
            bit,
        ) || (bit_of(sprite[row], bit as u8) && pixel(
            old_vram,
            (x % 64 + bit) % 64,
            (y % 32 + row) % 32,
        ))),
{
    let xx = (x % 64 + bit) % 64;
    let yy = (y % 32 + row) % 32;
    assert(0 <= xx < 64 && 0 <= yy < 32);
    assert forall|px: int, py: int| 0 <= px < WINDOW_WIDTH && 0 <= py < WINDOW_HEIGHT implies
        #[trigger] visited(x as int, y as int, row, bit + 1, px, py) == (visited(
            x as int,
            y as int,
            row,
            bit,
            px,
            py,
        ) || (px == xx && py == yy)) && ((px == xx && py == yy) ==> (sprite_pixel(
            sprite,
            x as int,
            y as int,
            px,
            py,
        ) == bit_of(sprite[row], bit as u8) && !visited(x as int, y as int, row, bit, px, py)))
        by {
        lemma_rel(px, x as int % 64, bit, 64);
        lemma_rel(py, y as int % 32, row, 32);
    }
    assert forall|px: int, py: int|
        0 <= px < WINDOW_WIDTH && 0 <= py < WINDOW_HEIGHT implies #[trigger] pixel(after, px, py)
            == (pixel(old_vram, px, py) != (sprite_pixel(sprite, x as int, y as int, px, py)
            && visited(x as int, y as int, row, bit + 1, px, py))) by {
        assert(visited(x as int, y as int, row, bit + 1, px, py) == (visited(
            x as int,
            y as int,
            row,
            bit,
            px,
            py,
        ) || (px == xx && py == yy)));
        assert(pixel(before, px, py) == (pixel(old_vram, px, py) != (sprite_pixel(
            sprite,
            x as int,
            y as int,
            px,
            py,
        ) && visited(x as int, y as int, row, bit, px, py))));
    }
    let hit = bit_of(sprite[row], bit as u8) && pixel(old_vram, xx, yy);
    if hit {
        assert(visited(x as int, y as int, row, bit + 1, xx, yy));
        assert(pixel(old_vram, xx, yy) && sprite_pixel(sprite, x as int, y as int, xx, yy));
    }
    if collides_upto(old_vram, sprite, x as int, y as int, row, bit) {
        let (px, py) = choose|px: int, py: int|
            0 <= px < WINDOW_WIDTH && 0 <= py < WINDOW_HEIGHT && #[trigger] pixel(old_vram, px, py)
                && sprite_pixel(sprite, x as int, y as int, px, py) && visited(
                x as int,
                y as int,
                row,
                bit,
                px,
                py,
            );
        assert(visited(x as int, y as int, row, bit + 1, px, py));
    }
    if collides_upto(old_vram, sprite, x as int, y as int, row, bit + 1) {
        let (px, py) = choose|px: int, py: int|
            0 <= px < WINDOW_WIDTH && 0 <= py < WINDOW_HEIGHT && #[trigger] pixel(old_vram, px, py)
                && sprite_pixel(sprite, x as int, y as int, px, py) && visited(
                x as int,
                y as int,
                row,
                bit + 1,
                px,
                py,
            );
        assert(visited(x as int, y as int, row, bit, px, py) || (px == xx && py == yy));
    }
}

/// Finishing a row is starting the next one.
proof fn lemma_next_row(old_vram: Seq<u8>, cur: Seq<u8>, sprite: Seq<u8>, x: u8, y: u8, row: int)
    requires
        0 <= row < sprite.len() <= MAX_SPRITE_ROWS,
        drawn_upto(old_vram, cur, sprite, x as int, y as int, row, 8),
    ensures
        drawn_upto(old_vram, cur, sprite, x as int, y as int, row + 1, 0),
        collides_upto(old_vram, sprite, x as int, y as int, row + 1, 0) == collides_upto(
            old_vram,
            sprite,
            x as int,
            y as int,
            row,
            8,
        ),
{
    assert forall|px: int, py: int|
        0 <= px < WINDOW_WIDTH && 0 <= py < WINDOW_HEIGHT && sprite_pixel(
            sprite,
            x as int,
            y as int,
            px,
            py,
        ) implies #[trigger] visited(x as int, y as int, row + 1, 0, px, py) == visited(
        x as int,
        y as int,
        row,
        8,
        px,
        py,
    ) by {
        lemma_rel(px, x as int % 64, 0, 64);
        lemma_rel(py, y as int % 32, 0, 32);
    }
    assert forall|px: int, py: int|
        0 <= px < WINDOW_WIDTH && 0 <= py < WINDOW_HEIGHT implies #[trigger] pixel(cur, px, py)
            == (pixel(old_vram, px, py) != (sprite_pixel(sprite, x as int, y as int, px, py)
            && visited(x as int, y as int, row + 1, 0, px, py))) by {
        assert(sprite_pixel(sprite, x as int, y as int, px, py) ==> (visited(
            x as int,
            y as int,
            row + 1,
            0,
            px,
            py,
        ) == visited(x as int, y as int, row, 8, px, py)));
    }
    if collides_upto(old_vram, sprite, x as int, y as int, row, 8) {
        let (px, py) = choose|px: int, py: int|
            0 <= px < WINDOW_WIDTH && 0 <= py < WINDOW_HEIGHT && #[trigger] pixel(old_vram, px, py)
                && sprite_pixel(sprite, x as int, y as int, px, py) && visited(
                x as int,
                y as int,
                row,
                8,
                px,
                py,
            );
        assert(visited(x as int, y as int, row + 1, 0, px, py));
    }
    if collides_upto(old_vram, sprite, x as int, y as int, row + 1, 0) {
        let (px, py) = choose|px: int, py: int|
            0 <= px < WINDOW_WIDTH && 0 <= py < WINDOW_HEIGHT && #[trigger] pixel(old_vram, px, py)
                && sprite_pixel(sprite, x as int, y as int, px, py) && visited(
                x as int,
                y as int,
                row + 1,
                0,
                px,
                py,
            );
        assert(visited(x as int, y as int, row, 8, px, py));
    }
}

/// Once every row is done, the whole sprite is drawn.
proof fn lemma_draw_done(old_vram: Seq<u8>, cur: Seq<u8>, sprite: Seq<u8>, x: u8, y: u8)
    requires
        sprite.len() <= MAX_SPRITE_ROWS,
        drawn_upto(old_vram, cur, sprite, x as int, y as int, sprite.len() as int, 0),
    ensures
        drawn(old_vram, cur, sprite, x as int, y as int),
        collides_upto(old_vram, sprite, x as int, y as int, sprite.len() as int, 0) == collides(
            old_vram,
            sprite,
            x as int,
            y as int,
        ),
{
    assert forall|px: int, py: int|
        0 <= px < WINDOW_WIDTH && 0 <= py < WINDOW_HEIGHT implies #[trigger] pixel(cur, px, py)
            == (pixel(old_vram, px, py) != sprite_pixel(sprite, x as int, y as int, px, py)) by {
        assert(sprite_pixel(sprite, x as int, y as int, px, py) ==> visited(
            x as int,
            y as int,
            sprite.len() as int,
            0,
            px,
            py,
        ));
    }
    if collides(old_vram, sprite, x as int, y as int) {
        let (px, py) = choose|px: int, py: int|
            0 <= px < WINDOW_WIDTH && 0 <= py < WINDOW_HEIGHT && #[trigger] pixel(old_vram, px, py)
                && sprite_pixel(sprite, x as int, y as int, px, py);
        assert(visited(x as int, y as int, sprite.len() as int, 0, px, py));
    }
}

/// Whether some bit of the sprite is set.
pub open spec fn has_set_bit(sprite: Seq<u8>) -> bool {
    exists|r: int, c: u8| 0 <= r < sprite.len() && c < 8 && #[trigger] bit_of(sprite[r], c)
}

/// Drawing the same sprite twice at the same place gives back the screen
/// that was there before.
pub proof fn lemma_draw_twice_restores(
    v0: Seq<u8>,
    v1: Seq<u8>,
    v2: Seq<u8>,
    sprite: Seq<u8>,
    x: int,
    y: int,
)
    requires
        drawn(v0, v1, sprite, x, y),
        drawn(v1, v2, sprite, x, y),
    ensures
        forall|px: int, py: int|
            0 <= px < WINDOW_WIDTH && 0 <= py < WINDOW_HEIGHT ==> #[trigger] pixel(v2, px, py)
                == pixel(v0, px, py),
{
    assert forall|px: int, py: int|
        0 <= px < WINDOW_WIDTH && 0 <= py < WINDOW_HEIGHT implies #[trigger] pixel(v2, px, py)
            == pixel(v0, px, py) by {
        assert(pixel(v1, px, py) == (pixel(v0, px, py) != sprite_pixel(sprite, x, y, px, py)));
        assert(pixel(v2, px, py) == (pixel(v1, px, py) != sprite_pixel(sprite, x, y, px, py)));
    }
}

/// Drawing onto a blank screen never reports a collision.
pub proof fn lemma_blank_never_collides(v0: Seq<u8>, sprite: Seq<u8>, x: int, y: int)
    requires
        v0.len() == FRAMEBUFFER_BYTES,
        blank(v0),
    ensures
        !collides(v0, sprite, x, y),
{
    assert forall|px: int, py: int|
        0 <= px < WINDOW_WIDTH && 0 <= py < WINDOW_HEIGHT implies !#[trigger] pixel(v0, px, py) by {
        lemma_cell(px, py, px, py);
        lemma_zero_bits((px % 8) as u8);
    }
}

/// Drawing onto a blank screen, then drawing the same sprite again at the
/// same place, reports a collision the second time whenever the sprite has
/// a set bit.
pub proof fn lemma_redraw_collides(v0: Seq<u8>, v1: Seq<u8>, sprite: Seq<u8>, x: u8, y: u8)
    requires
        v0.len() == FRAMEBUFFER_BYTES,
        blank(v0),
        sprite.len() <= MAX_SPRITE_ROWS,
        has_set_bit(sprite),
        drawn(v0, v1, sprite, x as int, y as int),
    ensures
        collides(v1, sprite, x as int, y as int),
{
    let (r, c) = choose|r: int, c: u8|
        0 <= r < sprite.len() && c < 8 && #[trigger] bit_of(sprite[r], c);
    let px = (x as int % 64 + c) % 64;
    let py = (y as int % 32 + r) % 32;
    lemma_rel(px, x as int % 64, c as int, 64);
    lemma_rel(py, y as int % 32, r, 32);
    assert(sprite_pixel(sprite, x as int, y as int, px, py));
    lemma_cell(px, py, px, py);
    lemma_zero_bits((px % 8) as u8);
    assert(!pixel(v0, px, py));
    assert(pixel(v1, px, py));
}

/// The screen, and whether it changed since it was last shown.
pub struct Display {
    pub vram: [u8; 256],
    pub is_dirty: bool,
}

impl Display {
    /// A blank screen, marked dirty so that it is shown once.
    pub fn new() -> (d: Display)
        ensures
            blank(d.vram@),
            d.is_dirty,
    {
        Display { vram: [0u8; 256], is_dirty: true }
    }

    /// Clears the screen and marks it dirty.
    pub fn reset(&mut self)
        ensures
            blank(final(self).vram@),
            final(self).is_dirty,
    {
        self.vram = [0u8; 256];
        self.is_dirty = true;
    }

    /// Whether pixel (`x`, `y`) is on.
    pub fn get_pixel(&self, x: usize, y: usize) -> (r: bool)
        requires
            x < WINDOW_WIDTH,
            y < WINDOW_HEIGHT,
        ensures
            r == pixel(self.vram@, x as int, y as int),
    {
        proof {
            lemma_cell(x as int, y as int, x as int, y as int);
        }
        self.vram[y * ROW_BYTES + x / 8] & (0x80u8 >> ((x % 8) as u8)) != 0
    }

    /// Returns whether the screen changed since the last call, and clears
    /// the flag.
    pub fn take_dirty(&mut self) -> (r: bool)
        ensures
            r == old(self).is_dirty,
            !final(self).is_dirty,
            final(self).vram == old(self).vram,
    {
        let r = self.is_dirty;
        self.is_dirty = false;
        r
    }

    /// The frame to show, when the screen changed since it was last shown;
    /// the flag is cleared.
    pub fn update(&mut self) -> (r: Option<[u8; 256]>)
        ensures
            old(self).is_dirty ==> r == Some(old(self).vram),
            !old(self).is_dirty ==> r is None,
            !final(self).is_dirty,
            final(self).vram == old(self).vram,
    {
        if self.take_dirty() {
            Some(self.vram)
        } else {
            None
        }
    }

    /// XORs `sprite` onto the screen, one byte per row and the most
    /// significant bit leftmost, with its top-left corner at (`x` mod 64,
    /// `y` mod 32) and wrapping at the edges. Returns whether a pixel that
    /// was on was turned off. Marks the screen dirty.
    pub fn draw(&mut self, x: u8, y: u8, sprite: &[u8]) -> (collision: bool)
        requires
            sprite@.len() <= MAX_SPRITE_ROWS,
        ensures
            drawn(old(self).vram@, final(self).vram@, sprite@, x as int, y as int),
            collision == collides(old(self).vram@, sprite@, x as int, y as int),
            final(self).is_dirty,
    {
        let x0: usize = (x as usize) % WINDOW_WIDTH;
        let y0: usize = (y as usize) % WINDOW_HEIGHT;
        let ghost old_vram = self.vram@;
        let mut collision = false;
        let mut row: usize = 0;
        while row < sprite.len()
            invariant
                sprite@.len() <= MAX_SPRITE_ROWS,
                row <= sprite@.len(),
                x0 == x as int % WINDOW_WIDTH as int,
                y0 == y as int % WINDOW_HEIGHT as int,
                self.vram@.len() == FRAMEBUFFER_BYTES,
                drawn_upto(old_vram, self.vram@, sprite@, x as int, y as int, row as int, 0),
                collision == collides_upto(old_vram, sprite@, x as int, y as int, row as int, 0),
            decreases sprite@.len() - row,
        {
            let yy: usize = (y0 + row) % WINDOW_HEIGHT;
            let byte = sprite[row];
            let mut bit: usize = 0;
            while bit < 8
                invariant
                    sprite@.len() <= MAX_SPRITE_ROWS,
                    row < sprite@.len(),
                    bit <= 8,
                    byte == sprite@[row as int],
                    x0 == x as int % WINDOW_WIDTH as int,
                    y0 == y as int % WINDOW_HEIGHT as int,
                    yy == (y0 + row) % WINDOW_HEIGHT as int,
                    self.vram@.len() == FRAMEBUFFER_BYTES,
                    drawn_upto(
                        old_vram,
                        self.vram@,
                        sprite@,
                        x as int,
                        y as int,
                        row as int,
                        bit as int,
                    ),
                    collision == collides_upto(
                        old_vram,
                        sprite@,
                        x as int,
                        y as int,
                        row as int,
                        bit as int,
                    ),
                decreases 8 - bit,
            {
                let xx: usize = (x0 + bit) % WINDOW_WIDTH;
                if byte & (0x80u8 >> (bit as u8)) != 0 {
                    let idx: usize = yy * ROW_BYTES + xx / 8;
                    let mask: u8 = 0x80u8 >> ((xx % 8) as u8);
                    proof {
                        lemma_cell(xx as int, yy as int, xx as int, yy as int);
                        lemma_draw_step_target(
                            old_vram,
                            self.vram@,
                            sprite@,
                            x,
                            y,
                            row as int,
                            bit as int,
                        );
                    }
                    let was_on = self.vram[idx] & mask != 0;
                    if was_on {
                        collision = true;
                    }
                    let ghost before = self.vram@;
                    self.vram[idx] = self.vram[idx] ^ mask;
                    proof {
                        lemma_xor_pixel(before, self.vram@, xx as int, yy as int);
                        lemma_draw_step(
                            old_vram,
                            before,
                            self.vram@,
                            sprite@,
                            x,
                            y,
                            row as int,
                            bit as int,
                        );
                    }
                } else {
                    proof {
                        lemma_draw_step(
                            old_vram,
                            self.vram@,
                            self.vram@,
                            sprite@,
                            x,
                            y,
                            row as int,
                            bit as int,
                        );
                    }
                }
                bit = bit + 1;
            }
            proof {
                lemma_next_row(old_vram, self.vram@, sprite@, x, y, row as int);
            }
            row = row + 1;
        }
        proof {
            lemma_draw_done(old_vram, self.vram@, sprite@, x, y);
        }
        self.is_dirty = true;
        collision
    }
}

/// Whether the pixel (`px`, `py`) lies under a sprite bit already drawn,
/// when the rows before `row`, and the first `bit` columns of row `row`, are
/// done.
pub open spec fn visited(x: int, y: int, row: int, bit: int, px: int, py: int) -> bool {
    let c = (px - x % WINDOW_WIDTH as int) % WINDOW_WIDTH as int;
    let r = (py - y % WINDOW_HEIGHT as int) % WINDOW_HEIGHT as int;
    r < row || (r == row && c < bit)
}

/// `drawn`, for the part of the sprite that is already done.
pub open spec fn drawn_upto(
    old_vram: Seq<u8>,
    new_vram: Seq<u8>,
    sprite: Seq<u8>,
    x: int,
    y: int,
    row: int,
    bit: int,
) -> bool {
    forall|px: int, py: int|
        0 <= px < WINDOW_WIDTH && 0 <= py < WINDOW_HEIGHT ==> #[trigger] pixel(new_vram, px, py)
            == (pixel(old_vram, px, py) != (sprite_pixel(sprite, x, y, px, py) && visited(
            x,
            y,
            row,
            bit,
            px,
            py,
        )))
}

/// `collides`, for the part of the sprite that is already done.
pub open spec fn collides_upto(
    vram: Seq<u8>,
    sprite: Seq<u8>,
    x: int,
    y: int,
    row: int,
    bit: int,
) -> bool {
    exists|px: int, py: int|
        0 <= px < WINDOW_WIDTH && 0 <= py < WINDOW_HEIGHT && #[trigger] pixel(vram, px, py)
            && sprite_pixel(sprite, x, y, px, py) && visited(x, y, row, bit, px, py)
}

} // verus!
