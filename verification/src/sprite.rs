//! DXYN: drawing sprites by flipping pixels.
use vstd::prelude::*;
use crate::cpu::CPU;
use crate::machine::{Machine, bit_set, FLAG, MEMORY_SIZE, NUM_REGS, SCREEN_HEIGHT, SCREEN_WIDTH};

verus! {

broadcast use vstd::array::group_array_axioms;

/// Whether bit `bit` (0 is the least significant) of `byte` is one.
pub fn is_bit_set(byte: u8, bit: u8) -> (r: bool)
    requires
        bit < 8,
    ensures
        r == bit_set(byte, bit),
{
    let shifted: u8 = byte >> bit;
    assert(1 & shifted == shifted & 1u8) by (bit_vector);
    return 1 & shifted == 1;
}

impl Machine {
    /// Position of pixel `(r, c)` in the row-major walk over the sprite's box of 8 columns.
    pub open spec fn sprite_order(self, xr: int, yr: int, r: int, c: int) -> int {
        let v0 = self.v.update(FLAG as int, 0u8);
        (r - v0[yr]) * 8 + (c - v0[xr])
    }

    /// The sprite covers `(r, c)` and the walk has passed it after `k` positions.
    pub open spec fn covers_before(self, xr: int, yr: int, height: u8, k: int, r: int, c: int) -> bool {
        self.sprite_covers(xr, yr, height, r, c) && self.sprite_order(xr, yr, r, c) < k
    }

    /// Some lit pixel among the first `k` positions of the walk is covered.
    pub open spec fn collides_before(self, xr: int, yr: int, height: u8, k: int) -> bool {
        exists|r: int, c: int|
            0 <= r < SCREEN_HEIGHT && 0 <= c < SCREEN_WIDTH && #[trigger] self.covers_before(
                xr,
                yr,
                height,
                k,
                r,
                c,
            ) && self.screen[r][c] == 0xff
    }

    /// The walk's first `8 * height` positions cover the whole sprite.
    pub proof fn lemma_walk_complete(self, xr: int, yr: int, height: u8)
        requires
            0 <= xr < NUM_REGS,
            0 <= yr < NUM_REGS,
            self.wf(),
        ensures
            forall|r: int, c: int|
                #[trigger] self.covers_before(xr, yr, height, 8 * height, r, c)
                    == self.sprite_covers(xr, yr, height, r, c),
            self.collides_before(xr, yr, height, 8 * height) == self.sprite_collides(
                xr,
                yr,
                height,
            ),
    {
        assert forall|r: int, c: int|
            #[trigger] self.covers_before(xr, yr, height, 8 * height, r, c)
                == self.sprite_covers(xr, yr, height, r, c) by {
            if self.sprite_covers(xr, yr, height, r, c) {
                let v0 = self.v.update(FLAG as int, 0u8);
                assert(r - v0[yr] <= height - 1);
                assert((r - v0[yr]) * 8 <= (height - 1) * 8) by (nonlinear_arith)
                    requires
                        r - v0[yr] <= height - 1,
                ;
            }
        }
        if self.collides_before(xr, yr, height, 8 * height) {
            let (r, c) = choose|r: int, c: int|
                0 <= r < SCREEN_HEIGHT && 0 <= c < SCREEN_WIDTH && #[trigger] self.covers_before(
                    xr,
                    yr,
                    height,
                    8 * height,
                    r,
                    c,
                ) && self.screen[r][c] == 0xff;
            assert(self.sprite_covers(xr, yr, height, r, c));
        }
        if self.sprite_collides(xr, yr, height) {
            let (r, c) = choose|r: int, c: int|
                0 <= r < SCREEN_HEIGHT && 0 <= c < SCREEN_WIDTH && #[trigger] self.sprite_covers(
                    xr,
                    yr,
                    height,
                    r,
                    c,
                ) && self.screen[r][c] == 0xff;
            assert(self.covers_before(xr, yr, height, 8 * height, r, c));
        }
    }

    /// One more position of the walk: row `y`, column `x` of the sprite's box.
    pub proof fn lemma_walk_step(self, xr: int, yr: int, height: u8, y: int, x: int)
        requires
            0 <= xr < NUM_REGS,
            0 <= yr < NUM_REGS,
            0 <= y,
            0 <= x < 8,
            self.wf(),
        ensures
            ({
                let v0 = self.v.update(FLAG as int, 0u8);
                let r0 = v0[yr] + y;
                let c0 = v0[xr] + x;
                &&& forall|r: int, c: int|
                    #[trigger] self.covers_before(xr, yr, height, 8 * y + x + 1, r, c) == (
                    self.covers_before(xr, yr, height, 8 * y + x, r, c) || (r == r0 && c == c0
                        && self.sprite_covers(xr, yr, height, r, c)))
                &&& self.collides_before(xr, yr, height, 8 * y + x + 1) == (self.collides_before(
                    xr,
                    yr,
                    height,
                    8 * y + x,
                ) || (self.sprite_covers(xr, yr, height, r0, c0) && r0 < SCREEN_HEIGHT
                    && self.screen[r0][c0] == 0xff))
            }),
    {
        let v0 = self.v.update(FLAG as int, 0u8);
        let r0 = v0[yr] + y;
        let c0 = v0[xr] + x;
        let k = 8 * y + x;
        assert forall|r: int, c: int|
            #[trigger] self.covers_before(xr, yr, height, k + 1, r, c) == (self.covers_before(
                xr,
                yr,
                height,
                k,
                r,
                c,
            ) || (r == r0 && c == c0 && self.sprite_covers(xr, yr, height, r, c))) by {
            if self.sprite_covers(xr, yr, height, r, c) && self.sprite_order(xr, yr, r, c) == k {
                assert(r == r0 && c == c0);
            }
        }
        if self.collides_before(xr, yr, height, k + 1) {
            let (r, c) = choose|r: int, c: int|
                0 <= r < SCREEN_HEIGHT && 0 <= c < SCREEN_WIDTH && #[trigger] self.covers_before(
                    xr,
                    yr,
                    height,
                    k + 1,
                    r,
                    c,
                ) && self.screen[r][c] == 0xff;
            if !self.covers_before(xr, yr, height, k, r, c) {
                assert(r == r0 && c == c0);
            }
        }
        if self.collides_before(xr, yr, height, k) {
            let (r, c) = choose|r: int, c: int|
                0 <= r < SCREEN_HEIGHT && 0 <= c < SCREEN_WIDTH && #[trigger] self.covers_before(
                    xr,
                    yr,
                    height,
                    k,
                    r,
                    c,
                ) && self.screen[r][c] == 0xff;
            assert(self.covers_before(xr, yr, height, k + 1, r, c));
        }
        if self.sprite_covers(xr, yr, height, r0, c0) && r0 < SCREEN_HEIGHT && self.screen[r0][c0]
            == 0xff {
            assert(self.covers_before(xr, yr, height, k + 1, r0, c0));
        }
    }
}

impl CPU {
    /// Whether DXYN with these operands stays in bounds and free of overflow.
    pub fn sprite_fits(&self, start_x_reg: usize, start_y_reg: usize, height: u8) -> (ok: bool)
        requires
            start_x_reg < NUM_REGS,
            start_y_reg < NUM_REGS,
        ensures
            ok == self@.render_ok(start_x_reg as int, start_y_reg as int, height),
    {
        let ghost m0 = self@;
        let ghost xr = start_x_reg as int;
        let ghost yr = start_y_reg as int;
        proof {
            self.lemma_wf();
        }
        let start_position = self.i as usize;
        let start_x: u8 = if start_x_reg == 0xf { 0 } else { self.v[start_x_reg] };
        let start_y: u8 = if start_y_reg == 0xf { 0 } else { self.v[start_y_reg] };
        assert(start_x == m0.v.update(FLAG as int, 0u8)[xr]);
        assert(start_y == m0.v.update(FLAG as int, 0u8)[yr]);
        if start_position + (height as usize) > MEMORY_SIZE {
            return false;
        }
        if height > 0 && ((start_y as usize) + (height as usize) - 1 > 255 || (start_x as usize)
            + 7 > 255) {
            return false;
        }
        let mut y: usize = 0;
        while y < height as usize
            invariant
                m0 == self@,
                m0.wf(),
                xr == start_x_reg,
                yr == start_y_reg,
                0 <= xr < NUM_REGS,
                0 <= yr < NUM_REGS,
                start_position == m0.i,
                start_position + height <= MEMORY_SIZE,
                height > 0 ==> start_y + height - 1 <= 255 && start_x + 7 <= 255,
                start_x == m0.v.update(FLAG as int, 0u8)[xr],
                start_y == m0.v.update(FLAG as int, 0u8)[yr],
                y <= height,
                forall|r: int, c: int|
                    #[trigger] m0.covers_before(xr, yr, height, 8 * y, r, c) ==> r < SCREEN_HEIGHT,
            decreases height - y,
        {
            let row = self.memory[start_position + y];
            let yy: usize = (start_y as usize) + y;
            let mut x: u8 = 0;
            while x < 8
                invariant
                    m0 == self@,
                    m0.wf(),
                    xr == start_x_reg,
                    yr == start_y_reg,
                    0 <= xr < NUM_REGS,
                    0 <= yr < NUM_REGS,
                    start_position == m0.i,
                    start_x + 7 <= 255,
                    start_x == m0.v.update(FLAG as int, 0u8)[xr],
                    start_y == m0.v.update(FLAG as int, 0u8)[yr],
                    start_position + height <= MEMORY_SIZE,
                    y < height,
                    yy == start_y + y,
                    row == m0.memory[m0.i + y],
                    x <= 8,
                    forall|r: int, c: int|
                        #[trigger] m0.covers_before(xr, yr, height, 8 * y + x, r, c) ==> r
                            < SCREEN_HEIGHT,
                decreases 8 - x,
            {
                proof {
                    m0.lemma_walk_step(xr, yr, height, y as int, x as int);
                }
                if x + start_x <= 63 && is_bit_set(row, 7 - x) && yy >= 32 {
                    assert(m0.sprite_covers(xr, yr, height, yy as int, (x + start_x) as int));
                    assert(!m0.render_ok(xr, yr, height));
                    return false;
                }
                x += 1;
            }
            assert forall|r: int, c: int|
                #[trigger] m0.covers_before(xr, yr, height, 8 * (y + 1), r, c) implies r
                    < SCREEN_HEIGHT by {
                assert(8 * (y + 1) == 8 * y + 8);
                assert(m0.covers_before(xr, yr, height, 8 * y + 8, r, c));
            }
            y += 1;
        }
        proof {
            m0.lemma_walk_complete(xr, yr, height);
            assert forall|r: int, c: int|
                #[trigger] m0.sprite_covers(xr, yr, height, r, c) implies r < SCREEN_HEIGHT by {
                assert(m0.covers_before(xr, yr, height, 8 * height, r, c));
                assert(8 * y == 8 * height);
            }
        }
        true
    }

    /// DXYN: draw the sprite of `height` rows stored at `I` with its top left corner at
    /// (`V[start_x_reg]`, `V[start_y_reg]`), read after `VF` is cleared. Each set bit
    /// flips its pixel (xor with 0xff); columns past the right edge are skipped.
    /// `VF` ends up 1 when a pixel went from on to off, else 0.
    pub fn render_sprite(&mut self, start_x_reg: usize, start_y_reg: usize, height: u8)
        requires
            start_x_reg < NUM_REGS,
            start_y_reg < NUM_REGS,
            old(self)@.render_ok(start_x_reg as int, start_y_reg as int, height),
            old(self).pc + 2 <= u16::MAX,
        ensures
            final(self)@ == old(self)@.render_sprite(start_x_reg as int, start_y_reg as int, height),
    {
        let ghost m0 = self@;
        let ghost xr = start_x_reg as int;
        let ghost yr = start_y_reg as int;
        proof {
            self.lemma_wf();
        }
        self.v[0xf] = 0;
        let start_position = self.i as usize;
        let start_y = self.v[start_y_reg];
        let start_x = self.v[start_x_reg];
        let mut y: usize = 0;
        while y < height as usize
            invariant
                m0.wf(),
                0 <= xr < NUM_REGS,
                0 <= yr < NUM_REGS,
                xr == start_x_reg,
                yr == start_y_reg,
                m0.render_ok(xr, yr, height),
                start_position == m0.i,
                start_x == m0.v.update(FLAG as int, 0u8)[xr],
                start_y == m0.v.update(FLAG as int, 0u8)[yr],
                y <= height,
                self@ == (Machine { screen: self@.screen, v: m0.v.update(FLAG as int, self.v[FLAG as int]), ..m0 }),
                forall|r: int, c: int|
                    0 <= r < SCREEN_HEIGHT && 0 <= c < SCREEN_WIDTH ==> #[trigger] self.screen@[r]@[c]
                        == if m0.covers_before(xr, yr, height, 8 * y, r, c) {
                        m0.screen[r][c] ^ 0xff
                    } else {
                        m0.screen[r][c]
                    },
                self.v[FLAG as int] == if m0.collides_before(xr, yr, height, 8 * y) {
                    1u8
                } else {
                    0u8
                },
            decreases height - y,
        {
            let row = self.memory[start_position + y];
            let yy = (start_y + y as u8) as usize;
            let mut x: u8 = 0;
            while x < 8
                invariant
                    m0.wf(),
                    0 <= xr < NUM_REGS,
                    0 <= yr < NUM_REGS,
                    xr == start_x_reg,
                    yr == start_y_reg,
                    m0.render_ok(xr, yr, height),
                    start_position == m0.i,
                    start_x == m0.v.update(FLAG as int, 0u8)[xr],
                    start_y == m0.v.update(FLAG as int, 0u8)[yr],
                    y < height,
                    yy == start_y + y,
                    row == m0.memory[m0.i + y],
                    x <= 8,
                    self@ == (Machine { screen: self@.screen, v: m0.v.update(FLAG as int, self.v[FLAG as int]), ..m0 }),
                    forall|r: int, c: int|
                        0 <= r < SCREEN_HEIGHT && 0 <= c < SCREEN_WIDTH ==> #[trigger] self.screen@[r]@[c]
                            == if m0.covers_before(xr, yr, height, 8 * y + x, r, c) {
                            m0.screen[r][c] ^ 0xff
                        } else {
                            m0.screen[r][c]
                        },
                    self.v[FLAG as int] == if m0.collides_before(xr, yr, height, 8 * y + x) {
                        1u8
                    } else {
                        0u8
                    },
                decreases 8 - x,
            {
                proof {
                    m0.lemma_walk_step(xr, yr, height, y as int, x as int);
                }
                if !(x + start_x > 63) {
                    if is_bit_set(row, 7 - x) {
                        let xx = (x + start_x) as usize;
                        assert(m0.sprite_covers(xr, yr, height, yy as int, xx as int));
                        let p = self.screen[yy][xx];
                        let flipped: u8 = p ^ 0xff;
                        assert(flipped == 0 <==> p == 0xff) by (bit_vector)
                            requires
                                flipped == p ^ 0xff,
                        ;
                        self.screen[yy][xx] = flipped;
                        if flipped == 0 {
                            self.v[0xF] = 1;
                        }
                    } else {
                        assert(!m0.sprite_covers(xr, yr, height, yy as int, (start_x + x) as int));
                    }
                }
                x += 1;
            }
            y += 1;
        }
        self.pc += 2;
        proof {
            m0.lemma_walk_complete(xr, yr, height);
            assert(self@.screen =~~= m0.render_sprite(xr, yr, height).screen);
        }
    }
}

} // verus!
