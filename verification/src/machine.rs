//! The mathematical model of the interpreter's state, and the meaning of
//! every instruction as a function from state to state.
use vstd::prelude::*;

verus! {

/// Number of general purpose registers `V0` .. `VF`.
pub const NUM_REGS: usize = 16;

/// Size of the addressable memory in bytes.
pub const MEMORY_SIZE: usize = 0xfff;

/// Depth of the call stack.
pub const STACK_DEPTH: usize = 16;

/// Width of the display in pixels.
pub const SCREEN_WIDTH: usize = 64;

/// Height of the display in pixels.
pub const SCREEN_HEIGHT: usize = 32;

/// Number of keys on the hexadecimal keypad.
pub const NUM_KEYS: usize = 16;

/// Address at which programs are loaded and execution starts.
pub const PROGRAM_START: u16 = 0x200;

/// The register used as carry, borrow and collision flag.
pub const FLAG: usize = 0xf;

/// The abstract state of the interpreter.
#[verifier::ext_equal]
pub struct Machine {
    pub v: Seq<u8>,
    pub memory: Seq<u8>,
    pub stack: Seq<u16>,
    pub pc: u16,
    pub sp: u16,
    pub i: u16,
    pub screen: Seq<Seq<u8>>,
    pub dt: u8,
    pub st: u8,
    pub key: Seq<bool>,
}

/// The blank display.
pub open spec fn blank_screen() -> Seq<Seq<u8>> {
    Seq::new(SCREEN_HEIGHT as nat, |r: int| Seq::new(SCREEN_WIDTH as nat, |c: int| 0u8))
}

/// Whether bit `bit` (0 is the least significant) of `byte` is one.
pub open spec fn bit_set(byte: u8, bit: u8) -> bool {
    (byte >> bit) & 1u8 == 1u8
}

/// Number of pressed keys among the first `n` keys.
pub open spec fn pressed_count(key: Seq<bool>, n: int) -> nat
    decreases n,
{
    if n <= 0 {
        0
    } else {
        pressed_count(key, n - 1) + if key[n - 1] {
            1nat
        } else {
            0nat
        }
    }
}

/// Counting over more keys never counts fewer.
pub proof fn lemma_pressed_count_monotone(key: Seq<bool>, a: int, b: int)
    requires
        0 <= a <= b,
    ensures
        pressed_count(key, a) <= pressed_count(key, b),
    decreases b - a,
{
    if a < b {
        lemma_pressed_count_monotone(key, a, b - 1);
    }
}

/// At most `n` of the first `n` keys are pressed.
pub proof fn lemma_pressed_count_bound(key: Seq<bool>, n: int)
    requires
        0 <= n,
    ensures
        pressed_count(key, n) <= n,
    decreases n,
{
    if n > 0 {
        lemma_pressed_count_bound(key, n - 1);
    }
}

/// The highest-numbered pressed key among the first `n` keys, skipping key `x`.
pub open spec fn last_pressed_except(key: Seq<bool>, x: int, n: int) -> Option<int>
    decreases n,
{
    if n <= 0 {
        None
    } else if key[n - 1] && n - 1 != x {
        Some(n - 1)
    } else {
        last_pressed_except(key, x, n - 1)
    }
}

// Fields of an instruction word.
/// The high nibble: which family of instructions the word belongs to.
pub open spec fn op_family(op: u16) -> u16 {
    op & 0xf000
}

/// The second nibble, a register number.
pub open spec fn op_x(op: u16) -> int {
    ((op >> 8u16) & 0x000f) as int
}

/// The third nibble, a register number.
pub open spec fn op_y(op: u16) -> int {
    ((op >> 4u16) & 0x000f) as int
}

/// The low nibble.
pub open spec fn op_n(op: u16) -> u8 {
    (op & 0x000f) as u8
}

/// The low byte.
pub open spec fn op_nn(op: u16) -> u8 {
    (op & 0x00ff) as u8
}

/// The low twelve bits, an address.
pub open spec fn op_nnn(op: u16) -> u16 {
    op & 0x0fff
}

impl Machine {
    /// The shape every state of the interpreter has.
    pub open spec fn wf(self) -> bool {
        &&& self.v.len() == NUM_REGS
        &&& self.memory.len() == MEMORY_SIZE
        &&& self.stack.len() == STACK_DEPTH
        &&& self.screen.len() == SCREEN_HEIGHT
        &&& forall|r: int| 0 <= r < SCREEN_HEIGHT ==> #[trigger] self.screen[r].len() == SCREEN_WIDTH
        &&& self.key.len() == NUM_KEYS
    }

    /// Every pixel is either off (0) or fully on (0xff).
    pub open spec fn pixels_binary(self) -> bool {
        forall|r: int, c: int|
            0 <= r < SCREEN_HEIGHT && 0 <= c < SCREEN_WIDTH ==> (#[trigger] self.screen[r][c] == 0
                || self.screen[r][c] == 0xff)
    }

    /// The instruction word at the program counter (big endian).
    pub open spec fn opcode(self) -> u16 {
        ((self.memory[self.pc as int] as u16) << 8u16) | (self.memory[self.pc + 1] as u16)
    }

    /// The state with the program counter moved by `d` bytes.
    pub open spec fn advance(self, d: int) -> Machine {
        Machine { pc: (self.pc + d) as u16, ..self }
    }

    /// Moves past the current instruction, and past the next one too when `cond` holds.
    pub open spec fn skip_if(self, cond: bool) -> Machine {
        self.advance(if cond { 4 } else { 2 })
    }

    /// The state with register `x` set to `val`.
    pub open spec fn with_reg(self, x: int, val: u8) -> Machine {
        Machine { v: self.v.update(x, val), ..self }
    }

    /// 00E0: blank the display.
    pub open spec fn clear_screen(self) -> Machine {
        Machine { screen: blank_screen(), ..self }.advance(2)
    }

    /// 00EE: return to the address on top of the stack.
    pub open spec fn return_op(self) -> Machine {
        Machine { pc: self.stack[self.sp - 1], sp: (self.sp - 1) as u16, ..self }
    }

    /// 1NNN: jump to `address`.
    pub open spec fn jump(self, address: u16) -> Machine {
        Machine { pc: address, ..self }
    }

    /// 2NNN: push the address of the next instruction and jump to `nnn`.
    pub open spec fn call(self, nnn: u16) -> Machine {
        Machine {
            stack: self.stack.update(self.sp as int, (self.pc + 2) as u16),
            sp: (self.sp + 1) as u16,
            pc: nnn,
            ..self
        }
    }

    /// 3XNN: skip the next instruction when `VX == nn`.
    pub open spec fn check_equality(self, x: int, nn: u8) -> Machine {
        self.skip_if(self.v[x] == nn)
    }

    /// 4XNN: skip the next instruction when `VX != nn`.
    pub open spec fn check_inequality(self, x: int, nn: u8) -> Machine {
        self.skip_if(self.v[x] != nn)
    }

    /// 5XY0: skip the next instruction when `VX == VY`.
    pub open spec fn check_v_equality(self, x: int, y: int) -> Machine {
        self.skip_if(self.v[x] == self.v[y])
    }

    /// 9XY0: skip the next instruction when `VX != VY`.
    pub open spec fn check_v_inequality(self, x: int, y: int) -> Machine {
        self.skip_if(self.v[x] != self.v[y])
    }

    /// 6XNN: `VX = nn`.
    pub open spec fn set_register(self, x: int, nn: u8) -> Machine {
        self.with_reg(x, nn).advance(2)
    }

    /// 7XNN: `VX = VX + nn` modulo 256, the flag untouched.
    pub open spec fn add_to_register(self, x: int, nn: u8) -> Machine {
        self.with_reg(x, ((self.v[x] + nn) % 256) as u8).advance(2)
    }

    /// 8XY0: `VX = VY`.
    pub open spec fn assign_register(self, x: int, y: int) -> Machine {
        self.with_reg(x, self.v[y]).advance(2)
    }

    /// 8XY1: `VX = VX | VY`.
    pub open spec fn assign_register_or(self, x: int, y: int) -> Machine {
        self.with_reg(x, self.v[x] | self.v[y]).advance(2)
    }

    /// 8XY2: `VX = VX & VY`.
    pub open spec fn assign_register_and(self, x: int, y: int) -> Machine {
        self.with_reg(x, self.v[x] & self.v[y]).advance(2)
    }

    /// 8XY3: `VX = VX ^ VY`.
    pub open spec fn assign_register_xor(self, x: int, y: int) -> Machine {
        self.with_reg(x, self.v[x] ^ self.v[y]).advance(2)
    }

    /// 8XY4: `VX = VX + VY` modulo 256; then `VF` is 1 when the sum exceeded 255, else 0.
    pub open spec fn assign_register_add(self, x: int, y: int) -> Machine {
        let sum = self.v[x] + self.v[y];
        self.with_reg(x, (sum % 256) as u8).with_reg(
            FLAG as int,
            if sum > 255 {
                1u8
            } else {
                0u8
            },
        ).advance(2)
    }

    /// 8XY5: `VX = VX - VY` modulo 256; then `VF` is 1 when `VY` exceeded `VX`, else 0.
    pub open spec fn assign_register_sub(self, x: int, y: int) -> Machine {
        let a = self.v[x];
        let b = self.v[y];
        self.with_reg(x, ((a - b + 256) % 256) as u8).with_reg(
            FLAG as int,
            if a < b {
                1u8
            } else {
                0u8
            },
        ).advance(2)
    }

    /// 8XY7: `VX = VY - VX` modulo 256; then `VF` is 1 when `VX` exceeded `VY`, else 0.
    pub open spec fn assign_register_sub_reversed(self, x: int, y: int) -> Machine {
        let a = self.v[y];
        let b = self.v[x];
        self.with_reg(x, ((a - b + 256) % 256) as u8).with_reg(
            FLAG as int,
            if a < b {
                1u8
            } else {
                0u8
            },
        ).advance(2)
    }

    /// 8XY6: `VF` takes the low bit of `VX`, then `VX` (as it now is) is halved.
    pub open spec fn shift_register_right(self, x: int) -> Machine {
        let m = self.with_reg(FLAG as int, self.v[x] % 2);
        m.with_reg(x, m.v[x] / 2).advance(2)
    }

    /// 8XYE: `VF` takes the high bit of `VX`, then `VX` (as it now is) is doubled modulo 256.
    pub open spec fn shift_register_left(self, x: int) -> Machine {
        let m = self.with_reg(FLAG as int, self.v[x] / 128);
        m.with_reg(x, ((m.v[x] * 2) % 256) as u8).advance(2)
    }

    /// ANNN: `I = nnn`.
    pub open spec fn set_i(self, nnn: u16) -> Machine {
        Machine { i: nnn, ..self }.advance(2)
    }

    /// BNNN: jump to `nnn + V0`.
    pub open spec fn jump_plus_v0(self, nnn: u16) -> Machine {
        Machine { pc: (nnn + self.v[0]) as u16, ..self }
    }

    /// CXNN with the random byte `r`: `VX = nn & r`.
    pub open spec fn and_with(self, x: int, nn: u8, r: u8) -> Machine {
        self.with_reg(x, nn & r).advance(2)
    }

    /// FX55: store `V0` ..= `VX` at `I` ..= `I + X`.
    pub open spec fn reg_dump(self, x: int) -> Machine {
        Machine {
            memory: Seq::new(
                self.memory.len(),
                |a: int|
                    if self.i <= a <= self.i + x {
                        self.v[a - self.i]
                    } else {
                        self.memory[a]
                    },
            ),
            ..self
        }.advance(2)
    }

    /// FX65: load `V0` ..= `VX` from `I` ..= `I + X`.
    pub open spec fn reg_load(self, x: int) -> Machine {
        Machine {
            v: Seq::new(
                self.v.len(),
                |k: int|
                    if k <= x {
                        self.memory[self.i + k]
                    } else {
                        self.v[k]
                    },
            ),
            ..self
        }.advance(2)
    }

    /// FX33: the decimal digits of `VX` (hundreds, tens, ones) at `I`, `I + 1`, `I + 2`.
    pub open spec fn to_bcd(self, x: int) -> Machine {
        let val = self.v[x];
        Machine {
            memory: self.memory.update(self.i as int, val / 100).update(
                self.i + 1,
                (val / 10) % 10,
            ).update(self.i + 2, val % 10),
            ..self
        }.advance(2)
    }

    /// FX15: delay timer = `VX`.
    pub open spec fn set_delay_timer(self, x: int) -> Machine {
        Machine { dt: self.v[x], ..self }.advance(2)
    }

    /// FX18: sound timer = `VX`.
    pub open spec fn set_sound_timer(self, x: int) -> Machine {
        Machine { st: self.v[x], ..self }.advance(2)
    }

    /// FX07: `VX` = delay timer.
    pub open spec fn get_delay(self, x: int) -> Machine {
        self.with_reg(x, self.dt).advance(2)
    }

    /// FX1E: `I = I + VX`.
    pub open spec fn add_to_i(self, x: int) -> Machine {
        Machine { i: (self.i + self.v[x]) as u16, ..self }.advance(2)
    }

    /// FX29: point `I` at the five-byte font glyph of the digit in `VX`.
    pub open spec fn set_i_to_font_ptr(self, x: int) -> Machine {
        Machine { i: (self.v[x] * 5) as u16, ..self }.advance(2)
    }

    /// EX9E: skip the next instruction when the key numbered `VX` is down.
    pub open spec fn is_key_down(self, x: int) -> Machine {
        self.skip_if(self.key[self.v[x] as int])
    }

    /// EXA1: skip the next instruction when the key numbered `VX` is up.
    pub open spec fn is_key_up(self, x: int) -> Machine {
        self.skip_if(!self.key[self.v[x] as int])
    }

    /// FX0A: for each pressed key `k`, in increasing order, `VX` takes the value of `Vk`
    /// and the program counter moves on by 2. With no key down the instruction repeats.
    pub open spec fn wait_for_key(self, x: int) -> Machine {
        let val = match last_pressed_except(self.key, x, NUM_KEYS as int) {
            Some(k) => self.v[k],
            None => self.v[x],
        };
        self.with_reg(x, val).advance(2 * pressed_count(self.key, NUM_KEYS as int) as int)
    }

    /// Whether the sprite drawn by DXYN flips the pixel at row `r`, column `c`.
    /// The coordinates come from `VX`, `VY` after `VF` has been cleared.
    pub open spec fn sprite_covers(self, xr: int, yr: int, height: u8, r: int, c: int) -> bool {
        let v0 = self.v.update(FLAG as int, 0u8);
        let sx = v0[xr];
        let sy = v0[yr];
        &&& sy <= r < sy + height
        &&& sx <= c < sx + 8
        &&& c < SCREEN_WIDTH
        &&& bit_set(self.memory[self.i + (r - sy)], (7 - (c - sx)) as u8)
    }

    /// Whether drawing the sprite turns off a pixel that was on.
    pub open spec fn sprite_collides(self, xr: int, yr: int, height: u8) -> bool {
        exists|r: int, c: int|
            0 <= r < SCREEN_HEIGHT && 0 <= c < SCREEN_WIDTH && #[trigger] self.sprite_covers(
                xr,
                yr,
                height,
                r,
                c,
            ) && self.screen[r][c] == 0xff
    }

    /// DXYN: flip (xor with 0xff) every pixel the sprite of `height` rows at `I` covers,
    /// at `(VX, VY)` read after `VF` is cleared; `VF` is 1 when a pixel went off, else 0.
    pub open spec fn render_sprite(self, xr: int, yr: int, height: u8) -> Machine {
        Machine {
            screen: Seq::new(
                SCREEN_HEIGHT as nat,
                |r: int|
                    Seq::new(
                        SCREEN_WIDTH as nat,
                        |c: int|
                            if self.sprite_covers(xr, yr, height, r, c) {
                                self.screen[r][c] ^ 0xff
                            } else {
                                self.screen[r][c]
                            },
                    ),
            ),
            ..self.with_reg(
                FLAG as int,
                if self.sprite_collides(xr, yr, height) {
                    1u8
                } else {
                    0u8
                },
            )
        }.advance(2)
    }

    /// Inputs on which DXYN stays in bounds and free of overflow: the sprite's rows lie
    /// in memory, its row and column numbers fit in a byte, and no pixel it covers lies
    /// below the bottom row of the display.
    pub open spec fn render_ok(self, xr: int, yr: int, height: u8) -> bool {
        let v0 = self.v.update(FLAG as int, 0u8);
        &&& self.i + height <= MEMORY_SIZE
        &&& height > 0 ==> v0[yr] + height - 1 <= u8::MAX
        &&& height > 0 ==> v0[xr] + 7 <= u8::MAX
        &&& forall|r: int, c: int| #[trigger] self.sprite_covers(xr, yr, height, r, c) ==> r < SCREEN_HEIGHT
    }

    /// The timers count down by one when not yet zero.
    pub open spec fn tick(self) -> Machine {
        Machine {
            st: if self.st > 0 {
                (self.st - 1) as u8
            } else {
                self.st
            },
            dt: if self.dt > 0 {
                (self.dt - 1) as u8
            } else {
                self.dt
            },
            ..self
        }
    }

    /// The effect of instruction word `op`, with `r` the random byte CXNN uses.
    /// Unknown words change nothing.
    pub open spec fn execute(self, op: u16, r: u8) -> Machine {
        let x = op_x(op);
        let y = op_y(op);
        let n = op_n(op);
        let nn = op_nn(op);
        let nnn = op_nnn(op);
        let f = op_family(op);
        if f == 0x0000 {
            if nnn == 0x0e0 {
                self.clear_screen()
            } else if nnn == 0x0ee {
                self.return_op()
            } else {
                self
            }
        } else if f == 0x1000 {
            self.jump(nnn)
        } else if f == 0x2000 {
            self.call(nnn)
        } else if f == 0x3000 {
            self.check_equality(x, nn)
        } else if f == 0x4000 {
            self.check_inequality(x, nn)
        } else if f == 0x5000 {
            self.check_v_equality(x, y)
        } else if f == 0x6000 {
            self.set_register(x, nn)
        } else if f == 0x7000 {
            self.add_to_register(x, nn)
        } else if f == 0x8000 {
            if n == 0x0 {
                self.assign_register(x, y)
            } else if n == 0x1 {
                self.assign_register_or(x, y)
            } else if n == 0x2 {
                self.assign_register_and(x, y)
            } else if n == 0x3 {
                self.assign_register_xor(x, y)
            } else if n == 0x4 {
                self.assign_register_add(x, y)
            } else if n == 0x5 {
                self.assign_register_sub(x, y)
            } else if n == 0x6 {
                self.shift_register_right(x)
            } else if n == 0x7 {
                self.assign_register_sub_reversed(x, y)
            } else if n == 0xe {
                self.shift_register_left(x)
            } else {
                self
            }
        } else if f == 0x9000 {
            self.check_v_inequality(x, y)
        } else if f == 0xa000 {
            self.set_i(nnn)
        } else if f == 0xb000 {
            self.jump_plus_v0(nnn)
        } else if f == 0xc000 {
            self.and_with(x, nn, r)
        } else if f == 0xd000 {
            self.render_sprite(x, y, n)
        } else if f == 0xe000 {
            if nn == 0x9e {
                self.is_key_down(x)
            } else if nn == 0xa1 {
                self.is_key_up(x)
            } else {
                self
            }
        } else {
            if nn == 0x07 {
                self.get_delay(x)
            } else if nn == 0x0a {
                self.wait_for_key(x)
            } else if nn == 0x15 {
                self.set_delay_timer(x)
            } else if nn == 0x18 {
                self.set_sound_timer(x)
            } else if nn == 0x1e {
                self.add_to_i(x)
            } else if nn == 0x29 {
                self.set_i_to_font_ptr(x)
            } else if nn == 0x33 {
                self.to_bcd(x)
            } else if nn == 0x55 {
                self.reg_dump(x)
            } else if nn == 0x65 {
                self.reg_load(x)
            } else {
                self
            }
        }
    }

    /// Whether executing `op` in this state stays in bounds and free of overflow.
    pub open spec fn execute_ok(self, op: u16) -> bool {
        let x = op_x(op);
        let y = op_y(op);
        let n = op_n(op);
        let nn = op_nn(op);
        let nnn = op_nnn(op);
        let f = op_family(op);
        if f == 0x0000 {
            &&& nnn != 0x000
            &&& nnn == 0x0ee ==> 1 <= self.sp <= STACK_DEPTH
        } else if f == 0x2000 {
            self.sp < STACK_DEPTH
        } else if f == 0xd000 {
            self.render_ok(x, y, n)
        } else if f == 0xe000 {
            nn == 0x9e || nn == 0xa1 ==> self.v[x] < NUM_KEYS
        } else if f == 0xf000 {
            &&& nn == 0x1e ==> self.i + self.v[x] <= u16::MAX
            &&& nn == 0x29 ==> self.v[x] * 5 <= u8::MAX
            &&& nn == 0x33 ==> self.i + 2 < MEMORY_SIZE
            &&& (nn == 0x55 || nn == 0x65) ==> self.i + x < MEMORY_SIZE
        } else {
            true
        }
    }

    /// Whether one step from this state runs without fault: the instruction can be
    /// fetched, is not the null word, and stays in bounds.
    pub open spec fn can_step(self) -> bool {
        &&& self.pc + 1 < MEMORY_SIZE
        &&& self.tick().execute_ok(self.opcode())
    }

    /// One step: fetch, count the timers down, execute.
    pub open spec fn step(self, r: u8) -> Machine {
        self.tick().execute(self.opcode(), r)
    }
}

} // verus!
