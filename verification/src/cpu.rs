//! The interpreter's state, and every instruction but sprite drawing, each proved
//! to do what the model in `machine` says.
use vstd::prelude::*;
use crate::random::random_byte;
use crate::machine::{
    Machine, blank_screen, last_pressed_except, lemma_pressed_count_monotone, pressed_count,
    MEMORY_SIZE, NUM_KEYS, NUM_REGS, SCREEN_HEIGHT, STACK_DEPTH,
};

verus! {

broadcast use vstd::array::group_array_axioms;

/// The state of the interpreter.
pub struct CPU {
    /// Registers `V0` .. `VF`.
    pub v: [u8; 16],
    /// Main memory.
    pub memory: [u8; 0xfff],
    /// Return addresses.
    pub stack: [u16; 16],
    /// Program counter.
    pub pc: u16,
    /// Number of entries on the stack.
    pub sp: u16,
    /// Address register.
    pub i: u16,
    /// Display, row by row; a pixel is on when non-zero.
    pub screen: [[u8; 64]; 32],
    /// Delay timer.
    pub dt: u8,
    /// Sound timer.
    pub st: u8,
    /// Which keys of the keypad are down.
    pub key: [bool; 16],
}

impl View for CPU {
    type V = Machine;

    open spec fn view(&self) -> Machine {
        Machine {
            v: self.v@,
            memory: self.memory@,
            stack: self.stack@,
            pc: self.pc,
            sp: self.sp,
            i: self.i,
            screen: Seq::new(SCREEN_HEIGHT as nat, |r: int| self.screen@[r]@),
            dt: self.dt,
            st: self.st,
            key: self.key@,
        }
    }
}

impl CPU {
    /// Every value of the type has the shape of the model.
    pub proof fn lemma_wf(&self)
        ensures
            self@.wf(),
    {
    }

    /// The instruction word at the program counter, most significant byte first.
    pub fn read_instruction(&self) -> (op: u16)
        requires
            self.pc + 1 < MEMORY_SIZE,
        ensures
            op == self@.opcode(),
    {
        (self.memory[self.pc as usize] as u16) << 8 | (self.memory[self.pc as usize + 1] as usize) as u16
    }

    /// 00E0: blank the display.
    pub fn clear_screen(&mut self)
        requires
            old(self).pc + 2 <= u16::MAX,
        ensures
            final(self)@ == old(self)@.clear_screen(),
    {
        self.screen = [[0; 64]; 32];
        self.pc += 2;
        assert(self@.screen =~~= blank_screen());
    }

    /// 00EE: return to the address on top of the stack.
    pub fn return_op(&mut self)
        requires
            1 <= old(self).sp <= STACK_DEPTH,
        ensures
            final(self)@ == old(self)@.return_op(),
    {
        let sp = self.sp as usize;
        self.pc = self.stack[sp - 1];
        self.sp -= 1;
    }

    /// 1NNN: jump to `address`.
    pub fn jump(&mut self, address: u16)
        ensures
            final(self)@ == old(self)@.jump(address),
    {
        self.pc = address;
    }

    /// 2NNN: push the address of the next instruction and jump to `nnn`.
    pub fn call(&mut self, nnn: u16)
        requires
            old(self).sp < STACK_DEPTH,
            old(self).pc + 2 <= u16::MAX,
        ensures
            final(self)@ == old(self)@.call(nnn),
    {
        let sp = self.sp as usize;
        self.stack[sp] = self.pc + 2;
        self.sp += 1;
        self.pc = nnn;
    }

    /// 3XNN: skip the next instruction when `VX == nn`.
    pub fn check_equality(&mut self, x: usize, nn: u8)
        requires
            x < NUM_REGS,
            old(self).pc + 2 <= u16::MAX,
            old(self).v[x as int] == nn ==> old(self).pc + 4 <= u16::MAX,
        ensures
            final(self)@ == old(self)@.check_equality(x as int, nn),
    {
        self.pc += 2;
        if self.v[x] == nn {
            self.pc += 2;
        }
    }

    /// 4XNN: skip the next instruction when `VX != nn`.
    pub fn check_inequality(&mut self, x: usize, nn: u8)
        requires
            x < NUM_REGS,
            old(self).pc + 2 <= u16::MAX,
            old(self).v[x as int] != nn ==> old(self).pc + 4 <= u16::MAX,
        ensures
            final(self)@ == old(self)@.check_inequality(x as int, nn),
    {
        self.pc += 2;
        if self.v[x] != nn {
            self.pc += 2;
        }
    }

    /// 5XY0: skip the next instruction when `VX == VY`.
    pub fn check_v_equality(&mut self, x: usize, y: usize)
        requires
            x < NUM_REGS,
            y < NUM_REGS,
            old(self).pc + 2 <= u16::MAX,
            old(self).v[x as int] == old(self).v[y as int] ==> old(self).pc + 4 <= u16::MAX,
        ensures
            final(self)@ == old(self)@.check_v_equality(x as int, y as int),
    {
        self.pc += 2;
        if self.v[x] == self.v[y] {
            self.pc += 2;
        }
    }

    /// 9XY0: skip the next instruction when `VX != VY`.
    pub fn check_v_inequality(&mut self, x: usize, y: usize)
        requires
            x < NUM_REGS,
            y < NUM_REGS,
            old(self).pc + 2 <= u16::MAX,
            old(self).v[x as int] != old(self).v[y as int] ==> old(self).pc + 4 <= u16::MAX,
        ensures
            final(self)@ == old(self)@.check_v_inequality(x as int, y as int),
    {
        self.pc += 2;
        if self.v[x] != self.v[y] {
            self.pc += 2;
        }
    }

    /// 6XNN: `VX = nn`.
    pub fn set_register(&mut self, x: usize, nn: u8)
        requires
            x < NUM_REGS,
            old(self).pc + 2 <= u16::MAX,
        ensures
            final(self)@ == old(self)@.set_register(x as int, nn),
    {
        self.v[x] = nn;
        self.pc += 2;
    }

    /// 7XNN: `VX = VX + nn`, wrapping around at 256; the flag is left alone.
    pub fn add_to_register(&mut self, x: usize, nn: u8)
        requires
            x < NUM_REGS,
            old(self).pc + 2 <= u16::MAX,
        ensures
            final(self)@ == old(self)@.add_to_register(x as int, nn),
    {
        let sum: u16 = self.v[x] as u16 + nn as u16;
        self.v[x] = (sum % 256) as u8;
        self.pc += 2;
    }

    /// 8XY0: `VX = VY`.
    pub fn assign_register(&mut self, x: usize, y: usize)
        requires
            x < NUM_REGS,
            y < NUM_REGS,
            old(self).pc + 2 <= u16::MAX,
        ensures
            final(self)@ == old(self)@.assign_register(x as int, y as int),
    {
        self.v[x] = self.v[y];
        self.pc += 2;
    }

    /// 8XY1: `VX = VX | VY`.
    pub fn assign_register_or(&mut self, x: usize, y: usize)
        requires
            x < NUM_REGS,
            y < NUM_REGS,
            old(self).pc + 2 <= u16::MAX,
        ensures
            final(self)@ == old(self)@.assign_register_or(x as int, y as int),
    {
        self.v[x] = self.v[x] | self.v[y];
        self.pc += 2;
    }

    /// 8XY2: `VX = VX & VY`.
    pub fn assign_register_and(&mut self, x: usize, y: usize)
        requires
            x < NUM_REGS,
            y < NUM_REGS,
            old(self).pc + 2 <= u16::MAX,
        ensures
            final(self)@ == old(self)@.assign_register_and(x as int, y as int),
    {
        self.v[x] = self.v[x] & self.v[y];
        self.pc += 2;
    }

    /// 8XY3: `VX = VX ^ VY`.
    pub fn assign_register_xor(&mut self, x: usize, y: usize)
        requires
            x < NUM_REGS,
            y < NUM_REGS,
            old(self).pc + 2 <= u16::MAX,
        ensures
            final(self)@ == old(self)@.assign_register_xor(x as int, y as int),
    {
        self.v[x] = self.v[x] ^ self.v[y];
        self.pc += 2;
    }

    /// 8XY4: `VX = VX + VY` wrapping at 256, then `VF` = 1 on carry, else 0.
    pub fn assign_register_add(&mut self, x: usize, y: usize)
        requires
            x < NUM_REGS,
            y < NUM_REGS,
            old(self).pc + 2 <= u16::MAX,
        ensures
            final(self)@ == old(self)@.assign_register_add(x as int, y as int),
    {
        let sum: u16 = self.v[x] as u16 + self.v[y] as u16;
        let did_overflow = sum > 255;
        self.v[x] = (sum % 256) as u8;
        if did_overflow {
            self.v[0xf] = 1
        } else {
            self.v[0xf] = 0
        };
        self.pc += 2;
    }

    /// 8XY5: `VX = VX - VY` wrapping at 256, then `VF` = 1 on borrow, else 0.
    pub fn assign_register_sub(&mut self, x: usize, y: usize)
        requires
            x < NUM_REGS,
            y < NUM_REGS,
            old(self).pc + 2 <= u16::MAX,
        ensures
            final(self)@ == old(self)@.assign_register_sub(x as int, y as int),
    {
        let a = self.v[x];
        let b = self.v[y];
        let did_overflow = a < b;
        let result: u8 = if did_overflow {
            (a as u16 + 256 - b as u16) as u8
        } else {
            a - b
        };
        self.v[x] = result;
        if did_overflow {
            self.v[0xf] = 1
        } else {
            self.v[0xf] = 0
        };
        self.pc += 2;
    }

    /// 8XY6: `VF` takes the low bit of `VX`, then `VX` (as it now is) is shifted right.
    pub fn shift_register_right(&mut self, x: usize)
        requires
            x < NUM_REGS,
            old(self).pc + 2 <= u16::MAX,
        ensures
            final(self)@ == old(self)@.shift_register_right(x as int),
    {
        let orig: u8 = self.v[x];
        let low: u8 = orig & 0b1;
        assert(low == orig % 2) by (bit_vector)
            requires
                low == orig & 0b1,
        ;
        self.v[0xf] = low;
        let cur: u8 = self.v[x];
        let shifted: u8 = cur >> 1;
        assert(shifted == cur / 2) by (bit_vector)
            requires
                shifted == cur >> 1,
        ;
        self.v[x] = shifted;
        self.pc += 2
    }

    /// 8XYE: `VF` takes the high bit of `VX`, then `VX` (as it now is) is shifted left.
    pub fn shift_register_left(&mut self, x: usize)
        requires
            x < NUM_REGS,
            old(self).pc + 2 <= u16::MAX,
        ensures
            final(self)@ == old(self)@.shift_register_left(x as int),
    {
        let orig: u8 = self.v[x];
        let high: u8 = (orig & 0b10000000) >> 7;
        assert(high == orig / 128) by (bit_vector)
            requires
                high == (orig & 0b10000000) >> 7,
        ;
        self.v[0xf] = high;
        let cur: u8 = self.v[x];
        let shifted: u8 = cur << 1;
        assert(shifted == (cur * 2) % 256) by (bit_vector)
            requires
                shifted == cur << 1,
        ;
        self.v[x] = shifted;
        self.pc += 2
    }

    /// 8XY7: `VX = VY - VX` wrapping at 256, then `VF` = 1 on borrow, else 0.
    pub fn assign_register_sub_reversed(&mut self, x: usize, y: usize)
        requires
            x < NUM_REGS,
            y < NUM_REGS,
            old(self).pc + 2 <= u16::MAX,
        ensures
            final(self)@ == old(self)@.assign_register_sub_reversed(x as int, y as int),
    {
        let a = self.v[y];
        let b = self.v[x];
        let did_overflow = a < b;
        let result: u8 = if did_overflow {
            (a as u16 + 256 - b as u16) as u8
        } else {
            a - b
        };
        self.v[x] = result;
        if did_overflow {
            self.v[0xf] = 1
        } else {
            self.v[0xf] = 0
        };
        self.pc += 2;
    }

    /// ANNN: `I = nnn`.
    pub fn set_i(&mut self, nnn: u16)
        requires
            old(self).pc + 2 <= u16::MAX,
        ensures
            final(self)@ == old(self)@.set_i(nnn),
    {
        self.i = nnn;
        self.pc += 2
    }

    /// BNNN: jump to `nnn + V0`.
    pub fn jump_plus_v0(&mut self, nnn: u16)
        requires
            nnn + old(self).v[0] <= u16::MAX,
        ensures
            final(self)@ == old(self)@.jump_plus_v0(nnn),
    {
        self.pc = nnn + self.v[0] as u16;
    }

    /// CXNN with the random byte given: `VX = nn & random`.
    pub fn and_with(&mut self, x: usize, nn: u8, random: u8)
        requires
            x < NUM_REGS,
            old(self).pc + 2 <= u16::MAX,
        ensures
            final(self)@ == old(self)@.and_with(x as int, nn, random),
    {
        self.v[x] = nn & random;
        self.pc += 2;
    }

    /// CXNN: `VX = nn & r` for a fresh random byte `r`. Whatever byte came back,
    /// `VX` ends up a sub-mask of `nn` and the rest is as for `and_with`.
    pub fn and_rand(&mut self, x: usize, nn: u8)
        requires
            x < NUM_REGS,
            old(self).pc + 2 <= u16::MAX,
        ensures
            final(self).v[x as int] & nn == final(self).v[x as int],
            final(self)@ == old(self)@.and_with(x as int, nn, final(self).v[x as int]),
    {
        let random_number: u8 = random_byte();
        self.and_with(x, nn, random_number);
        let got: u8 = self.v[x];
        assert(got & nn == got && nn & got == got) by (bit_vector)
            requires
                got == nn & random_number,
        ;
    }

    /// FX55: store `V0` ..= `VX` in memory from address `I` on.
    pub fn reg_dump(&mut self, x: usize)
        requires
            x < NUM_REGS,
            old(self).i + x < MEMORY_SIZE,
            old(self).pc + 2 <= u16::MAX,
        ensures
            final(self)@ == old(self)@.reg_dump(x as int),
    {
        let ghost m0 = self@;
        let i_ptr = self.i as usize;
        let mut offset: usize = 0;
        while offset <= x
            invariant
                x < NUM_REGS,
                i_ptr == m0.i,
                i_ptr + x < MEMORY_SIZE,
                offset <= x + 1,
                self@ == (Machine {
                    memory: Seq::new(
                        m0.memory.len(),
                        |a: int|
                            if i_ptr <= a < i_ptr + offset {
                                m0.v[a - i_ptr]
                            } else {
                                m0.memory[a]
                            },
                    ),
                    ..m0
                }),
            decreases x + 1 - offset,
        {
            self.memory[i_ptr + offset] = self.v[offset];
            offset += 1;
            assert(self@.memory =~= Seq::new(
                m0.memory.len(),
                |a: int|
                    if i_ptr <= a < i_ptr + offset {
                        m0.v[a - i_ptr]
                    } else {
                        m0.memory[a]
                    },
            ));
        }
        self.pc += 2;
        assert(self@.memory =~= m0.reg_dump(x as int).memory);
    }

    /// FX65: load `V0` ..= `VX` from memory at address `I` on.
    pub fn reg_load(&mut self, x: usize)
        requires
            x < NUM_REGS,
            old(self).i + x < MEMORY_SIZE,
            old(self).pc + 2 <= u16::MAX,
        ensures
            final(self)@ == old(self)@.reg_load(x as int),
    {
        let ghost m0 = self@;
        let i_ptr = self.i as usize;
        let mut offset: usize = 0;
        while offset <= x
            invariant
                x < NUM_REGS,
                i_ptr == m0.i,
                i_ptr + x < MEMORY_SIZE,
                offset <= x + 1,
                self@ == (Machine {
                    v: Seq::new(
                        m0.v.len(),
                        |k: int|
                            if k < offset {
                                m0.memory[i_ptr + k]
                            } else {
                                m0.v[k]
                            },
                    ),
                    ..m0
                }),
            decreases x + 1 - offset,
        {
            self.v[offset] = self.memory[i_ptr + offset];
            offset += 1;
            assert(self@.v =~= Seq::new(
                m0.v.len(),
                |k: int|
                    if k < offset {
                        m0.memory[i_ptr + k]
                    } else {
                        m0.v[k]
                    },
            ));
        }
        self.pc += 2;
        assert(self@.v =~= m0.reg_load(x as int).v);
    }

    /// FX33: store the hundreds, tens and ones digits of `VX` at `I`, `I + 1`, `I + 2`.
    pub fn to_bcd(&mut self, x: usize)
        requires
            x < NUM_REGS,
            old(self).i + 2 < MEMORY_SIZE,
            old(self).pc + 2 <= u16::MAX,
        ensures
            final(self)@ == old(self)@.to_bcd(x as int),
    {
        let ghost m0 = self@;
        proof {
            self.lemma_wf();
        }
        let ghost val: u8 = self.v[x as int];
        let mut value = self.v[x];
        let mut k: usize = 0;
        while k < 3
            invariant
                x < NUM_REGS,
                k <= 3,
                m0.wf(),
                m0.i + 2 < MEMORY_SIZE,
                val == m0.v[x as int],
                self.i == m0.i,
                k == 0 ==> value == val,
                k == 1 ==> value == val / 10,
                k == 2 ==> value == val / 10 / 10,
                self@ == (Machine {
                    memory: if k == 0 {
                        m0.memory
                    } else if k == 1 {
                        m0.memory.update(m0.i + 2, val % 10)
                    } else if k == 2 {
                        m0.memory.update(m0.i + 2, val % 10).update(m0.i + 1, (val / 10) % 10)
                    } else {
                        m0.memory.update(m0.i + 2, val % 10).update(m0.i + 1, (val / 10) % 10).update(
                            m0.i as int,
                            val / 10 / 10 % 10,
                        )
                    },
                    ..m0
                }),
            decreases 3 - k,
        {
            let offset = 2 - k;
            let digit: u8 = value % 10;
            self.memory[self.i as usize + offset] = digit;
            value /= 10;
            k += 1;
        }
        self.pc += 2;
        assert(val / 10 / 10 % 10 == val / 100) by (bit_vector);
        assert(self@.memory =~= m0.to_bcd(x as int).memory);
    }

    /// FX15: delay timer = `VX`.
    pub fn set_delay_timer(&mut self, x: usize)
        requires
            x < NUM_REGS,
            old(self).pc + 2 <= u16::MAX,
        ensures
            final(self)@ == old(self)@.set_delay_timer(x as int),
    {
        self.dt = self.v[x];
        self.pc += 2;
    }

    /// FX18: sound timer = `VX`.
    pub fn set_sound_timer(&mut self, x: usize)
        requires
            x < NUM_REGS,
            old(self).pc + 2 <= u16::MAX,
        ensures
            final(self)@ == old(self)@.set_sound_timer(x as int),
    {
        self.st = self.v[x];
        self.pc += 2;
    }

    /// FX07: `VX` = delay timer.
    pub fn get_delay(&mut self, x: usize)
        requires
            x < NUM_REGS,
            old(self).pc + 2 <= u16::MAX,
        ensures
            final(self)@ == old(self)@.get_delay(x as int),
    {
        self.v[x] = self.dt;
        self.pc += 2;
    }

    /// FX1E: `I = I + VX`.
    pub fn add_to_i(&mut self, x: usize)
        requires
            x < NUM_REGS,
            old(self).i + old(self).v[x as int] <= u16::MAX,
            old(self).pc + 2 <= u16::MAX,
        ensures
            final(self)@ == old(self)@.add_to_i(x as int),
    {
        self.i += self.v[x] as u16;
        self.pc += 2;
    }

    /// FX29: point `I` at the glyph of the digit in `VX` (five bytes per glyph).
    pub fn set_i_to_font_ptr(&mut self, x: usize)
        requires
            x < NUM_REGS,
            old(self).v[x as int] * 5 <= u8::MAX,
            old(self).pc + 2 <= u16::MAX,
        ensures
            final(self)@ == old(self)@.set_i_to_font_ptr(x as int),
    {
        let ch = self.v[x];
        let addr = ch * 5;
        self.i = addr as u16;
        self.pc += 2;
    }

    /// EX9E: skip the next instruction when the key numbered `VX` is down.
    pub fn is_key_down(&mut self, x: usize)
        requires
            x < NUM_REGS,
            old(self).v[x as int] < NUM_KEYS,
            old(self).pc + 2 <= u16::MAX,
            old(self).key[old(self).v[x as int] as int] ==> old(self).pc + 4 <= u16::MAX,
        ensures
            final(self)@ == old(self)@.is_key_down(x as int),
    {
        let key = self.v[x];
        if self.key[key as usize] {
            self.pc += 2
        }
        self.pc += 2
    }

    /// EXA1: skip the next instruction when the key numbered `VX` is up.
    pub fn is_key_up(&mut self, x: usize)
        requires
            x < NUM_REGS,
            old(self).v[x as int] < NUM_KEYS,
            old(self).pc + 2 <= u16::MAX,
            !old(self).key[old(self).v[x as int] as int] ==> old(self).pc + 4 <= u16::MAX,
        ensures
            final(self)@ == old(self)@.is_key_up(x as int),
    {
        let key = self.v[x];
        if !self.key[key as usize] {
            self.pc += 2
        }
        self.pc += 2
    }

    /// FX0A: for each key that is down, in increasing order, `VX = Vk` and the program
    /// counter moves on by 2; with no key down the instruction runs again.
    pub fn wait_for_key(&mut self, x: usize)
        requires
            x < NUM_REGS,
            old(self).pc + 2 * pressed_count(old(self).key@, NUM_KEYS as int) <= u16::MAX,
        ensures
            final(self)@ == old(self)@.wait_for_key(x as int),
    {
        let ghost m0 = self@;
        proof {
            self.lemma_wf();
        }
        let mut k: usize = 0;
        while k < 16
            invariant
                x < NUM_REGS,
                k <= NUM_KEYS,
                m0.wf(),
                m0.pc + 2 * pressed_count(m0.key, NUM_KEYS as int) <= u16::MAX,
                pressed_count(m0.key, k as int) <= k,
                self@ == m0.with_reg(
                    x as int,
                    match last_pressed_except(m0.key, x as int, k as int) {
                        Some(j) => m0.v[j],
                        None => m0.v[x as int],
                    },
                ).advance(2 * pressed_count(m0.key, k as int) as int),
            decreases 16 - k,
        {
            proof {
                lemma_pressed_count_monotone(m0.key, k + 1, NUM_KEYS as int);
            }
            if self.key[k] {
                self.v[x] = self.v[k];
                self.pc += 2
            }
            k += 1;
            assert(self@.v =~= m0.with_reg(
                x as int,
                match last_pressed_except(m0.key, x as int, k as int) {
                    Some(j) => m0.v[j],
                    None => m0.v[x as int],
                },
            ).v);
        }
    }
}

} // verus!
